//! Legacy scope-based rules: a list of TextMate scopes and the settings they
//! receive, with their rendering inside the serialized document.

use vstd::prelude::*;
use crate::proto::{Color, emit_color, spec_color_text};
use crate::jsonstr::{
    emit_join, emit_json_string, emit_wrapped, push_char, spec_join, spec_quoted, spec_wrapped,
};

verus! {

/// One scope rule: the scopes it targets, in order, and their settings.
/// Rules are never merged: every rule-addition call with scopes appends one.
#[derive(Debug, Clone, PartialEq, Eq, PartialOrd, Ord, Hash)]
pub struct Rule {
    pub scope: Vec<String>,
    pub settings: RuleSettings,
}

/// The settings of one scope rule.
#[derive(Debug, Clone, Copy, PartialEq, Eq, PartialOrd, Ord, Hash)]
pub struct RuleSettings {
    pub foreground: Option<Color>,
    pub font_style: FontStyle,
}

/// The font style of a scope rule: inherited, or all three axes given.
#[derive(Debug, Clone, Copy, PartialEq, Eq, PartialOrd, Ord, Hash)]
pub enum FontStyle {
    Inherit,
    Explicit { bold: bool, italic: bool, underline: bool },
}

/// The mathematical shape of a scope rule.
#[verifier::ext_equal]
pub struct RuleV {
    pub scope: Seq<Seq<char>>,
    pub settings: RuleSettings,
}

impl View for Rule {
    type V = RuleV;

    open spec fn view(&self) -> RuleV {
        RuleV { scope: self.scope@.map_values(|s: String| s@), settings: self.settings }
    }
}

/// The words of a scope rule's font-style text, in the fixed order
/// italic, then bold, then underline, whatever the construction order was.
pub open spec fn spec_tm_font_words(bold: bool, italic: bool, underline: bool) -> Seq<Seq<char>> {
    (if italic {
        seq!["italic"@]
    } else {
        Seq::<Seq<char>>::empty()
    }) + (if bold {
        seq!["bold"@]
    } else {
        Seq::<Seq<char>>::empty()
    }) + (if underline {
        seq!["underline"@]
    } else {
        Seq::<Seq<char>>::empty()
    })
}

/// The fields of a scope rule's settings object: the foreground when present,
/// and the space-joined font-style text when some axis is set; a rule whose
/// axes are inherited or all off carries no font-style key.
pub open spec fn spec_tm_settings_items(st: RuleSettings, ind: Seq<char>) -> Seq<Seq<char>> {
    (match st.foreground {
        Some(c) => seq![ind + "\"foreground\": \""@ + spec_color_text(c) + seq!['"']],
        None => Seq::<Seq<char>>::empty(),
    }) + (match st.font_style {
        FontStyle::Inherit => Seq::<Seq<char>>::empty(),
        FontStyle::Explicit { bold, italic, underline } => {
            if bold || italic || underline {
                seq![
                    ind + "\"fontStyle\": \""@ + spec_join(
                        spec_tm_font_words(bold, italic, underline),
                        seq![' '],
                    ) + seq!['"'],
                ]
            } else {
                Seq::<Seq<char>>::empty()
            }
        },
    })
}

/// Builds the rendered fields of a scope rule's settings object, each
/// carrying the given leading indentation.
pub fn tm_settings_items(st: &RuleSettings, ind: &str) -> (items: Vec<String>)
    ensures
        items@.map_values(|s: String| s@) == spec_tm_settings_items(*st, ind@),
{
    let mut items: Vec<String> = Vec::new();
    match st.foreground {
        Some(c) => {
            let mut it = String::new();
            it.append(ind);
            it.append("\"foreground\": \"");
            emit_color(&mut it, c);
            push_char(&mut it, '"');
            proof {
                assert(it@ =~= ind@ + "\"foreground\": \""@ + spec_color_text(c) + seq!['"']);
            }
            items.push(it);
        },
        None => {},
    }
    let ghost fg_items = match st.foreground {
        Some(c) => seq![ind@ + "\"foreground\": \""@ + spec_color_text(c) + seq!['"']],
        None => Seq::<Seq<char>>::empty(),
    };
    proof {
        assert(items@.map_values(|s: String| s@) =~= fg_items);
    }
    match st.font_style {
        FontStyle::Inherit => {},
        FontStyle::Explicit { bold, italic, underline } => {
            if bold || italic || underline {
                let mut words: Vec<String> = Vec::new();
                if italic {
                    words.push(String::from_str("italic"));
                }
                if bold {
                    words.push(String::from_str("bold"));
                }
                if underline {
                    words.push(String::from_str("underline"));
                }
                proof {
                    reveal_strlit(" ");
                    assert(" "@ =~= seq![' ']);
                    assert(words@.map_values(|s: String| s@) =~= spec_tm_font_words(
                        bold,
                        italic,
                        underline,
                    ));
                }
                let mut it = String::new();
                it.append(ind);
                it.append("\"fontStyle\": \"");
                emit_join(&mut it, &words, " ");
                push_char(&mut it, '"');
                proof {
                    assert(it@ =~= ind@ + "\"fontStyle\": \""@ + spec_join(
                        spec_tm_font_words(bold, italic, underline),
                        seq![' '],
                    ) + seq!['"']);
                }
                items.push(it);
            }
        },
    }
    proof {
        assert(items@.map_values(|s: String| s@) =~= spec_tm_settings_items(*st, ind@));
    }
    items
}

/// The text one scope rule contributes to the `tokenColors` array, with the
/// layout of the serialized document.
pub open spec fn spec_rule_item(r: RuleV) -> Seq<char> {
    "        "@ + spec_wrapped(
        seq![
            "            \"scope\": "@ + spec_wrapped(
                r.scope.map_values(|s: Seq<char>| "                "@ + spec_quoted(s)),
                '[',
                ']',
                "            "@,
            ),
            "            \"settings\": "@ + spec_wrapped(
                spec_tm_settings_items(r.settings, "                "@),
                '{',
                '}',
                "            "@,
            ),
        ],
        '{',
        '}',
        "        "@,
    )
}

/// Renders one scope rule as an entry of the `tokenColors` array.
pub fn rule_item(r: &Rule) -> (it: String)
    ensures
        it@ == spec_rule_item(r@),
{
    let mut scope_items: Vec<String> = Vec::new();
    let mut i: usize = 0;
    while i < r.scope.len()
        invariant
            i <= r.scope@.len(),
            scope_items@.len() == i,
            forall|j: int|
                0 <= j < i ==> #[trigger] scope_items@[j]@ == "                "@ + spec_quoted(
                    r@.scope[j],
                ),
        decreases r.scope@.len() - i,
    {
        let mut sc = String::new();
        sc.append("                ");
        emit_json_string(&mut sc, r.scope[i].as_str());
        proof {
            assert(r@.scope[i as int] == r.scope@[i as int]@);
            assert(sc@ =~= "                "@ + spec_quoted(r@.scope[i as int]));
        }
        scope_items.push(sc);
        i = i + 1;
    }
    proof {
        assert(scope_items@.map_values(|s: String| s@) =~= r@.scope.map_values(
            |s: Seq<char>| "                "@ + spec_quoted(s),
        ));
    }
    let mut field_scope = String::new();
    field_scope.append("            \"scope\": ");
    emit_wrapped(&mut field_scope, &scope_items, '[', ']', "            ");
    let settings_items = tm_settings_items(&r.settings, "                ");
    let mut field_settings = String::new();
    field_settings.append("            \"settings\": ");
    emit_wrapped(&mut field_settings, &settings_items, '{', '}', "            ");
    let mut fields: Vec<String> = Vec::new();
    let ghost field_scope_v = field_scope@;
    let ghost field_settings_v = field_settings@;
    fields.push(field_scope);
    fields.push(field_settings);
    proof {
        assert(fields@.map_values(|s: String| s@) =~= seq![field_scope_v, field_settings_v]);
    }
    let mut it = String::new();
    it.append("        ");
    emit_wrapped(&mut it, &fields, '{', '}', "        ");
    proof {
        assert(it@ =~= spec_rule_item(r@));
    }
    it
}

} // verus!
