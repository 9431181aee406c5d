//! Semantic-token selectors: validated identifiers, token kinds, modifiers
//! and an optional language tag, with their canonical textual encoding.

use vstd::prelude::*;
use crate::proto::{Color, emit_color, spec_color_text};
use crate::jsonstr::{emit_json_string, emit_wrapped, push_char, spec_quoted, spec_wrapped};

verus! {

/// A character an identifier may hold: ASCII alphanumeric or hyphen.
pub open spec fn is_ident_char(c: char) -> bool {
    (0x30 <= c as u32 && c as u32 <= 0x39) || (0x41 <= c as u32 && c as u32 <= 0x5A) || (0x61
        <= c as u32 && c as u32 <= 0x7A) || c == '-'
}

/// Valid identifier text: every character ASCII alphanumeric or hyphen.
pub open spec fn is_valid_ident(s: Seq<char>) -> bool {
    forall|i: int| 0 <= i < s.len() ==> is_ident_char(#[trigger] s[i])
}

/// The error text for a rejected identifier: it names the exact offending
/// string.
pub open spec fn spec_ident_error(s: Seq<char>) -> Seq<char> {
    "invalid character in ‘"@ + s + "’"@
}

/// A validated atomic token: kind names, modifiers and language tags.
#[derive(Debug, Clone, PartialEq, Eq, PartialOrd, Ord, Hash)]
pub struct Identifier(String);

impl View for Identifier {
    type V = Seq<char>;

    closed spec fn view(&self) -> Seq<char> {
        self.0@
    }
}

fn ident_char_ok(c: char) -> (b: bool)
    ensures
        b == is_ident_char(c),
{
    let u = c as u32;
    (0x30 <= u && u <= 0x39) || (0x41 <= u && u <= 0x5A) || (0x61 <= u && u <= 0x7A) || c == '-'
}

impl Identifier {
    /// Validates the text: construction succeeds exactly when every character
    /// is ASCII alphanumeric or a hyphen, and then the identifier reads as the
    /// input; otherwise the error names the offending string.
    pub fn new(s: &str) -> (r: Result<Identifier, String>)
        ensures
            is_valid_ident(s@) ==> (r matches Ok(id) && id@ == s@),
            !is_valid_ident(s@) ==> (r matches Err(e) && e@ == spec_ident_error(s@)),
    {
        let len = s.unicode_len();
        let mut i: usize = 0;
        while i < len
            invariant
                len == s@.len(),
                i <= len,
                forall|j: int| 0 <= j < i ==> is_ident_char(#[trigger] s@[j]),
            decreases len - i,
        {
            let c = s.get_char(i);
            if !ident_char_ok(c) {
                let mut e = String::new();
                e.append("invalid character in ‘");
                e.append(s);
                e.append("’");
                proof {
                    assert(!is_valid_ident(s@));
                    assert(e@ =~= spec_ident_error(s@));
                }
                return Err(e);
            }
            i = i + 1;
        }
        Ok(Identifier(s.to_owned()))
    }

    /// The identifier's text.
    pub fn as_str(&self) -> (r: &str)
        ensures
            r@ == self@,
    {
        self.0.as_str()
    }
}

/// A token-kind expression: the wildcard marker or a specific kind name.
#[derive(Debug, Clone, PartialEq, Eq, PartialOrd, Ord, Hash)]
pub enum TokenKind {
    Wildcard,
    Specific(Identifier),
}

/// The mathematical shape of a token kind.
pub enum TokenKindV {
    Wildcard,
    Specific(Seq<char>),
}

impl View for TokenKind {
    type V = TokenKindV;

    open spec fn view(&self) -> TokenKindV {
        match self {
            TokenKind::Wildcard => TokenKindV::Wildcard,
            TokenKind::Specific(id) => TokenKindV::Specific(id@),
        }
    }
}

/// A semantic-token selector: a kind, modifiers in insertion order
/// (duplicates retained), and an optional language tag.
#[derive(Debug, Clone, PartialEq, Eq, PartialOrd, Ord, Hash)]
pub struct Selector {
    pub kind: TokenKind,
    pub modifiers: Vec<Identifier>,
    pub language: Option<Identifier>,
}

/// The mathematical shape of a semantic selector.
#[verifier::ext_equal]
pub struct SelectorV {
    pub kind: TokenKindV,
    pub modifiers: Seq<Seq<char>>,
    pub language: Option<Seq<char>>,
}

impl View for Selector {
    type V = SelectorV;

    open spec fn view(&self) -> SelectorV {
        SelectorV {
            kind: self.kind@,
            modifiers: self.modifiers@.map_values(|id: Identifier| id@),
            language: match self.language {
                Some(l) => Some(l@),
                None => None,
            },
        }
    }
}

/// The text a token kind contributes to an encoded selector.
pub open spec fn spec_kind_text(k: TokenKindV) -> Seq<char> {
    match k {
        TokenKindV::Wildcard => seq!['*'],
        TokenKindV::Specific(t) => t,
    }
}

/// The modifier part of an encoded selector: `.<modifier>` for each modifier,
/// in order.
pub open spec fn spec_mods_text(mods: Seq<Seq<char>>) -> Seq<char>
    decreases mods.len(),
{
    if mods.len() == 0 {
        Seq::empty()
    } else {
        spec_mods_text(mods.drop_last()) + seq!['.'] + mods.last()
    }
}

/// The canonical encoding `<kind>(.<modifier>)*(:<language>)?` of a semantic
/// selector. It doubles as the selector's key in the serialized document.
pub open spec fn spec_encode_selector(v: SelectorV) -> Seq<char> {
    spec_kind_text(v.kind) + spec_mods_text(v.modifiers) + (match v.language {
        Some(l) => seq![':'] + l,
        None => Seq::<char>::empty(),
    })
}

impl Selector {
    /// Renders the canonical encoding of this selector.
    pub fn encode(&self) -> (s: String)
        ensures
            s@ == spec_encode_selector(self@),
    {
        let mut out = String::new();
        match &self.kind {
            TokenKind::Wildcard => {
                push_char(&mut out, '*');
            },
            TokenKind::Specific(id) => {
                out.append(id.as_str());
            },
        }
        assert(out@ =~= spec_kind_text(self@.kind));
        let ghost kind_text = out@;
        let mut i: usize = 0;
        while i < self.modifiers.len()
            invariant
                i <= self.modifiers@.len(),
                kind_text == spec_kind_text(self@.kind),
                out@ == kind_text + spec_mods_text(self@.modifiers.take(i as int)),
            decreases self.modifiers@.len() - i,
        {
            push_char(&mut out, '.');
            out.append(self.modifiers[i].as_str());
            proof {
                let mv = self@.modifiers;
                let t = mv.take(i + 1 as int);
                assert(t.drop_last() =~= mv.take(i as int));
                assert(t.last() == mv[i as int]);
                assert(mv[i as int] == self.modifiers@[i as int]@);
                assert(out@ =~= kind_text + spec_mods_text(mv.take(i + 1 as int)));
            }
            i = i + 1;
        }
        proof {
            assert(self@.modifiers.take(self.modifiers@.len() as int) =~= self@.modifiers);
        }
        match &self.language {
            Some(l) => {
                push_char(&mut out, ':');
                out.append(l.as_str());
            },
            None => {},
        }
        assert(out@ =~= spec_encode_selector(self@));
        out
    }
}

/// Whether semantic highlighting is enabled, and, when it is, the semantic
/// rules: an order-preserving overwrite map from selector to style.
#[derive(Debug, PartialEq, Eq)]
pub enum Highlighting {
    Off,
    On { rules: indexmap::IndexMap<Selector, Style> },
}

/// The mathematical shape of the semantic-highlighting state.
#[verifier::ext_equal]
pub enum HighlightingV {
    Off,
    On { rules: Seq<(SelectorV, Style)> },
}

impl View for Highlighting {
    type V = HighlightingV;

    open spec fn view(&self) -> HighlightingV {
        match self {
            Highlighting::Off => HighlightingV::Off,
            Highlighting::On { rules } => HighlightingV::On {
                rules: crate::ordered_map::semantic_entries(*rules),
            },
        }
    }
}

/// A tri-state font axis: explicitly on, explicitly off, or silent
/// (deferring to a lower-priority rule).
#[derive(Debug, Clone, Copy, PartialEq, Eq, PartialOrd, Ord, Hash)]
pub enum FontStyleSetting {
    True,
    False,
    Inherit,
}

/// The three font axes of a semantic style.
#[derive(Debug, Clone, Copy, PartialEq, Eq, PartialOrd, Ord, Hash)]
pub struct FontStyle {
    pub bold: FontStyleSetting,
    pub italic: FontStyleSetting,
    pub underline: FontStyleSetting,
}

/// The style a semantic rule applies: an optional foreground color and a
/// tri-state value per font axis.
#[derive(Debug, Clone, Copy, PartialEq, Eq, PartialOrd, Ord, Hash)]
pub struct Style {
    pub foreground: Option<Color>,
    pub font_style: FontStyle,
}

/// The fields of a semantic style's settings object: the foreground when
/// present, then each axis that is explicitly on or off as its own boolean
/// field; a silent (inherited) axis is omitted entirely.
pub open spec fn spec_sem_style_items(st: Style, ind: Seq<char>) -> Seq<Seq<char>> {
    (match st.foreground {
        Some(c) => seq![ind + "\"foreground\": \""@ + spec_color_text(c) + seq!['"']],
        None => Seq::<Seq<char>>::empty(),
    }) + (match st.font_style.bold {
        FontStyleSetting::True => seq![ind + "\"bold\": true"@],
        FontStyleSetting::False => seq![ind + "\"bold\": false"@],
        FontStyleSetting::Inherit => Seq::<Seq<char>>::empty(),
    }) + (match st.font_style.italic {
        FontStyleSetting::True => seq![ind + "\"italic\": true"@],
        FontStyleSetting::False => seq![ind + "\"italic\": false"@],
        FontStyleSetting::Inherit => Seq::<Seq<char>>::empty(),
    }) + (match st.font_style.underline {
        FontStyleSetting::True => seq![ind + "\"underline\": true"@],
        FontStyleSetting::False => seq![ind + "\"underline\": false"@],
        FontStyleSetting::Inherit => Seq::<Seq<char>>::empty(),
    })
}

fn indented_item(ind: &str, text: &str) -> (it: String)
    ensures
        it@ == ind@ + text@,
{
    let mut it = String::new();
    it.append(ind);
    it.append(text);
    proof {
        assert(it@ =~= ind@ + text@);
    }
    it
}

/// Builds the rendered fields of a semantic style's settings object, each
/// carrying the given leading indentation.
pub fn sem_style_items(st: &Style, ind: &str) -> (items: Vec<String>)
    ensures
        items@.map_values(|s: String| s@) == spec_sem_style_items(*st, ind@),
{
    let mut items: Vec<String> = Vec::new();
    match st.foreground {
        Some(c) => {
            let mut it = String::new();
            it.append(ind);
            it.append("\"foreground\": \"");
            emit_color(&mut it, c);
            push_char(&mut it, '"');
            proof {
                assert(it@ =~= ind@ + "\"foreground\": \""@ + spec_color_text(c) + seq!['"']);
            }
            items.push(it);
        },
        None => {},
    }
    let ghost fg_items = match st.foreground {
        Some(c) => seq![ind@ + "\"foreground\": \""@ + spec_color_text(c) + seq!['"']],
        None => Seq::<Seq<char>>::empty(),
    };
    proof {
        assert(items@.map_values(|s: String| s@) =~= fg_items);
    }
    match st.font_style.bold {
        FontStyleSetting::True => items.push(indented_item(ind, "\"bold\": true")),
        FontStyleSetting::False => items.push(indented_item(ind, "\"bold\": false")),
        FontStyleSetting::Inherit => {},
    }
    let ghost bold_items = match st.font_style.bold {
        FontStyleSetting::True => seq![ind@ + "\"bold\": true"@],
        FontStyleSetting::False => seq![ind@ + "\"bold\": false"@],
        FontStyleSetting::Inherit => Seq::<Seq<char>>::empty(),
    };
    proof {
        assert(items@.map_values(|s: String| s@) =~= fg_items + bold_items);
    }
    match st.font_style.italic {
        FontStyleSetting::True => items.push(indented_item(ind, "\"italic\": true")),
        FontStyleSetting::False => items.push(indented_item(ind, "\"italic\": false")),
        FontStyleSetting::Inherit => {},
    }
    let ghost italic_items = match st.font_style.italic {
        FontStyleSetting::True => seq![ind@ + "\"italic\": true"@],
        FontStyleSetting::False => seq![ind@ + "\"italic\": false"@],
        FontStyleSetting::Inherit => Seq::<Seq<char>>::empty(),
    };
    proof {
        assert(items@.map_values(|s: String| s@) =~= fg_items + bold_items + italic_items);
    }
    match st.font_style.underline {
        FontStyleSetting::True => items.push(indented_item(ind, "\"underline\": true")),
        FontStyleSetting::False => items.push(indented_item(ind, "\"underline\": false")),
        FontStyleSetting::Inherit => {},
    }
    proof {
        assert(items@.map_values(|s: String| s@) =~= spec_sem_style_items(*st, ind@));
    }
    items
}

/// The text one semantic rule contributes to the `semanticTokenColors`
/// object: the selector's canonical encoding is the key.
pub open spec fn spec_sem_entry_item(sel: SelectorV, st: Style) -> Seq<char> {
    "        "@ + spec_quoted(spec_encode_selector(sel)) + ": "@ + spec_wrapped(
        spec_sem_style_items(st, "            "@),
        '{',
        '}',
        "        "@,
    )
}

/// Renders one semantic rule as an entry of the `semanticTokenColors` object.
pub fn sem_entry_item(sel: &Selector, st: &Style) -> (it: String)
    ensures
        it@ == spec_sem_entry_item(sel@, *st),
{
    let enc = sel.encode();
    let mut it = String::new();
    it.append("        ");
    emit_json_string(&mut it, enc.as_str());
    it.append(": ");
    let items = sem_style_items(st, "            ");
    emit_wrapped(&mut it, &items, '{', '}', "        ");
    proof {
        assert(it@ =~= spec_sem_entry_item(sel@, *st));
    }
    it
}

} // verus!
