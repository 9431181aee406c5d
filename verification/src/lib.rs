//! A small library for generating code-editor color themes.
//!
//! Rules are described programmatically: validated identifiers, TextMate and
//! semantic-token selectors, and partial styles are accumulated by a builder
//! into a theme value, which is then rendered to a canonical, deterministic
//! JSON document.

use vstd::prelude::*;

pub mod dsl;
pub mod jsonstr;
pub mod ordered_map;
pub mod proto;
pub mod style;
pub mod theme;

use crate::jsonstr::{emit_json_string, emit_wrapped, spec_quoted, spec_wrapped};
use crate::proto::semantic::{
    sem_entry_item, spec_sem_entry_item, Highlighting, HighlightingV, SelectorV, Style,
};
use crate::proto::textmate::{rule_item, spec_rule_item, RuleV};
use crate::proto::{spec_color_text, Color, Theme, ThemeV};

verus! {

/// The rendered entries of the `tokenColors` array, one per scope rule.
pub open spec fn spec_rule_items(rs: Seq<RuleV>) -> Seq<Seq<char>> {
    rs.map_values(|r: RuleV| spec_rule_item(r))
}

/// The rendered entries of the `semanticTokenColors` object, in insertion
/// order.
pub open spec fn spec_sem_entry_items(es: Seq<(SelectorV, Style)>) -> Seq<Seq<char>> {
    es.map_values(|e: (SelectorV, Style)| spec_sem_entry_item(e.0, e.1))
}

/// The rendered entries of the `colors` object, in insertion order.
pub open spec fn spec_workbench_items(es: Seq<(Seq<char>, Color)>) -> Seq<Seq<char>> {
    es.map_values(
        |e: (Seq<char>, Color)|
            "        "@ + spec_quoted(e.0) + ": "@ + spec_quoted(spec_color_text(e.1)),
    )
}

/// The full document text of a theme: the leading comment line, then the
/// theme's name, the scope rules, the semantic-highlighting section (its
/// rules appear only when highlighting is on), and the UI colors, all in
/// insertion order, indented by four spaces per level.
pub open spec fn spec_render_theme(t: ThemeV) -> Seq<char> {
    "// Do not edit directly; this file is generated.\n{\n    \"name\": "@ + spec_quoted(t.name)
        + ",\n    \"tokenColors\": "@ + spec_wrapped(
        spec_rule_items(t.textmate_rules),
        '[',
        ']',
        "    "@,
    ) + (match t.semantic_highlighting {
        HighlightingV::Off => ",\n    \"semanticHighlighting\": false"@,
        HighlightingV::On { rules } => ",\n    \"semanticHighlighting\": true,\n    \"semanticTokenColors\": "@
            + spec_wrapped(spec_sem_entry_items(rules), '{', '}', "    "@),
    }) + ",\n    \"colors\": "@ + spec_wrapped(
        spec_workbench_items(t.workbench_rules),
        '{',
        '}',
        "    "@,
    ) + "\n}\n"@
}

/// Renders a theme to its document text.
///
/// The result is a function of the theme's shape alone, so serializing one
/// theme twice gives byte-identical text.
pub fn serialize_theme(theme: &Theme) -> (out: String)
    ensures
        out@ == spec_render_theme(theme@),
{
    let mut out = String::new();
    out.append("// Do not edit directly; this file is generated.\n{\n    \"name\": ");
    emit_json_string(&mut out, theme.name.as_str());
    out.append(",\n    \"tokenColors\": ");
    let mut rule_items: Vec<String> = Vec::new();
    let mut i: usize = 0;
    while i < theme.textmate_rules.len()
        invariant
            i <= theme.textmate_rules@.len(),
            rule_items@.len() == i,
            forall|j: int|
                0 <= j < i ==> #[trigger] rule_items@[j]@ == spec_rule_item(
                    theme.textmate_rules@[j]@,
                ),
        decreases theme.textmate_rules@.len() - i,
    {
        rule_items.push(rule_item(&theme.textmate_rules[i]));
        i = i + 1;
    }
    proof {
        assert(rule_items@.map_values(|s: String| s@) =~= spec_rule_items(
            theme@.textmate_rules,
        ));
    }
    emit_wrapped(&mut out, &rule_items, '[', ']', "    ");
    match &theme.semantic_highlighting {
        Highlighting::Off => {
            out.append(",\n    \"semanticHighlighting\": false");
        },
        Highlighting::On { rules } => {
            out.append(",\n    \"semanticHighlighting\": true,\n    \"semanticTokenColors\": ");
            let pairs = crate::ordered_map::semantic_map_pairs(rules);
            let mut sem_items: Vec<String> = Vec::new();
            let mut j: usize = 0;
            while j < pairs.len()
                invariant
                    j <= pairs@.len(),
                    sem_items@.len() == j,
                    forall|l: int|
                        0 <= l < j ==> #[trigger] sem_items@[l]@ == spec_sem_entry_item(
                            pairs@[l].0@,
                            pairs@[l].1,
                        ),
                decreases pairs@.len() - j,
            {
                sem_items.push(sem_entry_item(&pairs[j].0, &pairs[j].1));
                j = j + 1;
            }
            proof {
                let entries = crate::ordered_map::semantic_entries(*rules);
                assert forall|l: int| 0 <= l < entries.len() implies #[trigger] sem_items@[l]@
                    == spec_sem_entry_item(entries[l].0, entries[l].1) by {
                    assert((pairs@[l].0@, pairs@[l].1) == entries[l]);
                }
                assert(sem_items@.map_values(|s: String| s@) =~= spec_sem_entry_items(entries));
            }
            emit_wrapped(&mut out, &sem_items, '{', '}', "    ");
        },
    }
    out.append(",\n    \"colors\": ");
    let wpairs = crate::ordered_map::workbench_map_pairs(&theme.workbench_rules);
    let mut color_items: Vec<String> = Vec::new();
    let mut i: usize = 0;
    while i < wpairs.len()
        invariant
            i <= wpairs@.len(),
            color_items@.len() == i,
            forall|j: int|
                0 <= j < i ==> #[trigger] color_items@[j]@ == "        "@ + spec_quoted(
                    wpairs@[j].0@,
                ) + ": "@ + spec_quoted(spec_color_text(wpairs@[j].1)),
        decreases wpairs@.len() - i,
    {
        let mut it = String::new();
        it.append("        ");
        emit_json_string(&mut it, wpairs[i].0.as_str());
        it.append(": ");
        let mut ctext = String::new();
        proto::emit_color(&mut ctext, wpairs[i].1);
        proof {
            assert(ctext@ =~= spec_color_text(wpairs@[i as int].1));
        }
        emit_json_string(&mut it, ctext.as_str());
        proof {
            assert(it@ =~= "        "@ + spec_quoted(wpairs@[i as int].0@) + ": "@ + spec_quoted(
                spec_color_text(wpairs@[i as int].1),
            ));
        }
        color_items.push(it);
        i = i + 1;
    }
    proof {
        let entries = crate::ordered_map::workbench_entries(theme.workbench_rules);
        assert forall|j: int| 0 <= j < entries.len() implies #[trigger] color_items@[j]@
            == "        "@ + spec_quoted(entries[j].0) + ": "@ + spec_quoted(
            spec_color_text(entries[j].1),
        ) by {
            assert((wpairs@[j].0@, wpairs@[j].1) == entries[j]);
        }
        assert(color_items@.map_values(|s: String| s@) =~= spec_workbench_items(entries));
    }
    emit_wrapped(&mut out, &color_items, '{', '}', "    ");
    out.append("\n}\n");
    proof {
        assert(out@ =~= spec_render_theme(theme@));
    }
    out
}

/// Serialization is deterministic: the document text is a function of the
/// theme's shape alone, so any two renderings of one theme are identical.
pub proof fn lemma_serialize_deterministic(t: ThemeV, out1: Seq<char>, out2: Seq<char>)
    requires
        out1 == spec_render_theme(t),
        out2 == spec_render_theme(t),
    ensures
        out1 == out2,
{
}

/// Why saving a theme to disk failed. The text fields carry the offending
/// path and the underlying cause, so the source definition can be fixed.
#[derive(Debug, Clone, PartialEq, Eq)]
pub enum SaveThemeError {
    /// The `themes` directory could not be created; holds the cause.
    CreateThemesDir(String),
    /// `themes` already exists and is not a directory.
    ThemesDirIsNotDir,
    /// The theme file could not be written; holds the cause and the path.
    WriteTheme(String, String),
}

/// The description of a save failure, with the offending path and the
/// underlying cause where they are known.
pub open spec fn spec_save_error_message(e: SaveThemeError) -> Seq<char> {
    match e {
        SaveThemeError::CreateThemesDir(cause) => "failed creating `themes/` directory: "@
            + cause@,
        SaveThemeError::ThemesDirIsNotDir => "`themes/` already exists and is not a directory"@,
        SaveThemeError::WriteTheme(cause, path) => "failed writing theme to `"@ + path@ + "`: "@
            + cause@,
    }
}

impl SaveThemeError {
    /// Describes the failure, naming the offending path and the cause.
    pub fn message(&self) -> (m: String)
        ensures
            m@ == spec_save_error_message(*self),
    {
        let mut m = String::new();
        match self {
            SaveThemeError::CreateThemesDir(cause) => {
                m.append("failed creating `themes/` directory: ");
                m.append(cause.as_str());
            },
            SaveThemeError::ThemesDirIsNotDir => {
                m.append("`themes/` already exists and is not a directory");
            },
            SaveThemeError::WriteTheme(cause, path) => {
                m.append("failed writing theme to `");
                m.append(path.as_str());
                m.append("`: ");
                m.append(cause.as_str());
            },
        }
        proof {
            assert(m@ =~= spec_save_error_message(*self));
        }
        m
    }
}

} // verus!
