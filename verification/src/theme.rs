//! The theme value of the alternative schema revision and its serializer: a
//! name, a light/dark type, and three flat rule lists, rendered with a
//! configurable indentation unit. Semantic highlighting is always on here,
//! and its key order differs from the canonical document.

use vstd::prelude::*;
use crate::jsonstr::{
    emit_json_string, emit_rep, emit_wrapped, push_char, spec_quoted, spec_rep, spec_wrapped,
};
use crate::style::{
    color_wf, emit_alt_color, spec_alt_color_text, spec_alt_style_object, style_wf, Color, Style,
};

verus! {

/// Whether the theme is a light or a dark theme.
#[derive(Debug, Clone, Copy, PartialEq, Eq)]
pub enum Type {
    Light,
    Dark,
}

/// The text a theme type serializes to.
pub open spec fn spec_type_text(t: Type) -> Seq<char> {
    match t {
        Type::Light => "light"@,
        Type::Dark => "dark"@,
    }
}

fn emit_type_text(out: &mut String, t: Type)
    ensures
        final(out)@ == old(out)@ + spec_type_text(t),
{
    match t {
        Type::Light => out.append("light"),
        Type::Dark => out.append("dark"),
    }
    assert(out@ =~= old(out)@ + spec_type_text(t));
}

/// One UI-chrome color assignment.
#[derive(Debug, Clone, PartialEq, Eq)]
pub struct WorkspaceRule {
    pub scope_name: String,
    pub color: Color,
}

/// One token rule: a single scope name and a style.
#[derive(Debug, Clone, PartialEq, Eq)]
pub struct Rule {
    pub scope_name: String,
    pub style: Style,
}

/// The mathematical shape of a UI-chrome color assignment.
pub struct WorkspaceRuleV {
    pub scope_name: Seq<char>,
    pub color: Color,
}

/// The mathematical shape of one token rule.
pub struct RuleAltV {
    pub scope_name: Seq<char>,
    pub style: Style,
}

impl View for WorkspaceRule {
    type V = WorkspaceRuleV;

    open spec fn view(&self) -> WorkspaceRuleV {
        WorkspaceRuleV { scope_name: self.scope_name@, color: self.color }
    }
}

impl View for Rule {
    type V = RuleAltV;

    open spec fn view(&self) -> RuleAltV {
        RuleAltV { scope_name: self.scope_name@, style: self.style }
    }
}

/// The theme of this revision.
#[derive(Debug, Clone, PartialEq, Eq)]
pub struct Theme {
    pub name: String,
    pub ty: Type,
    pub workspace_rules: Vec<WorkspaceRule>,
    pub semantic_rules: Vec<Rule>,
    pub textmate_rules: Vec<Rule>,
}

/// The mathematical shape of the theme.
#[verifier::ext_equal]
pub struct ThemeAltV {
    pub name: Seq<char>,
    pub ty: Type,
    pub workspace_rules: Seq<WorkspaceRuleV>,
    pub semantic_rules: Seq<RuleAltV>,
    pub textmate_rules: Seq<RuleAltV>,
}

impl View for Theme {
    type V = ThemeAltV;

    open spec fn view(&self) -> ThemeAltV {
        ThemeAltV {
            name: self.name@,
            ty: self.ty,
            workspace_rules: self.workspace_rules@.map_values(|r: WorkspaceRule| r@),
            semantic_rules: self.semantic_rules@.map_values(|r: Rule| r@),
            textmate_rules: self.textmate_rules@.map_values(|r: Rule| r@),
        }
    }
}

/// A well-formed theme: every packed color holds three bytes and no more.
pub open spec fn theme_wf(t: ThemeAltV) -> bool {
    &&& forall|i: int|
        0 <= i < t.workspace_rules.len() ==> color_wf(#[trigger] t.workspace_rules[i].color)
    &&& forall|i: int| 0 <= i < t.semantic_rules.len() ==> style_wf(#[trigger] t.semantic_rules[i].style)
    &&& forall|i: int| 0 <= i < t.textmate_rules.len() ==> style_wf(#[trigger] t.textmate_rules[i].style)
}

/// One entry of the `colors` object.
pub open spec fn spec_workspace_item(r: WorkspaceRuleV, ind: Seq<char>) -> Seq<char> {
    spec_rep(ind, 2) + spec_quoted(r.scope_name) + ": \""@ + spec_alt_color_text(r.color)
        + seq!['"']
}

/// One entry of the `semanticTokenColors` object.
pub open spec fn spec_semantic_item(r: RuleAltV, ind: Seq<char>) -> Seq<char> {
    spec_rep(ind, 2) + spec_quoted(r.scope_name) + ": "@ + spec_alt_style_object(
        r.style,
        false,
        ind,
        2,
    )
}

/// One entry of the `tokenColors` array.
pub open spec fn spec_textmate_item(r: RuleAltV, ind: Seq<char>) -> Seq<char> {
    spec_rep(ind, 2) + spec_wrapped(
        seq![
            spec_rep(ind, 3) + "\"scope\": "@ + spec_quoted(r.scope_name),
            spec_rep(ind, 3) + "\"settings\": "@ + spec_alt_style_object(r.style, true, ind, 3),
        ],
        '{',
        '}',
        spec_rep(ind, 2),
    )
}

/// The full document text of this revision: the leading comment line, then
/// name, type, the UI colors, the always-true semantic-highlighting flag, the
/// semantic rules and the scope rules, in that key order.
pub open spec fn spec_render_alt_theme(t: ThemeAltV, ind: Seq<char>) -> Seq<char> {
    "// Do not edit directly; this file is generated.\n{\n"@ + spec_rep(ind, 1) + "\"name\": "@
        + spec_quoted(t.name) + ",\n"@ + spec_rep(ind, 1) + "\"type\": \""@ + spec_type_text(t.ty)
        + "\",\n"@ + spec_rep(ind, 1) + "\"colors\": "@ + spec_wrapped(
        t.workspace_rules.map_values(|r: WorkspaceRuleV| spec_workspace_item(r, ind)),
        '{',
        '}',
        spec_rep(ind, 1),
    ) + ",\n"@ + spec_rep(ind, 1) + "\"semanticHighlighting\": true,\n"@ + spec_rep(ind, 1)
        + "\"semanticTokenColors\": "@ + spec_wrapped(
        t.semantic_rules.map_values(|r: RuleAltV| spec_semantic_item(r, ind)),
        '{',
        '}',
        spec_rep(ind, 1),
    ) + ",\n"@ + spec_rep(ind, 1) + "\"tokenColors\": "@ + spec_wrapped(
        t.textmate_rules.map_values(|r: RuleAltV| spec_textmate_item(r, ind)),
        '[',
        ']',
        spec_rep(ind, 1),
    ) + "\n}\n"@
}

impl Theme {
    /// Renders the document with the given indentation unit.
    pub fn render_with_indent(&self, indent: &str) -> (out: String)
        requires
            theme_wf(self@),
        ensures
            out@ == spec_render_alt_theme(self@, indent@),
    {
        let mut ind1 = String::new();
        emit_rep(&mut ind1, indent, 1);
        let mut ind2 = String::new();
        emit_rep(&mut ind2, indent, 2);
        let mut out = String::new();
        out.append("// Do not edit directly; this file is generated.\n{\n");
        out.append(ind1.as_str());
        out.append("\"name\": ");
        emit_json_string(&mut out, self.name.as_str());
        out.append(",\n");
        out.append(ind1.as_str());
        out.append("\"type\": \"");
        emit_type_text(&mut out, self.ty);
        out.append("\",\n");
        out.append(ind1.as_str());
        out.append("\"colors\": ");
        let mut workspace_items: Vec<String> = Vec::new();
        let mut i: usize = 0;
        while i < self.workspace_rules.len()
            invariant
                i <= self.workspace_rules@.len(),
                theme_wf(self@),
                ind2@ == spec_rep(indent@, 2),
                workspace_items@.len() == i,
                forall|j: int|
                    0 <= j < i ==> #[trigger] workspace_items@[j]@ == spec_workspace_item(
                        self@.workspace_rules[j],
                        indent@,
                    ),
            decreases self.workspace_rules@.len() - i,
        {
            let r = &self.workspace_rules[i];
            let mut it = String::new();
            it.append(ind2.as_str());
            emit_json_string(&mut it, r.scope_name.as_str());
            it.append(": \"");
            proof {
                assert(self@.workspace_rules[i as int] == self.workspace_rules@[i as int]@);
                assert(color_wf(self@.workspace_rules[i as int].color));
                assert(color_wf(r.color));
            }
            emit_alt_color(&mut it, r.color);
            push_char(&mut it, '"');
            proof {
                assert(it@ =~= spec_workspace_item(self@.workspace_rules[i as int], indent@));
            }
            workspace_items.push(it);
            i = i + 1;
        }
        proof {
            assert(workspace_items@.map_values(|s: String| s@) =~= self@.workspace_rules.map_values(
                |r: WorkspaceRuleV| spec_workspace_item(r, indent@),
            ));
        }
        emit_wrapped(&mut out, &workspace_items, '{', '}', ind1.as_str());
        out.append(",\n");
        out.append(ind1.as_str());
        out.append("\"semanticHighlighting\": true,\n");
        out.append(ind1.as_str());
        out.append("\"semanticTokenColors\": ");
        let mut semantic_items: Vec<String> = Vec::new();
        let mut i: usize = 0;
        while i < self.semantic_rules.len()
            invariant
                i <= self.semantic_rules@.len(),
                theme_wf(self@),
                ind2@ == spec_rep(indent@, 2),
                semantic_items@.len() == i,
                forall|j: int|
                    0 <= j < i ==> #[trigger] semantic_items@[j]@ == spec_semantic_item(
                        self@.semantic_rules[j],
                        indent@,
                    ),
            decreases self.semantic_rules@.len() - i,
        {
            let r = &self.semantic_rules[i];
            proof {
                assert(self@.semantic_rules[i as int] == self.semantic_rules@[i as int]@);
                assert(style_wf(self@.semantic_rules[i as int].style));
                assert(style_wf(r.style));
            }
            let mut it = String::new();
            it.append(ind2.as_str());
            emit_json_string(&mut it, r.scope_name.as_str());
            it.append(": ");
            let obj = r.style.as_json_text(false, indent, 2);
            it.append(obj.as_str());
            proof {
                assert(it@ =~= spec_semantic_item(self@.semantic_rules[i as int], indent@));
            }
            semantic_items.push(it);
            i = i + 1;
        }
        proof {
            assert(semantic_items@.map_values(|s: String| s@) =~= self@.semantic_rules.map_values(
                |r: RuleAltV| spec_semantic_item(r, indent@),
            ));
        }
        emit_wrapped(&mut out, &semantic_items, '{', '}', ind1.as_str());
        out.append(",\n");
        out.append(ind1.as_str());
        out.append("\"tokenColors\": ");
        let mut textmate_items: Vec<String> = Vec::new();
        let mut i: usize = 0;
        while i < self.textmate_rules.len()
            invariant
                i <= self.textmate_rules@.len(),
                theme_wf(self@),
                ind2@ == spec_rep(indent@, 2),
                textmate_items@.len() == i,
                forall|j: int|
                    0 <= j < i ==> #[trigger] textmate_items@[j]@ == spec_textmate_item(
                        self@.textmate_rules[j],
                        indent@,
                    ),
            decreases self.textmate_rules@.len() - i,
        {
            let r = &self.textmate_rules[i];
            proof {
                assert(self@.textmate_rules[i as int] == self.textmate_rules@[i as int]@);
                assert(style_wf(self@.textmate_rules[i as int].style));
                assert(style_wf(r.style));
            }
            let mut ind3 = String::new();
            emit_rep(&mut ind3, indent, 3);
            let mut field_scope = String::new();
            field_scope.append(ind3.as_str());
            field_scope.append("\"scope\": ");
            emit_json_string(&mut field_scope, r.scope_name.as_str());
            let mut field_settings = String::new();
            field_settings.append(ind3.as_str());
            field_settings.append("\"settings\": ");
            let obj = r.style.as_json_text(true, indent, 3);
            field_settings.append(obj.as_str());
            let ghost fsv = field_scope@;
            let ghost fstv = field_settings@;
            let mut fields: Vec<String> = Vec::new();
            fields.push(field_scope);
            fields.push(field_settings);
            proof {
                assert(fields@.map_values(|s: String| s@) =~= seq![fsv, fstv]);
            }
            let mut it = String::new();
            it.append(ind2.as_str());
            emit_wrapped(&mut it, &fields, '{', '}', ind2.as_str());
            proof {
                assert(fsv =~= spec_rep(indent@, 3) + "\"scope\": "@ + spec_quoted(
                    self@.textmate_rules[i as int].scope_name,
                ));
                assert(fstv =~= spec_rep(indent@, 3) + "\"settings\": "@ + spec_alt_style_object(
                    self@.textmate_rules[i as int].style,
                    true,
                    indent@,
                    3,
                ));
                assert(it@ =~= spec_textmate_item(self@.textmate_rules[i as int], indent@));
            }
            textmate_items.push(it);
            i = i + 1;
        }
        proof {
            assert(textmate_items@.map_values(|s: String| s@) =~= self@.textmate_rules.map_values(
                |r: RuleAltV| spec_textmate_item(r, indent@),
            ));
        }
        emit_wrapped(&mut out, &textmate_items, '[', ']', ind1.as_str());
        out.append("\n}\n");
        proof {
            assert(out@ =~= spec_render_alt_theme(self@, indent@));
        }
        out
    }

    /// Renders the document with the tab indentation the saved file uses.
    pub fn render(&self) -> (out: String)
        requires
            theme_wf(self@),
        ensures
            out@ == spec_render_alt_theme(self@, "\t"@),
    {
        self.render_with_indent("\t")
    }
}

} // verus!
