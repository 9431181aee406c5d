//! Identifier validation, selector encoding, parsing, the overwrite
//! semantics of the rule maps, and the alternative schema revision.

use mottle::dsl::semantic_highlighting_typestate::{
    SemanticHighlightingDisabled, SemanticHighlightingEnabled, SemanticHighlightingState,
};
use mottle::dsl::{
    parse_selector, s, tm, union, Color, FontStyle, Selector, Style, StructuralMisuseError,
    ThemeBuilder,
};
use mottle::proto::semantic;
use mottle::proto::{textmate, Theme};
use mottle::serialize_theme;
use mottle::style::{Color as AltColor, FontStyle as AltFontStyle, Style as AltStyle};
use mottle::theme::{Rule as AltRule, Theme as AltTheme, Type as AltType, WorkspaceRule};
use mottle::SaveThemeError;

#[test]
fn identifier_keeps_valid_text() {
    let id = semantic::Identifier::new("abc-XYZ-039").unwrap();
    assert_eq!(id.as_str(), "abc-XYZ-039");
    let empty = semantic::Identifier::new("").unwrap();
    assert_eq!(empty.as_str(), "");
}

#[test]
fn identifier_error_names_string() {
    let err = semantic::Identifier::new("has.dot").unwrap_err();
    assert_eq!(err, "invalid character in ‘has.dot’");
    let err = semantic::Identifier::new("a b").unwrap_err();
    assert_eq!(err, "invalid character in ‘a b’");
    let err = semantic::Identifier::new("*").unwrap_err();
    assert_eq!(err, "invalid character in ‘*’");
}

#[test]
fn encode_kind_with_modifiers() {
    let sel = semantic::Selector {
        kind: semantic::TokenKind::Specific(semantic::Identifier::new("variable").unwrap()),
        modifiers: vec![
            semantic::Identifier::new("declaration").unwrap(),
            semantic::Identifier::new("static").unwrap(),
        ],
        language: None,
    };
    assert_eq!(sel.encode(), "variable.declaration.static");
}

#[test]
fn encode_wildcard_with_modifier() {
    let sel = semantic::Selector {
        kind: semantic::TokenKind::Wildcard,
        modifiers: vec![semantic::Identifier::new("mutable").unwrap()],
        language: None,
    };
    assert_eq!(sel.encode(), "*.mutable");
}

#[test]
fn parse_round_trips_through_encoding() {
    for text in ["variable", "*.mutable", "variable.constant:rust", "function.declaration.public"]
    {
        match s(text) {
            Selector::Semantic(sel) => assert_eq!(sel.encode(), text),
            Selector::TextMate(_) => panic!("parsed a scope"),
        }
    }
}

#[test]
fn parse_rejects_trailing_colon() {
    let err = parse_selector("variable:").unwrap_err();
    assert_eq!(err, "expected language name after ‘:’");
}

#[test]
fn parse_rejects_invalid_pieces() {
    assert_eq!(parse_selector("variable:ru st").unwrap_err(), "invalid character in ‘ru st’");
    assert_eq!(parse_selector("va*riable").unwrap_err(), "invalid character in ‘va*riable’");
    assert_eq!(parse_selector("variable.mu*table").unwrap_err(), "invalid character in ‘mu*table’");
    assert_eq!(parse_selector("a:b:c").unwrap_err(), "invalid character in ‘a:b’");
}

#[test]
fn single_rule_preserves_scope_order() {
    let mut t = ThemeBuilder::default();
    t.a(
        vec![tm("keyword.operator"), tm("punctuation")],
        Style::from(Color::from_u32_with_alpha(0xF92672, 0xFF)),
    );
    assert_eq!(
        serialize_theme(&t.build("My cool theme")),
        r##"// Do not edit directly; this file is generated.
{
    "name": "My cool theme",
    "tokenColors": [
        {
            "scope": [
                "keyword.operator",
                "punctuation"
            ],
            "settings": {
                "foreground": "#F92672FF"
            }
        }
    ],
    "semanticHighlighting": true,
    "semanticTokenColors": {},
    "colors": {}
}
"##
    );
}

#[test]
fn semantic_overwrite_keeps_second_style() {
    let mut t = ThemeBuilder::default();
    t.a(vec![s("keyword")], Style::from(Color::from_u32(0x111111)));
    t.a(vec![s("keyword")], Style::from(FontStyle::Bold));
    assert_eq!(
        serialize_theme(&t.build("My cool theme")),
        r##"// Do not edit directly; this file is generated.
{
    "name": "My cool theme",
    "tokenColors": [],
    "semanticHighlighting": true,
    "semanticTokenColors": {
        "keyword": {
            "bold": true,
            "italic": false,
            "underline": false
        }
    },
    "colors": {}
}
"##
    );
}

#[test]
fn workbench_reinsert_keeps_position() {
    let mut t = ThemeBuilder::default();
    t.w(
        vec!["editor.background".to_string(), "editor.foreground".to_string()],
        Color::from_u32(0x111111),
    );
    t.w(vec!["editor.background".to_string()], Color::from_u32(0x222222));
    assert_eq!(
        serialize_theme(&t.build("My cool theme")),
        r##"// Do not edit directly; this file is generated.
{
    "name": "My cool theme",
    "tokenColors": [],
    "semanticHighlighting": true,
    "semanticTokenColors": {},
    "colors": {
        "editor.background": "#222222FF",
        "editor.foreground": "#111111FF"
    }
}
"##
    );
}

#[test]
fn bold_only_renders_bold() {
    let mut t = ThemeBuilder::default();
    t.a(vec![tm("storage")], Style::from(FontStyle::Bold));
    assert_eq!(
        serialize_theme(&t.build("My cool theme")),
        r##"// Do not edit directly; this file is generated.
{
    "name": "My cool theme",
    "tokenColors": [
        {
            "scope": [
                "storage"
            ],
            "settings": {
                "fontStyle": "bold"
            }
        }
    ],
    "semanticHighlighting": true,
    "semanticTokenColors": {},
    "colors": {}
}
"##
    );
}

#[test]
fn italic_before_bold_in_collapsed_text() {
    let theme = Theme {
        name: "My cool theme".to_string(),
        textmate_rules: vec![textmate::Rule {
            scope: vec!["storage".to_string()],
            settings: textmate::RuleSettings {
                foreground: None,
                font_style: textmate::FontStyle::Explicit {
                    bold: true,
                    italic: true,
                    underline: true,
                },
            },
        }],
        semantic_highlighting: semantic::Highlighting::Off,
        workbench_rules: indexmap::IndexMap::new(),
    };
    let doc = serialize_theme(&theme);
    assert!(doc.contains("\"fontStyle\": \"italic bold underline\""));
}

#[test]
fn typestate_gates_selector_flavors() {
    let mut tm_rules: Vec<textmate::Rule> = Vec::new();

    let mut on = SemanticHighlightingEnabled::new();
    on.add_rule(vec![tm("storage"), s("keyword")], Style::from(FontStyle::Bold), &mut tm_rules);
    let mut expected = indexmap::IndexMap::new();
    expected.insert(
        semantic::Selector {
            kind: semantic::TokenKind::Specific(semantic::Identifier::new("keyword").unwrap()),
            modifiers: Vec::new(),
            language: None,
        },
        semantic::Style {
            foreground: None,
            font_style: semantic::FontStyle {
                bold: semantic::FontStyleSetting::True,
                italic: semantic::FontStyleSetting::False,
                underline: semantic::FontStyleSetting::False,
            },
        },
    );
    assert_eq!(on.into_proto(), semantic::Highlighting::On { rules: expected });

    let mut off = SemanticHighlightingDisabled::new();
    off.add_rule(vec!["markup".to_string()], Style::from(FontStyle::Underline), &mut tm_rules);
    assert_eq!(off.into_proto(), semantic::Highlighting::Off);

    assert_eq!(
        tm_rules,
        vec![
            textmate::Rule {
                scope: vec!["storage".to_string()],
                settings: textmate::RuleSettings {
                    foreground: None,
                    font_style: textmate::FontStyle::Explicit {
                        bold: true,
                        italic: false,
                        underline: false,
                    },
                },
            },
            textmate::Rule {
                scope: vec!["markup".to_string()],
                settings: textmate::RuleSettings {
                    foreground: None,
                    font_style: textmate::FontStyle::Explicit {
                        bold: false,
                        italic: false,
                        underline: true,
                    },
                },
            },
        ]
    );
}

#[test]
fn union_preserves_order_and_duplicates() {
    let combined = union(vec![tm("a"), s("b")], vec![tm("a"), tm("c")]);
    assert_eq!(combined, vec![tm("a"), s("b"), tm("a"), tm("c")]);
}

#[test]
fn modifiers_and_language_attach_to_semantic_selectors_only() {
    let sel = s("variable")
        .with_modifier(semantic::Identifier::new("constant").unwrap())
        .unwrap()
        .with_language(semantic::Identifier::new("c").unwrap())
        .unwrap()
        .with_language(semantic::Identifier::new("rust").unwrap())
        .unwrap();
    assert_eq!(sel, s("variable.constant:rust"));

    assert_eq!(
        tm("storage").with_modifier(semantic::Identifier::new("constant").unwrap()),
        Err(StructuralMisuseError::ModifierOnTextMate)
    );
    assert_eq!(
        tm("storage").with_language(semantic::Identifier::new("rust").unwrap()),
        Err(StructuralMisuseError::LanguageOnTextMate)
    );
}

#[test]
fn save_error_messages() {
    assert_eq!(
        SaveThemeError::CreateThemesDir("permission denied".to_string()).message(),
        "failed creating `themes/` directory: permission denied"
    );
    assert_eq!(
        SaveThemeError::ThemesDirIsNotDir.message(),
        "`themes/` already exists and is not a directory"
    );
    assert_eq!(
        SaveThemeError::WriteTheme("disk full".to_string(), "themes/x-color-theme.json".to_string())
            .message(),
        "failed writing theme to `themes/x-color-theme.json`: disk full"
    );
}

#[test]
fn alt_revision_document() {
    let t = AltTheme {
        name: "My cool theme".to_string(),
        ty: AltType::Dark,
        workspace_rules: vec![
            WorkspaceRule {
                scope_name: "editor.foreground".to_string(),
                color: AltColor { hex: 0xFF0000, alpha: None },
            },
            WorkspaceRule {
                scope_name: "editor.background".to_string(),
                color: AltColor { hex: 0x0000FF, alpha: Some(0x80) },
            },
        ],
        semantic_rules: vec![AltRule {
            scope_name: "function".to_string(),
            style: AltStyle {
                color: Some(AltColor { hex: 0x9CDBDE, alpha: None }),
                font_style: Some(AltFontStyle::BoldItalic),
            },
        }],
        textmate_rules: vec![AltRule {
            scope_name: "storage".to_string(),
            style: AltStyle { color: None, font_style: Some(AltFontStyle::Bold) },
        }],
    };
    let expected = "// Do not edit directly; this file is generated.\n{\n\t\"name\": \"My cool theme\",\n\t\"type\": \"dark\",\n\t\"colors\": {\n\t\t\"editor.foreground\": \"#FF0000\",\n\t\t\"editor.background\": \"#0000FF80\"\n\t},\n\t\"semanticHighlighting\": true,\n\t\"semanticTokenColors\": {\n\t\t\"function\": {\n\t\t\t\"foreground\": \"#9CDBDE\",\n\t\t\t\"bold\": true,\n\t\t\t\"italic\": true\n\t\t}\n\t},\n\t\"tokenColors\": [\n\t\t{\n\t\t\t\"scope\": \"storage\",\n\t\t\t\"settings\": {\n\t\t\t\t\"fontStyle\": \"bold\"\n\t\t\t}\n\t\t}\n\t]\n}\n";
    assert_eq!(t.render_with_indent("\t"), expected);
    assert_eq!(t.render(), expected);
}

#[test]
fn alt_style_inherit_serializes_to_nothing() {
    let st = AltStyle { color: None, font_style: Some(AltFontStyle::Inherit) };
    assert_eq!(st.as_json_text(true, "    ", 0), "{}");
    let st = AltStyle { color: None, font_style: None };
    assert_eq!(st.as_json_text(true, "    ", 0), "{\n    \"fontStyle\": \"\"\n}");
}
