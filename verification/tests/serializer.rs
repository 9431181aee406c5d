//! The serializer renders theme values to the exact document text.

use indexmap::IndexMap;
use mottle::proto::{semantic, textmate, Color, Theme};
use mottle::serialize_theme;

#[test]
fn completely_empty() {
    let theme = Theme {
        name: "My cool theme".to_string(),
        textmate_rules: Vec::new(),
        semantic_highlighting: semantic::Highlighting::Off,
        workbench_rules: IndexMap::new(),
    };
    assert_eq!(
        serialize_theme(&theme),
        r#"// Do not edit directly; this file is generated.
{
    "name": "My cool theme",
    "tokenColors": [],
    "semanticHighlighting": false,
    "colors": {}
}
"#
    );
}

#[test]
fn empty_semantic() {
    let theme = Theme {
        name: "My cool theme".to_string(),
        textmate_rules: Vec::new(),
        semantic_highlighting: semantic::Highlighting::On { rules: IndexMap::new() },
        workbench_rules: IndexMap::new(),
    };
    assert_eq!(
        serialize_theme(&theme),
        r#"// Do not edit directly; this file is generated.
{
    "name": "My cool theme",
    "tokenColors": [],
    "semanticHighlighting": true,
    "semanticTokenColors": {},
    "colors": {}
}
"#
    );
}

#[test]
fn basic_textmate() {
    let theme = Theme {
        name: "My cool theme".to_string(),
        textmate_rules: vec![textmate::Rule {
            scope: vec!["entity.function.name".to_string()],
            settings: textmate::RuleSettings {
                foreground: Some(Color { r: 156, g: 219, b: 222, a: 255 }),
                font_style: textmate::FontStyle::Inherit,
            },
        }],
        semantic_highlighting: semantic::Highlighting::Off,
        workbench_rules: IndexMap::new(),
    };
    assert_eq!(
        serialize_theme(&theme),
        r##"// Do not edit directly; this file is generated.
{
    "name": "My cool theme",
    "tokenColors": [
        {
            "scope": [
                "entity.function.name"
            ],
            "settings": {
                "foreground": "#9CDBDEFF"
            }
        }
    ],
    "semanticHighlighting": false,
    "colors": {}
}
"##
    );
}

#[test]
fn textmate_with_font_styles() {
    let theme = Theme {
        name: "My cool theme".to_string(),
        textmate_rules: vec![
            textmate::Rule {
                scope: vec!["storage".to_string()],
                settings: textmate::RuleSettings {
                    foreground: Some(Color { r: 0, g: 0, b: 0, a: 255 }),
                    font_style: textmate::FontStyle::Explicit {
                        bold: true,
                        italic: true,
                        underline: false,
                    },
                },
            },
            textmate::Rule {
                scope: vec!["entity".to_string()],
                settings: textmate::RuleSettings {
                    foreground: None,
                    font_style: textmate::FontStyle::Explicit {
                        bold: false,
                        italic: true,
                        underline: false,
                    },
                },
            },
        ],
        semantic_highlighting: semantic::Highlighting::Off,
        workbench_rules: IndexMap::new(),
    };
    assert_eq!(
        serialize_theme(&theme),
        r##"// Do not edit directly; this file is generated.
{
    "name": "My cool theme",
    "tokenColors": [
        {
            "scope": [
                "storage"
            ],
            "settings": {
                "foreground": "#000000FF",
                "fontStyle": "italic bold"
            }
        },
        {
            "scope": [
                "entity"
            ],
            "settings": {
                "fontStyle": "italic"
            }
        }
    ],
    "semanticHighlighting": false,
    "colors": {}
}
"##
    );
}

#[test]
fn semantic() {
    let mut rules = IndexMap::new();

    rules.insert(
        semantic::Selector {
            kind: semantic::TokenKind::Wildcard,
            modifiers: vec![semantic::Identifier::new("unsafe").unwrap()],
            language: None,
        },
        semantic::Style {
            foreground: Some(Color { r: 255, g: 0, b: 0, a: 255 }),
            font_style: semantic::FontStyle {
                bold: semantic::FontStyleSetting::True,
                italic: semantic::FontStyleSetting::Inherit,
                underline: semantic::FontStyleSetting::Inherit,
            },
        },
    );

    rules.insert(
        semantic::Selector {
            kind: semantic::TokenKind::Wildcard,
            modifiers: vec![semantic::Identifier::new("mutable").unwrap()],
            language: None,
        },
        semantic::Style {
            foreground: None,
            font_style: semantic::FontStyle {
                bold: semantic::FontStyleSetting::Inherit,
                italic: semantic::FontStyleSetting::Inherit,
                underline: semantic::FontStyleSetting::True,
            },
        },
    );

    rules.insert(
        semantic::Selector {
            kind: semantic::TokenKind::Specific(semantic::Identifier::new("variable").unwrap()),
            modifiers: Vec::new(),
            language: Some(semantic::Identifier::new("rust").unwrap()),
        },
        semantic::Style {
            foreground: Some(Color { r: 224, g: 224, b: 201, a: 255 }),
            font_style: semantic::FontStyle {
                bold: semantic::FontStyleSetting::Inherit,
                italic: semantic::FontStyleSetting::Inherit,
                underline: semantic::FontStyleSetting::Inherit,
            },
        },
    );

    rules.insert(
        semantic::Selector {
            kind: semantic::TokenKind::Specific(semantic::Identifier::new("function").unwrap()),
            modifiers: vec![
                semantic::Identifier::new("declaration").unwrap(),
                semantic::Identifier::new("public").unwrap(),
            ],
            language: None,
        },
        semantic::Style {
            foreground: Some(Color { r: 156, g: 219, b: 222, a: 255 }),
            font_style: semantic::FontStyle {
                bold: semantic::FontStyleSetting::Inherit,
                italic: semantic::FontStyleSetting::Inherit,
                underline: semantic::FontStyleSetting::Inherit,
            },
        },
    );

    let theme = Theme {
        name: "My cool theme".to_string(),
        textmate_rules: Vec::new(),
        semantic_highlighting: semantic::Highlighting::On { rules },
        workbench_rules: IndexMap::new(),
    };
    assert_eq!(
        serialize_theme(&theme),
        r##"// Do not edit directly; this file is generated.
{
    "name": "My cool theme",
    "tokenColors": [],
    "semanticHighlighting": true,
    "semanticTokenColors": {
        "*.unsafe": {
            "foreground": "#FF0000FF",
            "bold": true
        },
        "*.mutable": {
            "underline": true
        },
        "variable:rust": {
            "foreground": "#E0E0C9FF"
        },
        "function.declaration.public": {
            "foreground": "#9CDBDEFF"
        }
    },
    "colors": {}
}
"##
    );
}

#[test]
fn proto_workbench_rules() {
    let mut workbench_rules = IndexMap::new();
    workbench_rules.insert("editor.foreground".to_string(), Color { r: 255, g: 0, b: 0, a: 255 });

    let theme = Theme {
        name: "My cool theme".to_string(),
        textmate_rules: Vec::new(),
        semantic_highlighting: semantic::Highlighting::Off,
        workbench_rules,
    };
    assert_eq!(
        serialize_theme(&theme),
        r##"// Do not edit directly; this file is generated.
{
    "name": "My cool theme",
    "tokenColors": [],
    "semanticHighlighting": false,
    "colors": {
        "editor.foreground": "#FF0000FF"
    }
}
"##
    );
}

#[test]
fn serialize_twice_identical() {
    let mut workbench_rules = IndexMap::new();
    workbench_rules.insert("editor.foreground".to_string(), Color { r: 1, g: 2, b: 3, a: 4 });
    let theme = Theme {
        name: "My cool theme".to_string(),
        textmate_rules: Vec::new(),
        semantic_highlighting: semantic::Highlighting::On { rules: IndexMap::new() },
        workbench_rules,
    };
    assert_eq!(serialize_theme(&theme), serialize_theme(&theme));
}

#[test]
fn name_with_escapes() {
    let theme = Theme {
        name: "My \"cool\" the\\me".to_string(),
        textmate_rules: Vec::new(),
        semantic_highlighting: semantic::Highlighting::Off,
        workbench_rules: IndexMap::new(),
    };
    assert_eq!(
        serialize_theme(&theme),
        "// Do not edit directly; this file is generated.\n{\n    \"name\": \"My \\\"cool\\\" the\\\\me\",\n    \"tokenColors\": [],\n    \"semanticHighlighting\": false,\n    \"colors\": {}\n}\n"
    );
}
