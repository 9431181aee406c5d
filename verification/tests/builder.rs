//! The builder accumulates rules into the expected theme value.

use indexmap::IndexMap;
use mottle::dsl::{s, tm, Color, FontStyle, Style, ThemeBuilder};
use mottle::proto;

#[test]
fn empty() {
    let t = ThemeBuilder::default();

    assert_eq!(
        t.build("My cool theme"),
        proto::Theme {
            name: "My cool theme".to_string(),
            textmate_rules: Vec::new(),
            semantic_highlighting: proto::semantic::Highlighting::On { rules: IndexMap::new() },
            workbench_rules: IndexMap::new(),
        }
    );
}

#[test]
fn add_single_textmate_scope_with_rgba_u32() {
    let mut t = ThemeBuilder::default();

    t.a(vec![tm("keyword.operator")], Style::from(Color::from_u32(0xF92672)));

    assert_eq!(
        t.build("My cool theme"),
        proto::Theme {
            name: "My cool theme".to_string(),
            textmate_rules: vec![proto::textmate::Rule {
                scope: vec!["keyword.operator".to_string()],
                settings: proto::textmate::RuleSettings {
                    foreground: Some(proto::Color { r: 0xF9, g: 0x26, b: 0x72, a: 0xFF }),
                    font_style: proto::textmate::FontStyle::Inherit
                }
            }],
            semantic_highlighting: proto::semantic::Highlighting::On { rules: IndexMap::new() },
            workbench_rules: IndexMap::new(),
        }
    );
}

#[test]
fn add_multiple_textmate_scopes_with_rgba_u32() {
    let mut t = ThemeBuilder::default();

    t.a(
        vec![tm("keyword.operator"), tm("punctuation"), tm("keyword.other")],
        Style::from(Color::from_u32(0xF92672)),
    );

    assert_eq!(
        t.build("My cool theme"),
        proto::Theme {
            name: "My cool theme".to_string(),
            textmate_rules: vec![proto::textmate::Rule {
                scope: vec![
                    "keyword.operator".to_string(),
                    "punctuation".to_string(),
                    "keyword.other".to_string()
                ],
                settings: proto::textmate::RuleSettings {
                    foreground: Some(proto::Color { r: 0xF9, g: 0x26, b: 0x72, a: 0xFF }),
                    font_style: proto::textmate::FontStyle::Inherit
                }
            }],
            semantic_highlighting: proto::semantic::Highlighting::On { rules: IndexMap::new() },
            workbench_rules: IndexMap::new(),
        }
    );
}

#[test]
fn add_single_semantic_selector_with_rgba_u32() {
    let mut t = ThemeBuilder::default();

    t.a(vec![s("string")], Style::from(Color::from_u32(0xD49E9E)));

    let mut rules = IndexMap::new();

    rules.insert(
        proto::semantic::Selector {
            kind: proto::semantic::TokenKind::Specific(
                proto::semantic::Identifier::new("string").unwrap(),
            ),
            modifiers: Vec::new(),
            language: None,
        },
        proto::semantic::Style {
            foreground: Some(proto::Color { r: 0xD4, g: 0x9E, b: 0x9E, a: 0xFF }),
            font_style: proto::semantic::FontStyle {
                bold: proto::semantic::FontStyleSetting::Inherit,
                italic: proto::semantic::FontStyleSetting::Inherit,
                underline: proto::semantic::FontStyleSetting::Inherit,
            },
        },
    );

    assert_eq!(
        t.build("My cool theme"),
        proto::Theme {
            name: "My cool theme".to_string(),
            textmate_rules: Vec::new(),
            semantic_highlighting: proto::semantic::Highlighting::On { rules },
            workbench_rules: IndexMap::new(),
        }
    );
}

#[test]
fn add_multiple_semantic_selectors_with_rgba_u32() {
    let mut t = ThemeBuilder::default();

    t.a(
        vec![s("number"), s("boolean"), s("enumMember")],
        Style::from(Color::from_u32(0xB5CEA8)),
    );

    let mut rules = IndexMap::new();

    let style = proto::semantic::Style {
        foreground: Some(proto::Color { r: 0xB5, g: 0xCE, b: 0xA8, a: 0xFF }),
        font_style: proto::semantic::FontStyle {
            bold: proto::semantic::FontStyleSetting::Inherit,
            italic: proto::semantic::FontStyleSetting::Inherit,
            underline: proto::semantic::FontStyleSetting::Inherit,
        },
    };

    rules.insert(
        proto::semantic::Selector {
            kind: proto::semantic::TokenKind::Specific(
                proto::semantic::Identifier::new("number").unwrap(),
            ),
            modifiers: Vec::new(),
            language: None,
        },
        style,
    );

    rules.insert(
        proto::semantic::Selector {
            kind: proto::semantic::TokenKind::Specific(
                proto::semantic::Identifier::new("boolean").unwrap(),
            ),
            modifiers: Vec::new(),
            language: None,
        },
        style,
    );

    rules.insert(
        proto::semantic::Selector {
            kind: proto::semantic::TokenKind::Specific(
                proto::semantic::Identifier::new("enumMember").unwrap(),
            ),
            modifiers: Vec::new(),
            language: None,
        },
        style,
    );

    assert_eq!(
        t.build("My cool theme"),
        proto::Theme {
            name: "My cool theme".to_string(),
            textmate_rules: Vec::new(),
            semantic_highlighting: proto::semantic::Highlighting::On { rules },
            workbench_rules: IndexMap::new(),
        }
    );
}

#[test]
fn add_semantic_selector_with_modifiers() {
    let mut t = ThemeBuilder::default();

    t.a(
        vec![s("parameter"), s("variable.declaration.static"), s("function")],
        Style::from(Color::from_u32(0xD0AAFC)),
    );

    let mut rules = IndexMap::new();

    let style = proto::semantic::Style {
        foreground: Some(proto::Color { r: 0xD0, g: 0xAA, b: 0xFC, a: 0xFF }),
        font_style: proto::semantic::FontStyle {
            bold: proto::semantic::FontStyleSetting::Inherit,
            italic: proto::semantic::FontStyleSetting::Inherit,
            underline: proto::semantic::FontStyleSetting::Inherit,
        },
    };

    rules.insert(
        proto::semantic::Selector {
            kind: proto::semantic::TokenKind::Specific(
                proto::semantic::Identifier::new("parameter").unwrap(),
            ),
            modifiers: Vec::new(),
            language: None,
        },
        style,
    );

    rules.insert(
        proto::semantic::Selector {
            kind: proto::semantic::TokenKind::Specific(
                proto::semantic::Identifier::new("variable").unwrap(),
            ),
            modifiers: vec![
                proto::semantic::Identifier::new("declaration").unwrap(),
                proto::semantic::Identifier::new("static").unwrap(),
            ],
            language: None,
        },
        style,
    );

    rules.insert(
        proto::semantic::Selector {
            kind: proto::semantic::TokenKind::Specific(
                proto::semantic::Identifier::new("function").unwrap(),
            ),
            modifiers: Vec::new(),
            language: None,
        },
        style,
    );

    assert_eq!(
        t.build("My cool theme"),
        proto::Theme {
            name: "My cool theme".to_string(),
            textmate_rules: Vec::new(),
            semantic_highlighting: proto::semantic::Highlighting::On { rules },
            workbench_rules: IndexMap::new(),
        }
    );
}

#[test]
fn add_semantic_and_textmate_selectors() {
    let mut t = ThemeBuilder::default();

    t.a(vec![s("variable"), tm("variable")], Style::from(Color::from_u32(0xFFFFFF)));

    let mut rules = IndexMap::new();

    rules.insert(
        proto::semantic::Selector {
            kind: proto::semantic::TokenKind::Specific(
                proto::semantic::Identifier::new("variable").unwrap(),
            ),
            modifiers: Vec::new(),
            language: None,
        },
        proto::semantic::Style {
            foreground: Some(proto::Color { r: 0xFF, g: 0xFF, b: 0xFF, a: 0xFF }),
            font_style: proto::semantic::FontStyle {
                bold: proto::semantic::FontStyleSetting::Inherit,
                italic: proto::semantic::FontStyleSetting::Inherit,
                underline: proto::semantic::FontStyleSetting::Inherit,
            },
        },
    );

    assert_eq!(
        t.build("My cool theme"),
        proto::Theme {
            name: "My cool theme".to_string(),
            textmate_rules: vec![proto::textmate::Rule {
                scope: vec!["variable".to_string()],
                settings: proto::textmate::RuleSettings {
                    foreground: Some(proto::Color { r: 0xFF, g: 0xFF, b: 0xFF, a: 0xFF }),
                    font_style: proto::textmate::FontStyle::Inherit
                }
            }],
            semantic_highlighting: proto::semantic::Highlighting::On { rules },
            workbench_rules: IndexMap::new(),
        }
    );
}

#[test]
fn rgba_u32_and_font_style() {
    let mut t = ThemeBuilder::default();

    t.a(
        vec![tm("keyword"), s("keyword")],
        Style::from((Color::from_u32(0xEADFAF), FontStyle::Bold)),
    );

    let mut rules = IndexMap::new();

    rules.insert(
        proto::semantic::Selector {
            kind: proto::semantic::TokenKind::Specific(
                proto::semantic::Identifier::new("keyword").unwrap(),
            ),
            modifiers: Vec::new(),
            language: None,
        },
        proto::semantic::Style {
            foreground: Some(proto::Color { r: 0xEA, g: 0xDF, b: 0xAF, a: 0xFF }),
            font_style: proto::semantic::FontStyle {
                bold: proto::semantic::FontStyleSetting::True,
                italic: proto::semantic::FontStyleSetting::False,
                underline: proto::semantic::FontStyleSetting::False,
            },
        },
    );

    assert_eq!(
        t.build("My cool theme"),
        proto::Theme {
            name: "My cool theme".to_string(),
            textmate_rules: vec![proto::textmate::Rule {
                scope: vec!["keyword".to_string()],
                settings: proto::textmate::RuleSettings {
                    foreground: Some(proto::Color { r: 0xEA, g: 0xDF, b: 0xAF, a: 0xFF }),
                    font_style: proto::textmate::FontStyle::Explicit {
                        bold: true,
                        italic: false,
                        underline: false
                    }
                }
            }],
            semantic_highlighting: proto::semantic::Highlighting::On { rules },
            workbench_rules: IndexMap::new(),
        }
    );
}

#[test]
fn font_style() {
    let mut t = ThemeBuilder::default();

    t.a(
        vec![tm("markup.underline"), s("*.mutable")],
        Style::from(FontStyle::Underline),
    );

    let mut rules = IndexMap::new();

    rules.insert(
        proto::semantic::Selector {
            kind: proto::semantic::TokenKind::Wildcard,
            modifiers: vec![proto::semantic::Identifier::new("mutable").unwrap()],
            language: None,
        },
        proto::semantic::Style {
            foreground: None,
            font_style: proto::semantic::FontStyle {
                bold: proto::semantic::FontStyleSetting::False,
                italic: proto::semantic::FontStyleSetting::False,
                underline: proto::semantic::FontStyleSetting::True,
            },
        },
    );

    assert_eq!(
        t.build("My cool theme"),
        proto::Theme {
            name: "My cool theme".to_string(),
            textmate_rules: vec![proto::textmate::Rule {
                scope: vec!["markup.underline".to_string()],
                settings: proto::textmate::RuleSettings {
                    foreground: None,
                    font_style: proto::textmate::FontStyle::Explicit {
                        bold: false,
                        italic: false,
                        underline: true
                    }
                }
            }],
            semantic_highlighting: proto::semantic::Highlighting::On { rules },
            workbench_rules: IndexMap::new(),
        }
    );
}

#[test]
fn semantic_language() {
    let mut t = ThemeBuilder::default();

    t.a(vec![s("variable.constant:rust")], Style::from(Color::from_u32(0xFF0000)));

    let mut rules = IndexMap::new();

    rules.insert(
        proto::semantic::Selector {
            kind: proto::semantic::TokenKind::Specific(
                proto::semantic::Identifier::new("variable").unwrap(),
            ),
            modifiers: vec![proto::semantic::Identifier::new("constant").unwrap()],
            language: Some(proto::semantic::Identifier::new("rust").unwrap()),
        },
        proto::semantic::Style {
            foreground: Some(proto::Color { r: 0xFF, g: 0x00, b: 0x00, a: 0xFF }),
            font_style: proto::semantic::FontStyle {
                bold: proto::semantic::FontStyleSetting::Inherit,
                italic: proto::semantic::FontStyleSetting::Inherit,
                underline: proto::semantic::FontStyleSetting::Inherit,
            },
        },
    );

    assert_eq!(
        t.build("My cool theme"),
        proto::Theme {
            name: "My cool theme".to_string(),
            textmate_rules: Vec::new(),
            semantic_highlighting: proto::semantic::Highlighting::On { rules },
            workbench_rules: IndexMap::new(),
        }
    );
}

#[test]
fn dsl_workbench_rules() {
    let mut t = ThemeBuilder::default();

    t.w(vec!["editor.background".to_string()], Color::from_u32(0x111111));
    t.w(
        vec!["editor.foreground".to_string(), "foreground".to_string()],
        Color::from_u32(0xBCBCBC),
    );

    let mut workbench_rules = IndexMap::new();
    workbench_rules.insert(
        "editor.background".to_string(),
        mottle::proto::Color { r: 0x11, g: 0x11, b: 0x11, a: 0xFF },
    );
    workbench_rules.insert(
        "editor.foreground".to_string(),
        mottle::proto::Color { r: 0xBC, g: 0xBC, b: 0xBC, a: 0xFF },
    );
    workbench_rules.insert(
        "foreground".to_string(),
        mottle::proto::Color { r: 0xBC, g: 0xBC, b: 0xBC, a: 0xFF },
    );

    assert_eq!(
        t.build("My cool theme"),
        proto::Theme {
            name: "My cool theme".to_string(),
            textmate_rules: Vec::new(),
            semantic_highlighting: proto::semantic::Highlighting::On { rules: IndexMap::new() },
            workbench_rules,
        }
    );
}
