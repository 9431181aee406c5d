//! The compact style model of an alternative schema revision: one font-style
//! value per rule (with a combined bold-italic convenience), and colors as a
//! packed 24-bit value with an optional alpha, rendered in the alpha-eliding
//! six-digit form unless an alpha is given.

use vstd::prelude::*;
use crate::jsonstr::{
    emit_hex_byte, emit_rep, emit_wrapped, push_char, spec_hex_byte, spec_rep, spec_wrapped,
};

verus! {

/// A partial style: an optional color and an optional font-style value.
#[derive(Debug, Clone, Copy, PartialEq, Eq)]
pub struct Style {
    pub color: Option<Color>,
    pub font_style: Option<FontStyle>,
}

/// A font-style value. `BoldItalic` is the combined convenience this revision
/// offers; `Inherit` explicitly defers and serializes to nothing at all.
#[derive(Debug, Clone, Copy, PartialEq, Eq)]
pub enum FontStyle {
    Bold,
    Italic,
    BoldItalic,
    Underline,
    Inherit,
}

/// A color as a packed `0xRRGGBB` value and an optional alpha byte.
#[derive(Debug, Clone, Copy, PartialEq, Eq)]
pub struct Color {
    pub hex: u32,
    pub alpha: Option<u8>,
}

/// A well-formed color: the packed value holds three bytes and no more.
pub open spec fn color_wf(c: Color) -> bool {
    c.hex <= 0xFFFFFF
}

/// The text of a color in this revision: six uppercase hex digits, and two
/// more only when an alpha is given — the alpha-eliding documented
/// alternative to the canonical eight-digit form.
pub open spec fn spec_alt_color_text(c: Color) -> Seq<char> {
    seq!['#'] + spec_hex_byte((c.hex >> 16) as u8) + spec_hex_byte((c.hex >> 8) as u8)
        + spec_hex_byte(c.hex as u8) + (match c.alpha {
        Some(a) => spec_hex_byte(a),
        None => Seq::<char>::empty(),
    })
}

/// Appends the `#RRGGBB` or `#RRGGBBAA` text of a color.
pub fn emit_alt_color(out: &mut String, c: Color)
    requires
        color_wf(c),
    ensures
        final(out)@ == old(out)@ + spec_alt_color_text(c),
{
    push_char(out, '#');
    emit_hex_byte(out, #[verifier::truncate] ((c.hex >> 16) as u8));
    emit_hex_byte(out, #[verifier::truncate] ((c.hex >> 8) as u8));
    emit_hex_byte(out, #[verifier::truncate] (c.hex as u8));
    match c.alpha {
        Some(a) => {
            emit_hex_byte(out, a);
        },
        None => {},
    }
    assert(out@ =~= old(out)@ + spec_alt_color_text(c));
}

/// The words a font-style value collapses to in a scope rule; the combined
/// value keeps the fixed order italic, then bold.
pub open spec fn spec_font_style_text(f: FontStyle) -> Seq<char> {
    match f {
        FontStyle::Bold => "bold"@,
        FontStyle::Italic => "italic"@,
        FontStyle::BoldItalic => "italic bold"@,
        FontStyle::Underline => "underline"@,
        FontStyle::Inherit => Seq::<char>::empty(),
    }
}

fn emit_font_style_text(out: &mut String, f: FontStyle)
    ensures
        final(out)@ == old(out)@ + spec_font_style_text(f),
{
    match f {
        FontStyle::Bold => out.append("bold"),
        FontStyle::Italic => out.append("italic"),
        FontStyle::BoldItalic => out.append("italic bold"),
        FontStyle::Underline => out.append("underline"),
        FontStyle::Inherit => {},
    }
    assert(out@ =~= old(out)@ + spec_font_style_text(f));
}

/// A well-formed style: its color, when present, is well formed.
pub open spec fn style_wf(st: Style) -> bool {
    match st.color {
        Some(c) => color_wf(c),
        None => true,
    }
}

/// The fields of a style's settings object in this revision: the foreground
/// when present; then, unless the font style is the explicit `Inherit`, the
/// font style — as one collapsed `fontStyle` text in a scope rule, and as
/// boolean fields otherwise, with an absent font style rendered as an empty
/// `fontStyle` text either way.
pub open spec fn spec_alt_style_items(st: Style, in_textmate_rule: bool, ind: Seq<char>) -> Seq<
    Seq<char>,
> {
    (match st.color {
        Some(c) => seq![ind + "\"foreground\": \""@ + spec_alt_color_text(c) + seq!['"']],
        None => Seq::<Seq<char>>::empty(),
    }) + (if st.font_style == Some(FontStyle::Inherit) {
        Seq::<Seq<char>>::empty()
    } else if in_textmate_rule {
        seq![
            ind + "\"fontStyle\": \""@ + (match st.font_style {
                Some(f) => spec_font_style_text(f),
                None => Seq::<char>::empty(),
            }) + seq!['"'],
        ]
    } else {
        match st.font_style {
            Some(FontStyle::Bold) => seq![ind + "\"bold\": true"@],
            Some(FontStyle::Italic) => seq![ind + "\"italic\": true"@],
            Some(FontStyle::BoldItalic) => seq![
                ind + "\"bold\": true"@,
                ind + "\"italic\": true"@,
            ],
            Some(FontStyle::Underline) => seq![ind + "\"underline\": true"@],
            Some(FontStyle::Inherit) => Seq::<Seq<char>>::empty(),
            None => seq![ind + "\"fontStyle\": \"\""@],
        }
    })
}

fn alt_style_items(st: &Style, in_textmate_rule: bool, ind: &str) -> (items: Vec<String>)
    requires
        style_wf(*st),
    ensures
        items@.map_values(|s: String| s@) == spec_alt_style_items(*st, in_textmate_rule, ind@),
{
    let mut items: Vec<String> = Vec::new();
    match st.color {
        Some(c) => {
            let mut it = String::new();
            it.append(ind);
            it.append("\"foreground\": \"");
            emit_alt_color(&mut it, c);
            push_char(&mut it, '"');
            proof {
                assert(it@ =~= ind@ + "\"foreground\": \""@ + spec_alt_color_text(c) + seq!['"']);
            }
            items.push(it);
        },
        None => {},
    }
    let ghost fg_items = match st.color {
        Some(c) => seq![ind@ + "\"foreground\": \""@ + spec_alt_color_text(c) + seq!['"']],
        None => Seq::<Seq<char>>::empty(),
    };
    proof {
        assert(items@.map_values(|s: String| s@) =~= fg_items);
    }
    let is_inherit = match st.font_style {
        Some(FontStyle::Inherit) => true,
        _ => false,
    };
    if !is_inherit {
        if in_textmate_rule {
            let mut it = String::new();
            it.append(ind);
            it.append("\"fontStyle\": \"");
            match st.font_style {
                Some(f) => emit_font_style_text(&mut it, f),
                None => {},
            }
            push_char(&mut it, '"');
            proof {
                assert(it@ =~= ind@ + "\"fontStyle\": \""@ + (match st.font_style {
                    Some(f) => spec_font_style_text(f),
                    None => Seq::<char>::empty(),
                }) + seq!['"']);
            }
            items.push(it);
        } else {
            match st.font_style {
                Some(FontStyle::Bold) => {
                    items.push(plain_item(ind, "\"bold\": true"));
                },
                Some(FontStyle::Italic) => {
                    items.push(plain_item(ind, "\"italic\": true"));
                },
                Some(FontStyle::BoldItalic) => {
                    items.push(plain_item(ind, "\"bold\": true"));
                    items.push(plain_item(ind, "\"italic\": true"));
                },
                Some(FontStyle::Underline) => {
                    items.push(plain_item(ind, "\"underline\": true"));
                },
                Some(FontStyle::Inherit) => {},
                None => {
                    items.push(plain_item(ind, "\"fontStyle\": \"\""));
                },
            }
        }
    }
    proof {
        assert(items@.map_values(|s: String| s@) =~= spec_alt_style_items(
            *st,
            in_textmate_rule,
            ind@,
        ));
    }
    items
}

fn plain_item(ind: &str, text: &str) -> (it: String)
    ensures
        it@ == ind@ + text@,
{
    let mut it = String::new();
    it.append(ind);
    it.append(text);
    proof {
        assert(it@ =~= ind@ + text@);
    }
    it
}

/// A style's settings object at nesting depth `depth` under the given
/// indentation unit.
pub open spec fn spec_alt_style_object(
    st: Style,
    in_textmate_rule: bool,
    ind: Seq<char>,
    depth: nat,
) -> Seq<char> {
    spec_wrapped(
        spec_alt_style_items(st, in_textmate_rule, spec_rep(ind, depth + 1)),
        '{',
        '}',
        spec_rep(ind, depth),
    )
}

impl Style {
    /// Renders this style's settings object as it appears in the document,
    /// at nesting depth `depth` under the indentation unit `ind`.
    pub fn as_json_text(&self, in_textmate_rule: bool, ind: &str, depth: usize) -> (s: String)
        requires
            style_wf(*self),
            depth < usize::MAX,
        ensures
            s@ == spec_alt_style_object(*self, in_textmate_rule, ind@, depth as nat),
    {
        let mut field_ind = String::new();
        emit_rep(&mut field_ind, ind, depth + 1);
        let mut close_ind = String::new();
        emit_rep(&mut close_ind, ind, depth);
        let items = alt_style_items(self, in_textmate_rule, field_ind.as_str());
        let mut s = String::new();
        emit_wrapped(&mut s, &items, '{', '}', close_ind.as_str());
        proof {
            assert(s@ =~= spec_alt_style_object(*self, in_textmate_rule, ind@, depth as nat));
        }
        s
    }
}

} // verus!
