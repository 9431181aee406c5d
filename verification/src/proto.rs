//! The theme value that the builder produces and the serializer renders.

use vstd::prelude::*;
use crate::jsonstr::{emit_hex_byte, spec_hex_byte};

pub mod semantic;
pub mod textmate;

verus! {

/// A finished theme: its name, the scope rules in insertion order, the
/// semantic-highlighting state, and the UI colors in insertion order.
#[derive(Debug, PartialEq, Eq)]
pub struct Theme {
    pub name: String,
    pub textmate_rules: Vec<textmate::Rule>,
    pub semantic_highlighting: semantic::Highlighting,
    pub workbench_rules: indexmap::IndexMap<String, Color>,
}

/// The mathematical shape of a theme.
#[verifier::ext_equal]
pub struct ThemeV {
    pub name: Seq<char>,
    pub textmate_rules: Seq<textmate::RuleV>,
    pub semantic_highlighting: semantic::HighlightingV,
    pub workbench_rules: Seq<(Seq<char>, Color)>,
}

impl View for Theme {
    type V = ThemeV;

    open spec fn view(&self) -> ThemeV {
        ThemeV {
            name: self.name@,
            textmate_rules: self.textmate_rules@.map_values(|r: textmate::Rule| r@),
            semantic_highlighting: self.semantic_highlighting@,
            workbench_rules: crate::ordered_map::workbench_entries(self.workbench_rules),
        }
    }
}

/// An RGBA color, one byte per channel.
#[derive(Debug, Clone, Copy, PartialEq, Eq, PartialOrd, Ord, Hash)]
pub struct Color {
    pub r: u8,
    pub g: u8,
    pub b: u8,
    pub a: u8,
}

/// The canonical text of a color: always the eight-hex-digit `#RRGGBBAA`
/// form, in uppercase. (A six-digit variant that elides an opaque alpha
/// channel exists as a documented alternative; see [`crate::style::Color`].)
pub open spec fn spec_color_text(c: Color) -> Seq<char> {
    seq!['#'] + spec_hex_byte(c.r) + spec_hex_byte(c.g) + spec_hex_byte(c.b) + spec_hex_byte(c.a)
}

/// Appends the canonical `#RRGGBBAA` text of a color.
pub fn emit_color(out: &mut String, c: Color)
    ensures
        final(out)@ == old(out)@ + spec_color_text(c),
{
    crate::jsonstr::push_char(out, '#');
    emit_hex_byte(out, c.r);
    emit_hex_byte(out, c.g);
    emit_hex_byte(out, c.b);
    emit_hex_byte(out, c.a);
    assert(out@ =~= old(out)@ + spec_color_text(c));
}

} // verus!
