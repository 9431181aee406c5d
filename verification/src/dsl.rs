//! The rule-description layer: selectors of either flavor, partial styles,
//! and the builder that accumulates them into a theme.

use vstd::prelude::*;

pub mod semantic_highlighting_typestate;

use crate::ordered_map::{
    insert_each, semantic_entries, semantic_map_insert, semantic_map_new, workbench_entries,
    workbench_map_insert, workbench_map_new,
};
use crate::jsonstr::spec_join;
use crate::proto;
use crate::proto::semantic::{Highlighting, HighlightingV};
use crate::proto::textmate::RuleV;
use crate::proto::ThemeV;

verus! {

/// A selector of either flavor: an opaque TextMate scope, or a structured
/// semantic-token selector.
#[derive(Debug, Clone, PartialEq, Eq, PartialOrd, Ord, Hash)]
pub enum Selector {
    TextMate(String),
    Semantic(proto::semantic::Selector),
}

/// The mathematical shape of a selector of either flavor.
pub enum SelectorV {
    TextMate(Seq<char>),
    Semantic(proto::semantic::SelectorV),
}

impl View for Selector {
    type V = SelectorV;

    open spec fn view(&self) -> SelectorV {
        match self {
            Selector::TextMate(scope) => SelectorV::TextMate(scope@),
            Selector::Semantic(sel) => SelectorV::Semantic(sel@),
        }
    }
}

/// A partial style: one rule-addition call's contribution. A bare color sets
/// only the foreground; a bare font-style effect turns its one axis on and
/// explicitly negates the other two; a combined value unions both effects.
#[derive(Debug, Clone, Copy, PartialEq, Eq, PartialOrd, Ord, Hash)]
pub struct Style {
    pub foreground: Option<proto::Color>,
    pub font_style: Option<FontStyle>,
}

/// A single font-style effect. One call can select at most one axis; under
/// full-overwrite semantics a semantic selector touched twice keeps only the
/// final call's axis. That is a real capability limit of the description
/// layer, not something the builder smooths over.
#[derive(Debug, Clone, Copy, PartialEq, Eq, PartialOrd, Ord, Hash)]
pub enum FontStyle {
    Bold,
    Italic,
    Underline,
}

/// A color destined for a style or the UI-color map.
#[derive(Debug, Clone, Copy, PartialEq, Eq, PartialOrd, Ord, Hash)]
pub struct Color(pub proto::Color);

/// Splits a packed `0xRRGGBB` value into its three channel bytes.
pub fn rgb_from_u32(rgb: u32) -> (t: (u8, u8, u8))
    requires
        rgb <= 0xFFFFFF,
    ensures
        rgb == t.0 as u32 * 0x10000 + t.1 as u32 * 0x100 + t.2 as u32,
{
    proof {
        assert((rgb <= 0xFFFFFF) ==> ((rgb >> 16) < 256 && ((rgb >> 8) & 0xFF) < 256 && (rgb
            & 0xFF) < 256 && rgb == (rgb >> 16) * 0x10000 + ((rgb >> 8) & 0xFF) * 0x100 + (rgb
            & 0xFF))) by (bit_vector);
    }
    let r = (rgb >> 16) as u8;
    let g = ((rgb >> 8) & 0xFF) as u8;
    let b = (rgb & 0xFF) as u8;
    (r, g, b)
}

impl Color {
    /// A fully opaque color from a packed `0xRRGGBB` value.
    pub fn from_u32(rgb: u32) -> (c: Color)
        requires
            rgb <= 0xFFFFFF,
        ensures
            c.0.a == 0xFF,
            rgb == c.0.r as u32 * 0x10000 + c.0.g as u32 * 0x100 + c.0.b as u32,
    {
        let (r, g, b) = rgb_from_u32(rgb);
        Color(proto::Color { r, g, b, a: 0xFF })
    }

    /// A color from a packed `0xRRGGBB` value and an explicit alpha.
    pub fn from_u32_with_alpha(rgb: u32, a: u8) -> (c: Color)
        requires
            rgb <= 0xFFFFFF,
        ensures
            c.0.a == a,
            rgb == c.0.r as u32 * 0x10000 + c.0.g as u32 * 0x100 + c.0.b as u32,
    {
        let (r, g, b) = rgb_from_u32(rgb);
        Color(proto::Color { r, g, b, a })
    }

    /// A fully opaque color from three channel bytes.
    pub fn from_rgb(r: u8, g: u8, b: u8) -> (c: Color)
        ensures
            c.0 == (proto::Color { r, g, b, a: 0xFF }),
    {
        Color(proto::Color { r, g, b, a: 0xFF })
    }

    /// A color from three channel bytes and an explicit alpha.
    pub fn from_rgb_with_alpha(r: u8, g: u8, b: u8, a: u8) -> (c: Color)
        ensures
            c.0 == (proto::Color { r, g, b, a }),
    {
        Color(proto::Color { r, g, b, a })
    }
}

impl From<Color> for Style {
    /// A bare color: it contributes only a foreground; every axis stays
    /// silent.
    fn from(c: Color) -> Self {
        Style { foreground: Some(c.0), font_style: None }
    }
}

impl vstd::std_specs::convert::FromSpecImpl<Color> for Style {
    open spec fn obeys_from_spec() -> bool {
        true
    }

    open spec fn from_spec(c: Color) -> Style {
        Style { foreground: Some(c.0), font_style: None }
    }
}

impl From<FontStyle> for Style {
    /// A bare font-style effect: no foreground, one chosen axis.
    fn from(font_style: FontStyle) -> Self {
        Style { foreground: None, font_style: Some(font_style) }
    }
}

impl vstd::std_specs::convert::FromSpecImpl<FontStyle> for Style {
    open spec fn obeys_from_spec() -> bool {
        true
    }

    open spec fn from_spec(font_style: FontStyle) -> Style {
        Style { foreground: None, font_style: Some(font_style) }
    }
}

impl From<(Color, FontStyle)> for Style {
    /// A combined value: unions the color's and the effect's contributions.
    fn from(cf: (Color, FontStyle)) -> Self {
        Style { foreground: Some(cf.0.0), font_style: Some(cf.1) }
    }
}

impl vstd::std_specs::convert::FromSpecImpl<(Color, FontStyle)> for Style {
    open spec fn obeys_from_spec() -> bool {
        true
    }

    open spec fn from_spec(cf: (Color, FontStyle)) -> Style {
        Style { foreground: Some(cf.0.0), font_style: Some(cf.1) }
    }
}

/// A TextMate selector for the given scope.
pub fn tm(scope: &str) -> (r: Selector)
    ensures
        r@ == SelectorV::TextMate(scope@),
{
    Selector::TextMate(scope.to_owned())
}

/// Misuse of the selector algebra: modifiers and languages attach only to
/// semantic selectors. This is a fatal defect in the calling definition, not
/// a recoverable condition.
#[derive(Debug, Clone, Copy, PartialEq, Eq)]
pub enum StructuralMisuseError {
    /// A modifier was attached to a TextMate selector.
    ModifierOnTextMate,
    /// A language was attached to a TextMate selector.
    LanguageOnTextMate,
}

impl Selector {
    /// Extends a semantic selector with one more modifier, appended after the
    /// existing ones; duplicates are kept. On a TextMate selector this fails
    /// at once instead of being silently ignored.
    pub fn with_modifier(self, modifier: proto::semantic::Identifier) -> (r: Result<
        Selector,
        StructuralMisuseError,
    >)
        ensures
            (self@ matches SelectorV::Semantic(v) ==> (r matches Ok(sel) && sel@
                == SelectorV::Semantic(
                proto::semantic::SelectorV {
                    kind: v.kind,
                    modifiers: v.modifiers.push(modifier@),
                    language: v.language,
                },
            ))),
            (self@ matches SelectorV::TextMate(_) ==> r == Err::<
                Selector,
                StructuralMisuseError,
            >(StructuralMisuseError::ModifierOnTextMate)),
    {
        match self {
            Selector::TextMate(_) => Err(StructuralMisuseError::ModifierOnTextMate),
            Selector::Semantic(sel) => {
                let mut sel = sel;
                sel.modifiers.push(modifier);
                proof {
                    assert(sel@.modifiers =~= self@->Semantic_0.modifiers.push(modifier@));
                }
                Ok(Selector::Semantic(sel))
            },
        }
    }

    /// Sets a semantic selector's language; applied twice, the last write
    /// wins. On a TextMate selector this fails at once instead of being
    /// silently ignored.
    pub fn with_language(self, language: proto::semantic::Identifier) -> (r: Result<
        Selector,
        StructuralMisuseError,
    >)
        ensures
            (self@ matches SelectorV::Semantic(v) ==> (r matches Ok(sel) && sel@
                == SelectorV::Semantic(
                proto::semantic::SelectorV {
                    kind: v.kind,
                    modifiers: v.modifiers,
                    language: Some(language@),
                },
            ))),
            (self@ matches SelectorV::TextMate(_) ==> r == Err::<
                Selector,
                StructuralMisuseError,
            >(StructuralMisuseError::LanguageOnTextMate)),
    {
        match self {
            Selector::TextMate(_) => Err(StructuralMisuseError::LanguageOnTextMate),
            Selector::Semantic(sel) => {
                let mut sel = sel;
                sel.language = Some(language);
                Ok(Selector::Semantic(sel))
            },
        }
    }
}

/// Combines two selector sets into one target set: the first set's selectors
/// followed by the second's, duplicates retained.
pub fn union(first: Vec<Selector>, second: Vec<Selector>) -> (r: Vec<Selector>)
    ensures
        r@ == first@ + second@,
{
    let mut first = first;
    let mut second = second;
    first.append(&mut second);
    first
}

/// Combining selector sets is associative: grouping does not matter, only
/// the order in which the sets are given, which is preserved.
pub proof fn lemma_union_associative(a: Seq<Selector>, b: Seq<Selector>, c: Seq<Selector>)
    ensures
        (a + b) + c == a + (b + c),
{
    assert((a + b) + c =~= a + (b + c));
}

/// The index of the last occurrence of `c` in `s`, or -1 when there is none.
pub open spec fn find_last(s: Seq<char>, c: char) -> int
    decreases s.len(),
{
    if s.len() == 0 {
        -1
    } else if s.last() == c {
        s.len() - 1
    } else {
        find_last(s.drop_last(), c)
    }
}

proof fn lemma_find_last_at(s: Seq<char>, c: char, j: int)
    requires
        0 <= j < s.len(),
        s[j] == c,
        forall|m: int| j < m < s.len() ==> s[m] != c,
    ensures
        find_last(s, c) == j,
    decreases s.len(),
{
    if j < s.len() - 1 {
        assert(s.last() != c);
        assert forall|m: int| j < m < s.drop_last().len() implies s.drop_last()[m] != c by {
            assert(s.drop_last()[m] == s[m]);
        }
        lemma_find_last_at(s.drop_last(), c, j);
    }
}

proof fn lemma_find_last_none(s: Seq<char>, c: char)
    requires
        forall|m: int| 0 <= m < s.len() ==> s[m] != c,
    ensures
        find_last(s, c) == -1,
    decreases s.len(),
{
    if s.len() > 0 {
        assert forall|m: int| 0 <= m < s.drop_last().len() implies s.drop_last()[m] != c by {
            assert(s.drop_last()[m] == s[m]);
        }
        lemma_find_last_none(s.drop_last(), c);
    }
}

/// `s` split on `c`: the parts between occurrences, in order. A text without
/// the separator is one part; nothing is ever dropped, so empty parts stay.
pub open spec fn split_on(s: Seq<char>, c: char) -> Seq<Seq<char>>
    decreases s.len(),
{
    let j = find_last(s, c);
    if 0 <= j && j < s.len() {
        split_on(s.take(j), c).push(s.skip(j + 1))
    } else {
        seq![s]
    }
}

proof fn lemma_split_on_nonempty(s: Seq<char>, c: char)
    ensures
        split_on(s, c).len() >= 1,
{
}

proof fn lemma_find_last_hits(s: Seq<char>, c: char)
    ensures
        -1 <= find_last(s, c) < s.len(),
        find_last(s, c) >= 0 ==> s[find_last(s, c)] == c,
    decreases s.len(),
{
    if s.len() > 0 && s.last() != c {
        lemma_find_last_hits(s.drop_last(), c);
        let j = find_last(s.drop_last(), c);
        if j >= 0 {
            assert(s.drop_last()[j] == s[j]);
        }
    }
}

proof fn lemma_split_join(s: Seq<char>, c: char)
    ensures
        spec_join(split_on(s, c), seq![c]) == s,
    decreases s.len(),
{
    lemma_find_last_hits(s, c);
    let j = find_last(s, c);
    if 0 <= j && j < s.len() {
        lemma_split_join(s.take(j), c);
        lemma_split_on_nonempty(s.take(j), c);
        let parts = split_on(s.take(j), c);
        let all = parts.push(s.skip(j + 1));
        assert(all.drop_last() =~= parts);
        assert(all.last() == s.skip(j + 1));
        assert(spec_join(all, seq![c]) == spec_join(parts, seq![c]) + seq![c] + s.skip(j + 1));
        assert(s.take(j) + seq![c] + s.skip(j + 1) =~= s);
    } else {
        assert(spec_join(seq![s], seq![c]) == s);
    }
}

proof fn lemma_join_as_mods(comps: Seq<Seq<char>>)
    requires
        comps.len() >= 1,
    ensures
        comps[0] + proto::semantic::spec_mods_text(comps.subrange(1, comps.len() as int))
            == spec_join(comps, seq!['.']),
    decreases comps.len(),
{
    if comps.len() == 1 {
        let m = comps.subrange(1, 1);
        assert(proto::semantic::spec_mods_text(m) == Seq::<char>::empty());
        assert(comps[0] + Seq::<char>::empty() =~= comps[0]);
    } else {
        let d = comps.drop_last();
        lemma_join_as_mods(d);
        let m = comps.subrange(1, comps.len() as int);
        assert(m.drop_last() =~= d.subrange(1, d.len() as int));
        assert(m.last() == comps.last());
        assert(proto::semantic::spec_mods_text(m) == proto::semantic::spec_mods_text(m.drop_last())
            + seq!['.'] + m.last());
        assert(d[0] == comps[0]);
        assert(spec_join(comps, seq!['.']) == spec_join(d, seq!['.']) + seq!['.'] + comps.last());
        assert(comps[0] + proto::semantic::spec_mods_text(m) =~= spec_join(comps, seq!['.']));
    }
}

/// Parsing round-trips through the canonical encoding: a well-formed
/// selector expression is exactly the encoding of the selector it parses to.
#[verifier::rlimit(50)]
pub proof fn lemma_parse_encode_round_trip(s: Seq<char>)
    requires
        spec_parse(s) is Ok,
    ensures
        proto::semantic::spec_encode_selector(spec_parse(s)->Ok_0) == s,
{
    lemma_find_last_hits(s, ':');
    let j = find_last(s, ':');
    let rest = if j >= 0 {
        s.take(j)
    } else {
        s
    };
    let comps = split_on(rest, '.');
    lemma_split_on_nonempty(rest, '.');
    lemma_split_join(rest, '.');
    lemma_join_as_mods(comps);
    let v = spec_parse(s)->Ok_0;
    assert(proto::semantic::spec_kind_text(v.kind) == comps[0]);
    if j >= 0 {
        assert(s[j] == ':');
        assert(proto::semantic::spec_encode_selector(v) =~= rest + seq![':'] + s.skip(j + 1));
        assert(rest + seq![':'] + s.skip(j + 1) =~= s);
    } else {
        assert(proto::semantic::spec_encode_selector(v) =~= rest);
    }
}

/// The smallest index at or after `i` whose component is not a valid
/// identifier, or the length when all of them are.
pub open spec fn first_invalid_from(comps: Seq<Seq<char>>, i: int) -> int
    decreases comps.len() - i,
{
    if i < 0 || i >= comps.len() {
        comps.len() as int
    } else if !proto::semantic::is_valid_ident(comps[i]) {
        i
    } else {
        first_invalid_from(comps, i + 1)
    }
}

proof fn lemma_first_invalid_none(comps: Seq<Seq<char>>, start: int)
    requires
        0 <= start,
        forall|m: int| start <= m < comps.len() ==> proto::semantic::is_valid_ident(
            #[trigger] comps[m],
        ),
    ensures
        first_invalid_from(comps, start) == comps.len(),
    decreases comps.len() - start,
{
    if start < comps.len() {
        lemma_first_invalid_none(comps, start + 1);
    }
}

proof fn lemma_first_invalid_at(comps: Seq<Seq<char>>, start: int, i: int)
    requires
        0 <= start <= i < comps.len(),
        forall|m: int| start <= m < i ==> proto::semantic::is_valid_ident(#[trigger] comps[m]),
        !proto::semantic::is_valid_ident(comps[i]),
    ensures
        first_invalid_from(comps, start) == i,
    decreases i - start,
{
    if start < i {
        lemma_first_invalid_at(comps, start + 1, i);
    }
}

/// The structural parse of a semantic-selector expression
/// `<kind>(.<modifier>)*(:<language>)?`. Failures come with the exact error
/// text, checked in this order: a trailing colon, then the language, the
/// kind, and the modifiers left to right.
pub open spec fn spec_parse(s: Seq<char>) -> Result<proto::semantic::SelectorV, Seq<char>> {
    let j = find_last(s, ':');
    if j >= 0 && j == s.len() - 1 {
        Err("expected language name after ‘:’"@)
    } else if j >= 0 && !proto::semantic::is_valid_ident(s.skip(j + 1)) {
        Err(proto::semantic::spec_ident_error(s.skip(j + 1)))
    } else {
        let rest = if j >= 0 {
            s.take(j)
        } else {
            s
        };
        let language = if j >= 0 {
            Some(s.skip(j + 1))
        } else {
            None::<Seq<char>>
        };
        let comps = split_on(rest, '.');
        let kind_text = comps[0];
        if kind_text != seq!['*'] && !proto::semantic::is_valid_ident(kind_text) {
            Err(proto::semantic::spec_ident_error(kind_text))
        } else if first_invalid_from(comps, 1) < comps.len() {
            Err(proto::semantic::spec_ident_error(comps[first_invalid_from(comps, 1)]))
        } else {
            Ok(
                proto::semantic::SelectorV {
                    kind: if kind_text == seq!['*'] {
                        proto::semantic::TokenKindV::Wildcard
                    } else {
                        proto::semantic::TokenKindV::Specific(kind_text)
                    },
                    modifiers: comps.subrange(1, comps.len() as int),
                    language,
                },
            )
        }
    }
}

/// Splits a text on `.`, keeping empty parts.
fn split_dots(s: &str) -> (parts: Vec<String>)
    ensures
        parts@.map_values(|p: String| p@) == split_on(s@, '.'),
    decreases s@.len(),
{
    let len = s.unicode_len();
    let mut found = false;
    let mut d: usize = 0;
    let mut idx: usize = 0;
    while idx < len
        invariant
            len == s@.len(),
            idx <= len,
            found ==> d < idx && s@[d as int] == '.' && (forall|m: int|
                d < m < idx ==> s@[m] != '.'),
            !found ==> forall|m: int| 0 <= m < idx ==> s@[m] != '.',
        decreases len - idx,
    {
        if s.get_char(idx) == '.' {
            found = true;
            d = idx;
        }
        idx = idx + 1;
    }
    if found {
        proof {
            lemma_find_last_at(s@, '.', d as int);
        }
        let prefix = s.substring_char(0, d);
        proof {
            assert(prefix@ =~= s@.take(d as int));
        }
        let mut parts = split_dots(prefix);
        let tail = s.substring_char(d + 1, len);
        parts.push(tail.to_owned());
        proof {
            assert(tail@ =~= s@.skip(d + 1));
            assert(parts@.map_values(|p: String| p@) =~= split_on(s@, '.'));
        }
        parts
    } else {
        proof {
            lemma_find_last_none(s@, '.');
        }
        let mut parts: Vec<String> = Vec::new();
        parts.push(s.to_owned());
        proof {
            assert(parts@.map_values(|p: String| p@) =~= split_on(s@, '.'));
        }
        parts
    }
}

/// Parses a semantic-selector expression, returning exactly what
/// [`spec_parse`] says: the selector on well-formed input, and the error
/// text of the first offending piece otherwise.
#[verifier::loop_isolation(false)]
pub fn parse_selector(source: &str) -> (r: Result<proto::semantic::Selector, String>)
    ensures
        (spec_parse(source@) matches Ok(v) ==> (r matches Ok(sel) && sel@ == v)),
        (spec_parse(source@) matches Err(m) ==> (r matches Err(e) && e@ == m)),
{
    let len = source.unicode_len();
    let mut found = false;
    let mut j: usize = 0;
    let mut idx: usize = 0;
    while idx < len
        invariant
            len == source@.len(),
            idx <= len,
            found ==> j < idx && source@[j as int] == ':' && (forall|m: int|
                j < m < idx ==> source@[m] != ':'),
            !found ==> forall|m: int| 0 <= m < idx ==> source@[m] != ':',
        decreases len - idx,
    {
        if source.get_char(idx) == ':' {
            found = true;
            j = idx;
        }
        idx = idx + 1;
    }
    proof {
        if found {
            lemma_find_last_at(source@, ':', j as int);
        } else {
            lemma_find_last_none(source@, ':');
        }
    }
    if found && j + 1 == len {
        let mut e = String::new();
        e.append("expected language name after ‘:’");
        return Err(e);
    }
    let language: Option<proto::semantic::Identifier> = if found {
        let lang_str = source.substring_char(j + 1, len);
        proof {
            assert(lang_str@ =~= source@.skip(j + 1));
        }
        match proto::semantic::Identifier::new(lang_str) {
            Ok(id) => Some(id),
            Err(e) => {
                return Err(e);
            },
        }
    } else {
        None
    };
    let rest = if found {
        source.substring_char(0, j)
    } else {
        source.substring_char(0, len)
    };
    let ghost rest_v = if find_last(source@, ':') >= 0 {
        source@.take(find_last(source@, ':'))
    } else {
        source@
    };
    proof {
        assert(rest@ =~= rest_v);
    }
    let comps = split_dots(rest);
    let ghost cv = split_on(rest_v, '.');
    proof {
        lemma_split_on_nonempty(rest_v, '.');
        assert(comps@[0]@ == cv[0]);
    }
    let wild = String::from_str("*");
    proof {
        reveal_strlit("*");
        assert(wild@ =~= seq!['*']);
    }
    let kind: proto::semantic::TokenKind = if comps[0] == wild {
        proto::semantic::TokenKind::Wildcard
    } else {
        match proto::semantic::Identifier::new(comps[0].as_str()) {
            Ok(id) => proto::semantic::TokenKind::Specific(id),
            Err(e) => {
                return Err(e);
            },
        }
    };
    let mut modifiers: Vec<proto::semantic::Identifier> = Vec::new();
    let mut i: usize = 1;
    while i < comps.len()
        invariant
            1 <= i <= comps@.len(),
            comps@.map_values(|p: String| p@) == cv,
            cv == split_on(rest_v, '.'),
            forall|m: int| 1 <= m < i ==> proto::semantic::is_valid_ident(#[trigger] cv[m]),
            modifiers@.len() == i - 1,
            forall|m: int| 0 <= m < i - 1 ==> #[trigger] modifiers@[m]@ == cv[m + 1],
        decreases comps@.len() - i,
    {
        match proto::semantic::Identifier::new(comps[i].as_str()) {
            Ok(id) => {
                modifiers.push(id);
            },
            Err(e) => {
                proof {
                    assert(comps@[i as int]@ == cv[i as int]);
                    lemma_first_invalid_at(cv, 1, i as int);
                }
                return Err(e);
            },
        }
        i = i + 1;
    }
    let sel = proto::semantic::Selector { kind, modifiers, language };
    proof {
        lemma_first_invalid_none(cv, 1);
        assert(sel@.modifiers =~= cv.subrange(1, cv.len() as int));
        assert(sel@ =~= spec_parse(source@)->Ok_0);
    }
    Ok(sel)
}

/// A semantic selector parsed from its canonical textual form; the
/// expression must be well formed (see [`spec_parse`]). [`parse_selector`]
/// is the total version that reports errors instead.
pub fn s(source: &str) -> (r: Selector)
    requires
        spec_parse(source@) is Ok,
    ensures
        (r matches Selector::Semantic(sel) && sel@ == spec_parse(source@)->Ok_0),
{
    match parse_selector(source) {
        Ok(sel) => Selector::Semantic(sel),
        Err(_) => vstd::pervasive::unreached(),
    }
}

/// The TextMate scopes among the selectors, in order.
pub open spec fn textmate_scopes(sels: Seq<SelectorV>) -> Seq<Seq<char>>
    decreases sels.len(),
{
    if sels.len() == 0 {
        Seq::empty()
    } else {
        textmate_scopes(sels.drop_last()) + (match sels.last() {
            SelectorV::TextMate(t) => seq![t],
            SelectorV::Semantic(_) => Seq::<Seq<char>>::empty(),
        })
    }
}

/// The semantic selectors among the selectors, in order.
pub open spec fn semantic_selectors(sels: Seq<SelectorV>) -> Seq<proto::semantic::SelectorV>
    decreases sels.len(),
{
    if sels.len() == 0 {
        Seq::empty()
    } else {
        semantic_selectors(sels.drop_last()) + (match sels.last() {
            SelectorV::TextMate(_) => Seq::<proto::semantic::SelectorV>::empty(),
            SelectorV::Semantic(v) => seq![v],
        })
    }
}

/// What a partial style means for a semantic rule: a chosen axis becomes
/// explicitly on and the other two are explicitly negated — selecting one
/// axis does not leave the others silent. Only a style without any effect
/// leaves all three axes silent.
pub open spec fn spec_semantic_style(st: Style) -> proto::semantic::Style {
    proto::semantic::Style {
        foreground: st.foreground,
        font_style: match st.font_style {
            Some(FontStyle::Bold) => proto::semantic::FontStyle {
                bold: proto::semantic::FontStyleSetting::True,
                italic: proto::semantic::FontStyleSetting::False,
                underline: proto::semantic::FontStyleSetting::False,
            },
            Some(FontStyle::Italic) => proto::semantic::FontStyle {
                bold: proto::semantic::FontStyleSetting::False,
                italic: proto::semantic::FontStyleSetting::True,
                underline: proto::semantic::FontStyleSetting::False,
            },
            Some(FontStyle::Underline) => proto::semantic::FontStyle {
                bold: proto::semantic::FontStyleSetting::False,
                italic: proto::semantic::FontStyleSetting::False,
                underline: proto::semantic::FontStyleSetting::True,
            },
            None => proto::semantic::FontStyle {
                bold: proto::semantic::FontStyleSetting::Inherit,
                italic: proto::semantic::FontStyleSetting::Inherit,
                underline: proto::semantic::FontStyleSetting::Inherit,
            },
        },
    }
}

/// What a partial style means for a scope rule: the chosen axis is on and
/// the other two are off; without an effect the whole font style is
/// inherited.
pub open spec fn spec_textmate_settings(st: Style) -> proto::textmate::RuleSettings {
    proto::textmate::RuleSettings {
        foreground: st.foreground,
        font_style: match st.font_style {
            Some(FontStyle::Bold) => proto::textmate::FontStyle::Explicit {
                bold: true,
                italic: false,
                underline: false,
            },
            Some(FontStyle::Italic) => proto::textmate::FontStyle::Explicit {
                bold: false,
                italic: true,
                underline: false,
            },
            Some(FontStyle::Underline) => proto::textmate::FontStyle::Explicit {
                bold: false,
                italic: false,
                underline: true,
            },
            None => proto::textmate::FontStyle::Inherit,
        },
    }
}

/// Converts a partial style into scope-rule settings.
pub fn style_to_textmate_rule_settings(style: Style) -> (r: proto::textmate::RuleSettings)
    ensures
        r == spec_textmate_settings(style),
{
    let font_style = match style.font_style {
        Some(FontStyle::Bold) => proto::textmate::FontStyle::Explicit {
            bold: true,
            italic: false,
            underline: false,
        },
        Some(FontStyle::Italic) => proto::textmate::FontStyle::Explicit {
            bold: false,
            italic: true,
            underline: false,
        },
        Some(FontStyle::Underline) => proto::textmate::FontStyle::Explicit {
            bold: false,
            italic: false,
            underline: true,
        },
        None => proto::textmate::FontStyle::Inherit,
    };
    proto::textmate::RuleSettings { foreground: style.foreground, font_style }
}

/// The rule accumulator: scope rules in insertion order, semantic rules and
/// UI colors as order-preserving overwrite maps.
#[derive(Debug)]
pub struct ThemeBuilder {
    pub textmate_rules: Vec<proto::textmate::Rule>,
    pub semantic_rules: indexmap::IndexMap<proto::semantic::Selector, proto::semantic::Style>,
    pub workbench_rules: indexmap::IndexMap<String, proto::Color>,
}

impl ThemeBuilder {
    /// The accumulated scope rules.
    pub open spec fn tm_rules(self) -> Seq<RuleV> {
        self.textmate_rules@.map_values(|r: proto::textmate::Rule| r@)
    }

    /// The accumulated semantic rules, in insertion order.
    pub open spec fn sem_rules(self) -> Seq<(proto::semantic::SelectorV, proto::semantic::Style)> {
        semantic_entries(self.semantic_rules)
    }

    /// The accumulated UI colors, in insertion order.
    pub open spec fn wb_rules(self) -> Seq<(Seq<char>, proto::Color)> {
        workbench_entries(self.workbench_rules)
    }

    /// Adds one rule: the TextMate scopes among the selectors become one new
    /// scope rule (never merged with an earlier one, and no rule at all when
    /// there are none), and each semantic selector, in call order, overwrites
    /// its map entry with the style — a full replacement, not a merge.
    pub fn a(&mut self, selectors: Vec<Selector>, style: Style)
        ensures
            ({
                let tms = textmate_scopes(selectors@.map_values(|s: Selector| s@));
                if tms.len() == 0 {
                    final(self).tm_rules() == old(self).tm_rules()
                } else {
                    final(self).tm_rules() == old(self).tm_rules().push(
                        RuleV { scope: tms, settings: spec_textmate_settings(style) },
                    )
                }
            }),
            final(self).sem_rules() == insert_each(
                old(self).sem_rules(),
                semantic_selectors(selectors@.map_values(|s: Selector| s@)),
                spec_semantic_style(style),
            ),
            final(self).wb_rules() == old(self).wb_rules(),
    {
        let ghost svs = selectors@.map_values(|s: Selector| s@);
        let mut selectors = selectors;
        let mut textmate_scope_strs: Vec<String> = Vec::new();
        let mut semantic_sels: Vec<proto::semantic::Selector> = Vec::new();
        let n = selectors.len();
        let mut i: usize = 0;
        while selectors.len() > 0
            invariant
                i + selectors@.len() == n,
                n == svs.len(),
                forall|j: int|
                    0 <= j < selectors@.len() ==> #[trigger] selectors@[j]@ == svs[i + j],
                textmate_scope_strs@.map_values(|s: String| s@) == textmate_scopes(
                    svs.take(i as int),
                ),
                semantic_sels@.map_values(|s: proto::semantic::Selector| s@)
                    == semantic_selectors(svs.take(i as int)),
            decreases selectors@.len(),
        {
            let sel = selectors.remove(0);
            proof {
                assert(sel@ == svs[i as int]);
                let t = svs.take(i + 1 as int);
                assert(t.drop_last() =~= svs.take(i as int));
                assert(t.last() == svs[i as int]);
            }
            match sel {
                Selector::TextMate(scope) => {
                    textmate_scope_strs.push(scope);
                    proof {
                        assert(textmate_scope_strs@.map_values(|s: String| s@) =~= textmate_scopes(
                            svs.take(i + 1 as int),
                        ));
                        assert(semantic_sels@.map_values(|s: proto::semantic::Selector| s@)
                            =~= semantic_selectors(svs.take(i + 1 as int)));
                    }
                },
                Selector::Semantic(sel) => {
                    semantic_sels.push(sel);
                    proof {
                        assert(textmate_scope_strs@.map_values(|s: String| s@) =~= textmate_scopes(
                            svs.take(i + 1 as int),
                        ));
                        assert(semantic_sels@.map_values(|s: proto::semantic::Selector| s@)
                            =~= semantic_selectors(svs.take(i + 1 as int)));
                    }
                },
            }
            i = i + 1;
        }
        proof {
            assert(svs.take(n as int) =~= svs);
        }
        if textmate_scope_strs.len() > 0 {
            let settings = style_to_textmate_rule_settings(style);
            let rule = proto::textmate::Rule { scope: textmate_scope_strs, settings };
            let ghost rv = rule@;
            self.textmate_rules.push(rule);
            proof {
                assert(rv =~= (RuleV {
                    scope: textmate_scopes(svs),
                    settings: spec_textmate_settings(style),
                }));
                assert(self.tm_rules() =~= old(self).tm_rules().push(rv));
            }
        }
        let semantic_style = proto::semantic::Style {
            foreground: style.foreground,
            font_style: match style.font_style {
                Some(FontStyle::Bold) => proto::semantic::FontStyle {
                    bold: proto::semantic::FontStyleSetting::True,
                    italic: proto::semantic::FontStyleSetting::False,
                    underline: proto::semantic::FontStyleSetting::False,
                },
                Some(FontStyle::Italic) => proto::semantic::FontStyle {
                    bold: proto::semantic::FontStyleSetting::False,
                    italic: proto::semantic::FontStyleSetting::True,
                    underline: proto::semantic::FontStyleSetting::False,
                },
                Some(FontStyle::Underline) => proto::semantic::FontStyle {
                    bold: proto::semantic::FontStyleSetting::False,
                    italic: proto::semantic::FontStyleSetting::False,
                    underline: proto::semantic::FontStyleSetting::True,
                },
                None => proto::semantic::FontStyle {
                    bold: proto::semantic::FontStyleSetting::Inherit,
                    italic: proto::semantic::FontStyleSetting::Inherit,
                    underline: proto::semantic::FontStyleSetting::Inherit,
                },
            },
        };
        assert(semantic_style == spec_semantic_style(style));
        let ghost sem_sel_views = semantic_selectors(svs);
        proof {
            assert(semantic_sels@.map_values(|s: proto::semantic::Selector| s@)
                == sem_sel_views);
        }
        let ghost sem_init = semantic_entries(self.semantic_rules);
        let ghost tm_done = self.textmate_rules@;
        let ghost wb_done = workbench_entries(self.workbench_rules);
        let sem_n = semantic_sels.len();
        let mut k: usize = 0;
        while semantic_sels.len() > 0
            invariant
                k + semantic_sels@.len() == sem_n,
                sem_n == sem_sel_views.len(),
                forall|j: int|
                    0 <= j < semantic_sels@.len() ==> #[trigger] semantic_sels@[j]@ == sem_sel_views[
                        k + j
                    ],
                semantic_entries(self.semantic_rules) == insert_each(
                    sem_init,
                    sem_sel_views.take(k as int),
                    semantic_style,
                ),
                self.textmate_rules@ == tm_done,
                workbench_entries(self.workbench_rules) == wb_done,
            decreases semantic_sels@.len(),
        {
            let sel = semantic_sels.remove(0);
            proof {
                assert(sel@ == sem_sel_views[k as int]);
                let t = sem_sel_views.take(k + 1 as int);
                assert(t.drop_last() =~= sem_sel_views.take(k as int));
                assert(t.last() == sem_sel_views[k as int]);
            }
            semantic_map_insert(&mut self.semantic_rules, sel, semantic_style);
            k = k + 1;
        }
        proof {
            assert(sem_sel_views.take(sem_n as int) =~= sem_sel_views);
        }
    }

    /// Sets a UI color: each key, in call order, overwrites its map entry
    /// with the color; a key's first insertion fixes its position for good.
    pub fn w(&mut self, selectors: Vec<String>, color: Color)
        ensures
            final(self).wb_rules() == insert_each(
                old(self).wb_rules(),
                selectors@.map_values(|s: String| s@),
                color.0,
            ),
            final(self).tm_rules() == old(self).tm_rules(),
            final(self).sem_rules() == old(self).sem_rules(),
    {
        let ghost kvs = selectors@.map_values(|s: String| s@);
        let ghost wb_init = workbench_entries(self.workbench_rules);
        let ghost tm_init = self.textmate_rules@;
        let ghost sem_init = semantic_entries(self.semantic_rules);
        let mut selectors = selectors;
        let n = selectors.len();
        let mut k: usize = 0;
        while selectors.len() > 0
            invariant
                k + selectors@.len() == n,
                n == kvs.len(),
                forall|j: int| 0 <= j < selectors@.len() ==> #[trigger] selectors@[j]@ == kvs[k + j],
                workbench_entries(self.workbench_rules) == insert_each(
                    wb_init,
                    kvs.take(k as int),
                    color.0,
                ),
                self.textmate_rules@ == tm_init,
                semantic_entries(self.semantic_rules) == sem_init,
            decreases selectors@.len(),
        {
            let key = selectors.remove(0);
            proof {
                assert(key@ == kvs[k as int]);
                let t = kvs.take(k + 1 as int);
                assert(t.drop_last() =~= kvs.take(k as int));
                assert(t.last() == kvs[k as int]);
            }
            workbench_map_insert(&mut self.workbench_rules, key, color.0);
            k = k + 1;
        }
        proof {
            assert(kvs.take(n as int) =~= kvs);
        }
    }

    /// Consumes the accumulator into a finished theme with the given name;
    /// semantic highlighting is on.
    pub fn build(self, name: &str) -> (t: proto::Theme)
        ensures
            t@ == (ThemeV {
                name: name@,
                textmate_rules: self.tm_rules(),
                semantic_highlighting: HighlightingV::On { rules: self.sem_rules() },
                workbench_rules: self.wb_rules(),
            }),
    {
        let t = proto::Theme {
            name: name.to_owned(),
            textmate_rules: self.textmate_rules,
            semantic_highlighting: Highlighting::On { rules: self.semantic_rules },
            workbench_rules: self.workbench_rules,
        };
        proof {
            assert(t@ =~= (ThemeV {
                name: name@,
                textmate_rules: self.tm_rules(),
                semantic_highlighting: HighlightingV::On { rules: self.sem_rules() },
                workbench_rules: self.wb_rules(),
            }));
        }
        t
    }
}

impl Default for ThemeBuilder {
    /// An empty accumulator: no scope rules, no semantic rules, no UI colors.
    fn default() -> (t: Self)
        ensures
            t.tm_rules() == Seq::<RuleV>::empty(),
            t.sem_rules() == Seq::<(proto::semantic::SelectorV, proto::semantic::Style)>::empty(),
            t.wb_rules() == Seq::<(Seq<char>, proto::Color)>::empty(),
    {
        let t = ThemeBuilder {
            textmate_rules: Vec::new(),
            semantic_rules: semantic_map_new(),
            workbench_rules: workbench_map_new(),
        };
        proof {
            assert(t.tm_rules() =~= Seq::<RuleV>::empty());
        }
        t
    }
}

} // verus!
