//! Textual building blocks of the JSON documents this crate emits:
//! hexadecimal digits and JSON string literals with their escaping rules.

use vstd::prelude::*;

verus! {

/// The sixteen uppercase hexadecimal digits; `n` must be below 16.
pub open spec fn spec_hex_upper(n: u8) -> char {
    seq!['0', '1', '2', '3', '4', '5', '6', '7', '8', '9', 'A', 'B', 'C', 'D', 'E', 'F'][n as int]
}

/// The sixteen lowercase hexadecimal digits; `n` must be below 16.
pub open spec fn spec_hex_lower(n: u8) -> char {
    seq!['0', '1', '2', '3', '4', '5', '6', '7', '8', '9', 'a', 'b', 'c', 'd', 'e', 'f'][n as int]
}

/// A byte as two uppercase hexadecimal digits.
pub open spec fn spec_hex_byte(b: u8) -> Seq<char> {
    seq![spec_hex_upper(b / 16), spec_hex_upper(b % 16)]
}

pub fn hex_upper(n: u8) -> (c: char)
    requires
        n < 16,
    ensures
        c == spec_hex_upper(n),
{
    if n == 0 { '0' }
    else if n == 1 { '1' }
    else if n == 2 { '2' }
    else if n == 3 { '3' }
    else if n == 4 { '4' }
    else if n == 5 { '5' }
    else if n == 6 { '6' }
    else if n == 7 { '7' }
    else if n == 8 { '8' }
    else if n == 9 { '9' }
    else if n == 10 { 'A' }
    else if n == 11 { 'B' }
    else if n == 12 { 'C' }
    else if n == 13 { 'D' }
    else if n == 14 { 'E' }
    else { 'F' }
}

pub fn hex_lower(n: u8) -> (c: char)
    requires
        n < 16,
    ensures
        c == spec_hex_lower(n),
{
    if n == 0 { '0' }
    else if n == 1 { '1' }
    else if n == 2 { '2' }
    else if n == 3 { '3' }
    else if n == 4 { '4' }
    else if n == 5 { '5' }
    else if n == 6 { '6' }
    else if n == 7 { '7' }
    else if n == 8 { '8' }
    else if n == 9 { '9' }
    else if n == 10 { 'a' }
    else if n == 11 { 'b' }
    else if n == 12 { 'c' }
    else if n == 13 { 'd' }
    else if n == 14 { 'e' }
    else { 'f' }
}

/// Appends one character to a string.
///
/// Relies on `String::push`: the string grows by exactly that character.
#[verifier::external_body]
pub fn push_char(out: &mut String, c: char)
    ensures
        final(out)@ == old(out)@ + seq![c],
{
    out.push(c);
}

/// Appends a byte as two uppercase hexadecimal digits.
pub fn emit_hex_byte(out: &mut String, b: u8)
    ensures
        final(out)@ == old(out)@ + spec_hex_byte(b),
{
    let hi = hex_upper(b / 16);
    let lo = hex_upper(b % 16);
    push_char(out, hi);
    push_char(out, lo);
    assert(out@ =~= old(out)@ + spec_hex_byte(b));
}

/// How one character reads inside a JSON string literal: quote and backslash
/// take a backslash, the named control characters take their short escapes,
/// the remaining control characters a `\u00..` escape, and every other
/// character stands for itself.
pub open spec fn spec_escape_char(c: char) -> Seq<char> {
    if c == '"' {
        seq!['\\', '"']
    } else if c == '\\' {
        seq!['\\', '\\']
    } else if c == '\u{8}' {
        seq!['\\', 'b']
    } else if c == '\u{9}' {
        seq!['\\', 't']
    } else if c == '\u{A}' {
        seq!['\\', 'n']
    } else if c == '\u{C}' {
        seq!['\\', 'f']
    } else if c == '\u{D}' {
        seq!['\\', 'r']
    } else if (c as u32) < 0x20 {
        seq!['\\', 'u', '0', '0', spec_hex_lower((c as u32 / 16) as u8), spec_hex_lower(
            (c as u32 % 16) as u8,
        )]
    } else {
        seq![c]
    }
}

/// The body of a JSON string literal for the text `s`.
pub open spec fn spec_escape(s: Seq<char>) -> Seq<char>
    decreases s.len(),
{
    if s.len() == 0 {
        Seq::empty()
    } else {
        spec_escape(s.drop_last()) + spec_escape_char(s.last())
    }
}

/// A complete JSON string literal for the text `s`, quotes included.
pub open spec fn spec_quoted(s: Seq<char>) -> Seq<char> {
    seq!['"'] + spec_escape(s) + seq!['"']
}

fn emit_escaped_char(out: &mut String, c: char)
    ensures
        final(out)@ == old(out)@ + spec_escape_char(c),
{
    if c == '"' {
        push_char(out, '\\');
        push_char(out, '"');
    } else if c == '\\' {
        push_char(out, '\\');
        push_char(out, '\\');
    } else if c == '\u{8}' {
        push_char(out, '\\');
        push_char(out, 'b');
    } else if c == '\u{9}' {
        push_char(out, '\\');
        push_char(out, 't');
    } else if c == '\u{A}' {
        push_char(out, '\\');
        push_char(out, 'n');
    } else if c == '\u{C}' {
        push_char(out, '\\');
        push_char(out, 'f');
    } else if c == '\u{D}' {
        push_char(out, '\\');
        push_char(out, 'r');
    } else if (c as u32) < 0x20 {
        push_char(out, '\\');
        push_char(out, 'u');
        push_char(out, '0');
        push_char(out, '0');
        let hi = hex_lower((c as u32 / 16) as u8);
        let lo = hex_lower((c as u32 % 16) as u8);
        push_char(out, hi);
        push_char(out, lo);
    } else {
        push_char(out, c);
    }
    assert(out@ =~= old(out)@ + spec_escape_char(c));
}

/// The text repeated `n` times; indentation for nesting depth `n`.
pub open spec fn spec_rep(s: Seq<char>, n: nat) -> Seq<char>
    decreases n,
{
    if n == 0 {
        Seq::empty()
    } else {
        spec_rep(s, (n - 1) as nat) + s
    }
}

/// Appends the text `n` times over.
pub fn emit_rep(out: &mut String, s: &str, n: usize)
    ensures
        final(out)@ == old(out)@ + spec_rep(s@, n as nat),
{
    let ghost init = out@;
    proof {
        assert(out@ =~= init + spec_rep(s@, 0));
    }
    let mut i: usize = 0;
    while i < n
        invariant
            i <= n,
            out@ == init + spec_rep(s@, i as nat),
        decreases n - i,
    {
        out.append(s);
        i = i + 1;
    }
}

/// The items joined by the separator, in order.
pub open spec fn spec_join(items: Seq<Seq<char>>, sep: Seq<char>) -> Seq<char>
    decreases items.len(),
{
    if items.len() == 0 {
        Seq::empty()
    } else if items.len() == 1 {
        items[0]
    } else {
        spec_join(items.drop_last(), sep) + sep + items.last()
    }
}

/// Appends the items joined by the separator, in order.
pub fn emit_join(out: &mut String, items: &Vec<String>, sep: &str)
    ensures
        final(out)@ == old(out)@ + spec_join(items@.map_values(|s: String| s@), sep@),
{
    let ghost init = out@;
    let ghost vitems = items@.map_values(|s: String| s@);
    proof {
        assert(out@ =~= init + spec_join(vitems.take(0), sep@));
    }
    let mut i: usize = 0;
    while i < items.len()
        invariant
            i <= items@.len(),
            vitems == items@.map_values(|s: String| s@),
            out@ == init + spec_join(vitems.take(i as int), sep@),
        decreases items@.len() - i,
    {
        if i > 0 {
            out.append(sep);
        }
        out.append(items[i].as_str());
        proof {
            assert(vitems[i as int] == items@[i as int]@);
            let t = vitems.take(i + 1 as int);
            if i == 0 {
                assert(spec_join(t, sep@) == vitems[0]);
            } else {
                assert(t.drop_last() =~= vitems.take(i as int));
                assert(t.last() == vitems[i as int]);
            }
            assert(out@ =~= init + spec_join(t, sep@));
        }
        i = i + 1;
    }
    proof {
        assert(vitems.take(vitems.len() as int) =~= vitems);
    }
}

/// A pretty-printed JSON object or array: without items it collapses to the
/// bare delimiter pair; otherwise each item (already carrying its own leading
/// indentation) stands on a line of its own, and the closing delimiter is
/// indented by `close_indent`.
pub open spec fn spec_wrapped(
    items: Seq<Seq<char>>,
    opener: char,
    closer: char,
    close_indent: Seq<char>,
) -> Seq<char> {
    if items.len() == 0 {
        seq![opener, closer]
    } else {
        seq![opener, '\n'] + spec_join(items, ",\n"@) + seq!['\n'] + close_indent + seq![closer]
    }
}

/// Appends a pretty-printed JSON object or array built from the given items.
pub fn emit_wrapped(
    out: &mut String,
    items: &Vec<String>,
    opener: char,
    closer: char,
    close_indent: &str,
)
    ensures
        final(out)@ == old(out)@ + spec_wrapped(
            items@.map_values(|s: String| s@),
            opener,
            closer,
            close_indent@,
        ),
{
    let ghost init = out@;
    let ghost vitems = items@.map_values(|s: String| s@);
    proof {
        reveal_strlit("\n");
        reveal_strlit(",\n");
        assert("\n"@ =~= seq!['\n']);
        assert(",\n"@ =~= seq![',', '\n']);
    }
    push_char(out, opener);
    if items.len() > 0 {
        out.append("\n");
        proof {
            assert(out@ =~= init + seq![opener, '\n']);
        }
        let mut i: usize = 0;
        while i < items.len()
            invariant
                0 < items@.len(),
                i <= items@.len(),
                vitems == items@.map_values(|s: String| s@),
                i == 0 ==> out@ == init + seq![opener, '\n'],
                i >= 1 ==> out@ == init + seq![opener, '\n'] + spec_join(vitems.take(i as int), ",\n"@),
            decreases items@.len() - i,
        {
            if i > 0 {
                out.append(",\n");
            }
            out.append(items[i].as_str());
            proof {
                assert(vitems[i as int] == items@[i as int]@);
                let t = vitems.take(i + 1 as int);
                if i == 0 {
                    assert(spec_join(t, ",\n"@) == vitems[0]);
                } else {
                    assert(t.drop_last() =~= vitems.take(i as int));
                    assert(t.last() == vitems[i as int]);
                    assert(spec_join(t, ",\n"@) == spec_join(vitems.take(i as int), ",\n"@) + ",\n"@
                        + vitems[i as int]);
                }
                assert(out@ =~= init + seq![opener, '\n'] + spec_join(t, ",\n"@));
            }
            i = i + 1;
        }
        out.append("\n");
        out.append(close_indent);
        push_char(out, closer);
        proof {
            assert(vitems.take(vitems.len() as int) =~= vitems);
            assert(out@ =~= init + spec_wrapped(vitems, opener, closer, close_indent@));
        }
    } else {
        push_char(out, closer);
        assert(out@ =~= init + spec_wrapped(vitems, opener, closer, close_indent@));
    }
}

/// Appends a complete JSON string literal for `s`, quotes included.
pub fn emit_json_string(out: &mut String, s: &str)
    ensures
        final(out)@ == old(out)@ + spec_quoted(s@),
{
    let ghost init = out@;
    push_char(out, '"');
    let len = s.unicode_len();
    let mut i: usize = 0;
    while i < len
        invariant
            len == s@.len(),
            i <= len,
            out@ == init + seq!['"'] + spec_escape(s@.take(i as int)),
        decreases len - i,
    {
        let c = s.get_char(i);
        emit_escaped_char(out, c);
        proof {
            let t = s@.take(i + 1 as int);
            assert(t.drop_last() =~= s@.take(i as int));
            assert(t.last() == c);
            assert(spec_escape(t) == spec_escape(s@.take(i as int)) + spec_escape_char(c));
            assert(out@ =~= init + seq!['"'] + spec_escape(s@.take(i + 1 as int)));
        }
        i = i + 1;
    }
    push_char(out, '"');
    proof {
        assert(s@.take(len as int) =~= s@);
        assert(out@ =~= init + spec_quoted(s@));
    }
}

} // verus!
