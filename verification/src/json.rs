//! Encoding of a text as a JSON string literal.

use vstd::prelude::*;
use vstd::std_specs::iter::IteratorSpec;

verus! {

/// The lower-case hexadecimal digit of a value below sixteen.
pub open spec fn hex_digit_of(n: int) -> char {
    seq!['0', '1', '2', '3', '4', '5', '6', '7', '8', '9', 'a', 'b', 'c', 'd', 'e', 'f'][n]
}

/// What one character of a text becomes inside a JSON string literal: the
/// quotation mark and the reverse solidus get a reverse solidus in front; the
/// five control characters with a short form get that form; every other
/// character below U+0020 becomes `\u00` and its two hexadecimal digits;
/// every other character stands for itself.
pub open spec fn escape_of(c: char) -> Seq<char> {
    if c == '"' {
        seq!['\\', '"']
    } else if c == '\\' {
        seq!['\\', '\\']
    } else if c == '\u{8}' {
        seq!['\\', 'b']
    } else if c == '\u{9}' {
        seq!['\\', 't']
    } else if c == '\u{a}' {
        seq!['\\', 'n']
    } else if c == '\u{c}' {
        seq!['\\', 'f']
    } else if c == '\u{d}' {
        seq!['\\', 'r']
    } else if (c as u32) < 0x20 {
        seq!['\\', 'u', '0', '0', hex_digit_of((c as u32) as int / 16), hex_digit_of((c as u32) as int % 16)]
    } else {
        seq![c]
    }
}

/// The escapes of the characters of a text, one after the other.
pub open spec fn escaped(text: Seq<char>) -> Seq<char>
    decreases text.len(),
{
    if text.len() == 0 {
        Seq::empty()
    } else {
        escaped(text.drop_last()) + escape_of(text.last())
    }
}

/// A text as a JSON string literal: its escaped characters between two
/// quotation marks.
pub open spec fn json_string_literal(text: Seq<char>) -> Seq<char> {
    seq!['"'] + escaped(text) + seq!['"']
}

/// `String::push` of std: the string afterwards is the string before with the
/// given character at its end.
pub assume_specification[ String::push ](s: &mut String, c: char)
    ensures
        final(s)@ == old(s)@.push(c),
;

/// The lower-case hexadecimal digit of `n`.
fn hex_digit(n: u32) -> (d: char)
    requires
        n < 16,
    ensures
        d == hex_digit_of(n as int),
{
    match n {
        0 => '0',
        1 => '1',
        2 => '2',
        3 => '3',
        4 => '4',
        5 => '5',
        6 => '6',
        7 => '7',
        8 => '8',
        9 => '9',
        10 => 'a',
        11 => 'b',
        12 => 'c',
        13 => 'd',
        14 => 'e',
        _ => 'f',
    }
}

/// Appends the escape of `c` to `out`.
fn push_escaped(out: &mut String, c: char)
    ensures
        final(out)@ == old(out)@ + escape_of(c),
{
    let code: u32 = c as u32;
    if c == '"' {
        out.push('\\');
        out.push('"');
    } else if c == '\\' {
        out.push('\\');
        out.push('\\');
    } else if c == '\u{8}' {
        out.push('\\');
        out.push('b');
    } else if c == '\u{9}' {
        out.push('\\');
        out.push('t');
    } else if c == '\u{a}' {
        out.push('\\');
        out.push('n');
    } else if c == '\u{c}' {
        out.push('\\');
        out.push('f');
    } else if c == '\u{d}' {
        out.push('\\');
        out.push('r');
    } else if code < 0x20 {
        out.push('\\');
        out.push('u');
        out.push('0');
        out.push('0');
        out.push(hex_digit(code / 16));
        out.push(hex_digit(code % 16));
    } else {
        out.push(c);
    }
    assert(final(out)@ =~= old(out)@ + escape_of(c));
}

/// Encodes `text` as a JSON string literal.
pub fn quote_json(text: &str) -> (out: String)
    ensures
        out@ == json_string_literal(text@),
{
    broadcast use vstd::string::group_string_axioms;

    let mut out = String::new();
    out.push('"');
    let mut rest = text.chars();
    let ghost mut seen: Seq<char> = Seq::empty();
    loop
        invariant
            rest.obeys_prophetic_iter_laws(),
            seen + rest.remaining() == text@,
            out@ == seq!['"'] + escaped(seen),
        ensures
            seen == text@,
        decreases text@.len() - seen.len(),
    {
        let ghost before = rest.remaining();
        match rest.next() {
            Some(c) => {
                push_escaped(&mut out, c);
                proof {
                    let grown = seen.push(c);
                    assert(grown.drop_last() =~= seen);
                    assert(grown + rest.remaining() =~= seen + before);
                    assert(out@ =~= seq!['"'] + escaped(grown));
                    seen = grown;
                }
            },
            None => {
                proof {
                    assert(seen =~= text@);
                }
                break;
            },
        }
    }
    out.push('"');
    assert(out@ =~= json_string_literal(text@));
    out
}

} // verus!
