//! JSON string-literal encoding.
//!
//! Command arguments and workspace edits travel through a config-style text
//! transport that would parse structural syntax inside them. They are
//! therefore double-encoded: the value's JSON text is serialized once more,
//! as a JSON string literal. This module states that second encoding
//! exactly, has the serializer perform it, and proves that one decoding
//! step recovers the embedded JSON text unchanged.

use vstd::prelude::*;
use crate::escape::concat_map;

verus! {

/// The lowercase hexadecimal digit for `d` (0 to 15).
pub open spec fn hex_digit(d: int) -> char {
    if d == 0 { '0' }
    else if d == 1 { '1' }
    else if d == 2 { '2' }
    else if d == 3 { '3' }
    else if d == 4 { '4' }
    else if d == 5 { '5' }
    else if d == 6 { '6' }
    else if d == 7 { '7' }
    else if d == 8 { '8' }
    else if d == 9 { '9' }
    else if d == 10 { 'a' }
    else if d == 11 { 'b' }
    else if d == 12 { 'c' }
    else if d == 13 { 'd' }
    else if d == 14 { 'e' }
    else { 'f' }
}

/// The value of a lowercase hexadecimal digit, or -1 for any other character.
pub open spec fn hex_val(c: char) -> int {
    if c == '0' { 0 }
    else if c == '1' { 1 }
    else if c == '2' { 2 }
    else if c == '3' { 3 }
    else if c == '4' { 4 }
    else if c == '5' { 5 }
    else if c == '6' { 6 }
    else if c == '7' { 7 }
    else if c == '8' { 8 }
    else if c == '9' { 9 }
    else if c == 'a' { 10 }
    else if c == 'b' { 11 }
    else if c == 'c' { 12 }
    else if c == 'd' { 13 }
    else if c == 'e' { 14 }
    else if c == 'f' { 15 }
    else { -1 }
}

/// One character as the JSON serializer escapes it inside a string literal:
/// the quote and the backslash gain a backslash; backspace, tab, line feed,
/// form feed and carriage return become their named escapes; every other
/// control character becomes `\u00` followed by two lowercase hex digits;
/// everything else stays itself.
pub open spec fn json_escape_char(c: char) -> Seq<char> {
    if c == '"' { seq!['\\', '"'] }
    else if c == '\\' { seq!['\\', '\\'] }
    else if c == '\u{8}' { seq!['\\', 'b'] }
    else if c == '\t' { seq!['\\', 't'] }
    else if c == '\n' { seq!['\\', 'n'] }
    else if c == '\u{c}' { seq!['\\', 'f'] }
    else if c == '\r' { seq!['\\', 'r'] }
    else if (c as u32) < 0x20 {
        seq!['\\', 'u', '0', '0',
            hex_digit((c as u32) as int / 16), hex_digit((c as u32) as int % 16)]
    } else {
        seq![c]
    }
}

/// The JSON escape map, as a single value.
pub open spec fn json_f() -> spec_fn(char) -> Seq<char> {
    |c: char| json_escape_char(c)
}

/// The JSON string literal that encodes `s`: the escaped text wrapped in
/// double quotes.
pub open spec fn json_string_encode(s: Seq<char>) -> Seq<char> {
    seq!['"'] + concat_map(s, json_f()) + seq!['"']
}

/// `c` prepended to a decoding result, where one exists.
pub open spec fn prepend(c: char, r: Option<Seq<char>>) -> Option<Seq<char>> {
    match r {
        Some(t) => Some(seq![c] + t),
        None => None,
    }
}

/// Decoding of the body of a JSON string literal; `None` where the text is
/// not a valid escaping.
pub open spec fn json_body_decode(s: Seq<char>) -> Option<Seq<char>>
    decreases s.len(),
{
    if s.len() == 0 {
        Some(Seq::empty())
    } else if s[0] == '\\' {
        if s.len() < 2 {
            None
        } else if s[1] == '"' {
            prepend('"', json_body_decode(s.skip(2)))
        } else if s[1] == '\\' {
            prepend('\\', json_body_decode(s.skip(2)))
        } else if s[1] == 'b' {
            prepend('\u{8}', json_body_decode(s.skip(2)))
        } else if s[1] == 't' {
            prepend('\t', json_body_decode(s.skip(2)))
        } else if s[1] == 'n' {
            prepend('\n', json_body_decode(s.skip(2)))
        } else if s[1] == 'f' {
            prepend('\u{c}', json_body_decode(s.skip(2)))
        } else if s[1] == 'r' {
            prepend('\r', json_body_decode(s.skip(2)))
        } else if s[1] == 'u' {
            if s.len() >= 6 && s[2] == '0' && s[3] == '0'
                && hex_val(s[4]) >= 0 && hex_val(s[5]) >= 0 {
                prepend(((16 * hex_val(s[4]) + hex_val(s[5])) as u32) as char,
                    json_body_decode(s.skip(6)))
            } else {
                None
            }
        } else {
            None
        }
    } else if s[0] == '"' {
        None
    } else {
        prepend(s[0], json_body_decode(s.skip(1)))
    }
}

/// Decoding of a JSON string literal: the quotes stripped, the body decoded.
pub open spec fn json_string_decode(s: Seq<char>) -> Option<Seq<char>> {
    if s.len() >= 2 && s[0] == '"' && s[s.len() - 1] == '"' {
        json_body_decode(s.subrange(1, s.len() - 1))
    } else {
        None
    }
}

/// Relies on `serde_json::to_string`: a string serializes to a JSON string
/// literal — the text wrapped in double quotes with the quote, the
/// backslash and the control characters escaped, exactly as
/// [`json_string_encode`] states. Serializing a string value cannot fail,
/// so the unwrap never panics.
#[verifier::external_body]
pub(crate) fn json_quote(s: &str) -> (r: String)
    ensures
        r@ == json_string_encode(s@),
{
    serde_json::to_string(s).unwrap()
}

/// Decoding the body of an escaped text recovers the text exactly.
proof fn lemma_json_body_decode_encode(s: Seq<char>)
    ensures
        json_body_decode(concat_map(s, json_f())) == Some(s),
    decreases s.len(),
{
    if s.len() == 0 {
        assert(concat_map(s, json_f()) =~= Seq::<char>::empty());
    } else {
        let c = s[0];
        let rest = s.drop_first();
        lemma_json_body_decode_encode(rest);
        let e = concat_map(s, json_f());
        let body_rest = concat_map(rest, json_f());
        assert(e == json_escape_char(c) + body_rest);
        if c == '"' || c == '\\' || c == '\u{8}' || c == '\t' || c == '\n' || c == '\u{c}'
            || c == '\r' {
            assert(e.skip(2) =~= body_rest);
            assert(seq![c] + rest =~= s);
        } else if (c as u32) < 0x20 {
            let v = (c as u32) as int;
            assert(0 <= v < 0x20);
            assert(e[0] == '\\' && e[1] == 'u' && e[2] == '0' && e[3] == '0');
            assert(e[4] == hex_digit(v / 16) && e[5] == hex_digit(v % 16));
            assert(hex_val(hex_digit(v / 16)) == v / 16);
            assert(hex_val(hex_digit(v % 16)) == v % 16);
            assert(16 * (v / 16) + v % 16 == v);
            vstd::utf8::char_u32_cast(c, c as u32);
            assert(((v as u32) as char) == c);
            assert(e.skip(6) =~= body_rest);
            assert(seq![c] + rest =~= s);
        } else {
            assert(e[0] == c);
            assert(e.skip(1) =~= body_rest);
            assert(seq![c] + rest =~= s);
        }
    }
}

/// Double-encoding survives the transport: decoding an emitted JSON string
/// literal once recovers the embedded text — for the builder's fragments,
/// the value's own JSON text — exactly and for every text.
pub proof fn lemma_json_decode_encode(s: Seq<char>)
    ensures
        json_string_decode(json_string_encode(s)) == Some(s),
{
    let e = json_string_encode(s);
    let body = concat_map(s, json_f());
    assert(e.len() == body.len() + 2);
    assert(e[0] == '"');
    assert(e[e.len() - 1] == '"');
    assert(e.subrange(1, e.len() - 1) =~= body);
    lemma_json_body_decode_encode(s);
}

} // verus!
