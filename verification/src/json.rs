//! JSON text for requests: string literals as serde_json writes them, and numbers.

use vstd::prelude::*;

verus! {

/// The hexadecimal digit for `d`, lower case.
pub open spec fn hex_lower(d: int) -> char {
    if d < 10 {
        ((d + 48) as u32) as char
    } else {
        ((d + 87) as u32) as char
    }
}

/// How serde_json escapes one character inside a string literal: quote and backslash get a backslash; the
/// control characters get `\b \t \n \f \r` or `\u00XX` with lower-case hex; everything else stays.
pub open spec fn json_escape_char(c: char) -> Seq<char> {
    if c == '"' {
        seq!['\\', '"']
    } else if c == '\\' {
        seq!['\\', '\\']
    } else if c == '\x08' {
        seq!['\\', 'b']
    } else if c == '\t' {
        seq!['\\', 't']
    } else if c == '\n' {
        seq!['\\', 'n']
    } else if c == '\x0C' {
        seq!['\\', 'f']
    } else if c == '\r' {
        seq!['\\', 'r']
    } else if (c as int) < 0x20 {
        seq!['\\', 'u', '0', '0', hex_lower((c as int) / 16), hex_lower((c as int) % 16)]
    } else {
        seq![c]
    }
}

/// The escaped characters of a string.
pub open spec fn json_escape(s: Seq<char>) -> Seq<char>
    decreases s.len(),
{
    if s.len() == 0 {
        Seq::empty()
    } else {
        json_escape(s.drop_last()) + json_escape_char(s.last())
    }
}

/// A JSON string literal holding `s`.
pub open spec fn json_string(s: Seq<char>) -> Seq<char> {
    seq!['"'] + json_escape(s) + seq!['"']
}

/// `serde_json::to_string` on a `str`: the string literal, escaped as `json_escape_char` states (which the
/// crate's escape table shows). Serializing a `str` cannot fail; the error arm is never taken.
#[verifier::external_body]
pub(crate) fn push_json_string(out: &mut String, s: &str)
    ensures
        final(out)@ == old(out)@ + json_string(s@),
{
    match serde_json::to_string(s) {
        Ok(literal) => out.push_str(&literal),
        Err(_) => {},
    }
}

} // verus!
