//! The parts of SARIF 2.1.0 output that are computed rather than transcribed: a stable rule ID per query,
//! display text clipped to code scanning's limits, and artifact URIs.

use vstd::prelude::*;

use crate::outcome::Outcome;
use crate::source::{line_spans, lines_of, tile, tiles};
use crate::text::{
    lemma_occurs, occurs_in,
    blank, chars_of, is_blank, lemma_trim_empty, push_char, push_slice, string_of, trim,
    trim_bounds,
};

verus! {

broadcast use vstd::string::group_string_axioms;

/// GitHub code scanning shows at most 1024 characters of a rule description.
pub const DESCRIPTION_CHARS: usize = 1024;

/// Result messages start with at most this many characters of the query's title.
pub const TITLE_CHARS: usize = 200;

pub const FNV_OFFSET: u64 = 0xcbf2_9ce4_8422_2325;

pub const FNV_PRIME: u64 = 0x0100_0000_01b3;

/// One FNV-1a step: mix in a byte, then multiply modulo 2^64.
pub open spec fn fnv_step(hash: u64, byte: u8) -> u64 {
    (hash ^ (byte as u64)).wrapping_mul(FNV_PRIME)
}

/// The 64-bit FNV-1a hash of `bytes`.
pub open spec fn fnv1a(bytes: Seq<u8>) -> u64
    decreases bytes.len(),
{
    if bytes.len() == 0 {
        FNV_OFFSET
    } else {
        fnv_step(fnv1a(bytes.drop_last()), bytes.last())
    }
}

/// The lower-case hex digit for a value below 16.
pub open spec fn hex_digit(d: u64) -> char {
    if d < 10 {
        ((d + 48) as u32) as char
    } else {
        ((d + 87) as u32) as char
    }
}

/// `{:016x}`: sixteen lower-case hex digits, most significant first.
pub open spec fn hex16(h: u64) -> Seq<char> {
    Seq::new(16, |i: int| hex_digit((h >> ((15 - i) * 4) as u64) & 15u64))
}

/// A rule's ID: `query/` and the hex FNV-1a hash of the query's UTF-8 bytes.
pub open spec fn rule_id_of(query: Seq<char>) -> Seq<char> {
    "query/"@ + hex16(fnv1a(vstd::utf8::encode_utf8(query)))
}

/// A stable ID for the query, so code scanning tracks the same rule across runs. FNV-1a keeps it independent
/// of Rust's hasher, which may change between releases.
pub fn rule_id(query: &str) -> (id: String)
    ensures
        id@ == rule_id_of(query@),
{
    let bytes = query.as_bytes();
    let mut hash: u64 = FNV_OFFSET;
    let mut i: usize = 0;
    while i < bytes.len()
        invariant
            i <= bytes@.len(),
            bytes@ == vstd::utf8::encode_utf8(query@),
            hash == fnv1a(bytes@.take(i as int)),
        decreases bytes.len() - i,
    {
        assert(bytes@.take(i + 1).drop_last() == bytes@.take(i as int));
        hash = (hash ^ (bytes[i] as u64)).wrapping_mul(FNV_PRIME);
        i = i + 1;
    }
    assert(bytes@.take(bytes@.len() as int) == bytes@);
    let mut id = String::from_str("query/");
    let ghost prefix = id@;
    let mut k: usize = 0;
    while k < 16
        invariant
            k <= 16,
            id@ == prefix + hex16(hash).take(k as int),
        decreases 16 - k,
    {
        let d = (hash >> ((15 - k) * 4) as u64) & 15u64;
        assert(d < 16) by (bit_vector)
            requires
                d == (hash >> ((15 - k) * 4) as u64) & 15u64,
        ;
        let c = if d < 10 {
            ((d as u8) + 48u8) as char
        } else {
            ((d as u8) + 87u8) as char
        };
        assert(c == hex_digit(d));
        push_char(&mut id, c);
        assert(hex16(hash).take(k + 1) == hex16(hash).take(k as int).push(c));
        k = k + 1;
    }
    assert(hex16(hash).take(16) == hex16(hash));
    id
}

/// A lower-case hex digit.
pub open spec fn is_hex_digit(c: char) -> bool {
    ('0' <= c && c <= '9') || ('a' <= c && c <= 'f')
}

proof fn lemma_nibble(h: u64, shift: u64)
    by (bit_vector)
    ensures
        (h >> shift) & 15u64 < 16,
{
}

/// Every rule ID is `query/` followed by exactly sixteen lower-case hex digits, whatever the query.
pub proof fn rule_id_shape(query: Seq<char>)
    ensures
        rule_id_of(query).len() == 22,
        rule_id_of(query).take(6) == "query/"@,
        forall|i: int| 6 <= i < 22 ==> is_hex_digit(#[trigger] rule_id_of(query)[i]),
{
    reveal_strlit("query/");
    let h = fnv1a(vstd::utf8::encode_utf8(query));
    assert(rule_id_of(query).take(6) =~= "query/"@);
    assert forall|i: int| 6 <= i < 22 implies is_hex_digit(#[trigger] rule_id_of(query)[i]) by {
        lemma_nibble(h, ((15 - (i - 6)) * 4) as u64);
        assert(rule_id_of(query)[i] == hex16(h)[i - 6]);
    }
}

/// The first line that is not blank, trimmed; a query of blank lines is its own title.
pub open spec fn title_of(query: Seq<char>) -> Seq<char> {
    let lines = lines_of(query);
    if exists|i: int| 0 <= i < lines.len() && !is_blank(#[trigger] lines[i]) {
        let i = choose|i: int|
            0 <= i < lines.len() && !is_blank(#[trigger] lines[i]) && forall|j: int|
                0 <= j < i ==> is_blank(#[trigger] lines[j]);
        trim(lines[i])
    } else {
        query
    }
}

/// The query's title: its first line that is not blank, trimmed.
pub fn title(query: &str) -> (t: String)
    ensures
        t@ == title_of(query@),
{
    let chars = chars_of(query);
    let spans = line_spans(&chars);
    let ghost lines = lines_of(query@);
    let mut i: usize = 0;
    while i < spans.len()
        invariant
            chars@ == query@,
            lines == lines_of(query@),
            tiles(chars@, spans@, lines),
            i <= spans@.len(),
            forall|j: int| 0 <= j < i ==> is_blank(#[trigger] lines[j]),
        decreases spans.len() - i,
    {
        let (from, to) = spans[i];
        assert(tile(chars@, spans@[i as int], lines[i as int]));
        let line = string_of(&chars, from, to);
        if !blank(line.as_str()) {
            let ghost w = i as int;
            proof {
                assert(0 <= w < lines.len() && !is_blank(lines[w]) && forall|j: int|
                    0 <= j < w ==> is_blank(#[trigger] lines[j]));
                let c = choose|c: int|
                    0 <= c < lines.len() && !is_blank(#[trigger] lines[c]) && forall|j: int|
                        0 <= j < c ==> is_blank(#[trigger] lines[j]);
                if c < w {
                    assert(is_blank(lines[c]));
                } else if c > w {
                    assert(is_blank(lines[w]));
                }
            }
            let line_chars = chars_of(line.as_str());
            let (start, end) = trim_bounds(&line_chars);
            return string_of(&line_chars, start, end);
        }
        i = i + 1;
    }
    query.to_owned()
}

/// At most `limit` characters: longer text keeps `limit - 1` of them (none when `limit` is 0) and ends in `…`.
pub open spec fn clip_of(text: Seq<char>, limit: usize) -> Seq<char> {
    if text.len() <= limit {
        text
    } else {
        text.take(if limit == 0 {
            0
        } else {
            limit - 1
        }) + seq!['…']
    }
}

/// Shortens display text for code scanning's limits, counting characters. The full query stays in the
/// rule's help text.
pub fn clip(text: &str, limit: usize) -> (c: String)
    ensures
        c@ == clip_of(text@, limit),
{
    let chars = chars_of(text);
    if chars.len() <= limit {
        return text.to_owned();
    }
    let keep = if limit == 0 {
        0
    } else {
        limit - 1
    };
    let mut c = string_of(&chars, 0, keep);
    push_char(&mut c, '…');
    c
}

/// Bytes that stay as they are in a URI: ASCII letters and digits, `-`, `.`, `_`, `~` and `/`.
pub open spec fn unreserved(b: u8) -> bool {
    (48 <= b <= 57) || (65 <= b <= 90) || (97 <= b <= 122) || b == 45 || b == 46 || b == 95 || b == 126
        || b == 47
}

/// The upper-case hex digit for a value below 16.
pub open spec fn hex_upper(d: u8) -> char {
    if d < 10 {
        ((d + 48) as u32) as char
    } else {
        ((d + 55) as u32) as char
    }
}

/// One byte, percent-encoded unless it is unreserved.
pub open spec fn encode_byte(b: u8) -> Seq<char> {
    if unreserved(b) {
        seq![(b as u32) as char]
    } else {
        seq!['%', hex_upper(b / 16), hex_upper(b % 16)]
    }
}

/// Percent-encoding of a byte string.
pub open spec fn encode_bytes(bytes: Seq<u8>) -> Seq<char>
    decreases bytes.len(),
{
    if bytes.len() == 0 {
        Seq::empty()
    } else {
        encode_bytes(bytes.drop_last()) + encode_byte(bytes.last())
    }
}

/// Appends `path` percent-encoded.
fn push_encoded(out: &mut String, path: &str)
    ensures
        final(out)@ == old(out)@ + encode_bytes(vstd::utf8::encode_utf8(path@)),
{
    let bytes = path.as_bytes();
    let mut i: usize = 0;
    while i < bytes.len()
        invariant
            i <= bytes@.len(),
            bytes@ == vstd::utf8::encode_utf8(path@),
            out@ == old(out)@ + encode_bytes(bytes@.take(i as int)),
        decreases bytes.len() - i,
    {
        let b = bytes[i];
        assert(bytes@.take(i + 1).drop_last() == bytes@.take(i as int));
        assert(bytes@.take(i + 1).last() == b);
        if (48 <= b && b <= 57) || (65 <= b && b <= 90) || (97 <= b && b <= 122) || b == 45 || b == 46
            || b == 95 || b == 126 || b == 47 {
            push_char(out, b as char);
        } else {
            push_char(out, '%');
            let hi = b / 16;
            let lo = b % 16;
            let h = if hi < 10 {
                (hi + 48) as char
            } else {
                (hi + 55) as char
            };
            let l = if lo < 10 {
                (lo + 48) as char
            } else {
                (lo + 55) as char
            };
            push_char(out, h);
            push_char(out, l);
        }
        i = i + 1;
    }
    assert(bytes@.take(bytes@.len() as int) == bytes@);
}

/// Percent-encodes everything but unreserved characters and `/`, byte by byte of the UTF-8 encoding.
/// Encoding `:` keeps a name like `odd:12` from reading as a URI scheme.
pub fn encode(path: &str) -> (e: String)
    ensures
        e@ == encode_bytes(vstd::utf8::encode_utf8(path@)),
{
    let mut e = String::new();
    push_encoded(&mut e, path);
    e
}

/// The characters an encoded path may hold: ASCII letters and digits, `-`, `.`, `_`, `~`, `/` and `%`.
pub open spec fn uri_char(c: char) -> bool {
    ('0' <= c <= '9') || ('A' <= c <= 'Z') || ('a' <= c <= 'z') || c == '-' || c == '.' || c == '_'
        || c == '~' || c == '/' || c == '%'
}

/// Encoded paths hold only URI-safe characters, so no `:` reads as a scheme and no space splits a URI;
/// every byte becomes one character or a `%XX` triple.
pub proof fn encoding_is_uri_safe(bytes: Seq<u8>)
    ensures
        forall|i: int| 0 <= i < encode_bytes(bytes).len() ==> #[trigger] uri_char(encode_bytes(bytes)[i]),
        encode_bytes(bytes).len() >= bytes.len(),
    decreases bytes.len(),
{
    if bytes.len() > 0 {
        encoding_is_uri_safe(bytes.drop_last());
        let prefix = encode_bytes(bytes.drop_last());
        let last = encode_byte(bytes.last());
        let b = bytes.last();
        assert(b / 16 < 16 && b % 16 < 16);
        assert forall|i: int| 0 <= i < last.len() implies #[trigger] uri_char(last[i]) by {
            if unreserved(b) {
                assert(last[i] == (b as u32) as char);
            }
        }
        assert forall|i: int| 0 <= i < encode_bytes(bytes).len() implies #[trigger] uri_char(
            encode_bytes(bytes)[i],
        ) by {
            if i < prefix.len() {
                assert(encode_bytes(bytes)[i] == prefix[i]);
            } else {
                assert(encode_bytes(bytes)[i] == last[i - prefix.len()]);
            }
        }
    }
}

/// Clipped text fits the limit (at least one character is always allowed, for the ellipsis), and text
/// within the limit is kept whole.
pub proof fn clip_fits(text: Seq<char>, limit: usize)
    ensures
        clip_of(text, limit).len() <= (if limit == 0 {
            1
        } else {
            limit as int
        }),
        text.len() <= limit ==> clip_of(text, limit) == text,
        text.len() > limit ==> clip_of(text, limit).last() == '…',
{
}

/// A relative path without its leading `./` segments.
pub open spec fn strip_dot_slash(path: Seq<char>) -> Seq<char>
    decreases path.len(),
{
    if path.len() >= 2 && path[0] == '.' && path[1] == '/' {
        strip_dot_slash(path.skip(2))
    } else {
        path
    }
}

/// Where a SARIF artifact is: absolute paths become `file://` URIs; relative paths, without leading `./`,
/// resolve against `%SRCROOT%`. The flag says whether the URI is relative.
pub open spec fn artifact_uri_of(path: Seq<char>) -> (Seq<char>, bool) {
    if path.len() > 0 && path[0] == '/' {
        ("file://"@ + encode_bytes(vstd::utf8::encode_utf8(path)), false)
    } else {
        (encode_bytes(vstd::utf8::encode_utf8(strip_dot_slash(path))), true)
    }
}

/// The URI of an artifact, and whether it is relative to `%SRCROOT%`.
pub fn artifact_uri(path: &str) -> (r: (String, bool))
    ensures
        (r.0@, r.1) == artifact_uri_of(path@),
{
    let chars = chars_of(path);
    if chars.len() > 0 && chars[0] == '/' {
        let mut uri = String::from_str("file://");
        push_encoded(&mut uri, path);
        return (uri, false);
    }
    let mut start: usize = 0;
    assert(path@.skip(0) == path@);
    while chars.len() - start >= 2 && chars[start] == '.' && chars[start + 1] == '/'
        invariant
            chars@ == path@,
            start <= chars@.len(),
            strip_dot_slash(path@) == strip_dot_slash(path@.skip(start as int)),
        decreases chars.len() - start,
    {
        assert(path@.skip(start as int).skip(2) == path@.skip(start + 2));
        start = start + 2;
    }
    assert(path@.skip(0) == path@);
    let rest = string_of(&chars, start, chars.len());
    assert(rest@ == path@.skip(start as int));
    (encode(rest.as_str()), true)
}

/// `s` without its trailing `/`s.
pub open spec fn trim_end_slashes(s: Seq<char>) -> Seq<char>
    decreases s.len(),
{
    if s.len() > 0 && s.last() == '/' {
        trim_end_slashes(s.drop_last())
    } else {
        s
    }
}

/// The `%SRCROOT%` URI for the directory ev-grep ran in: `file://`, the encoded path without trailing
/// slashes, and one `/`.
pub fn root_uri(cwd: &str) -> (uri: String)
    ensures
        uri@ == "file://"@ + encode_bytes(vstd::utf8::encode_utf8(trim_end_slashes(cwd@))) + seq!['/'],
{
    let chars = chars_of(cwd);
    let mut end = chars.len();
    assert(cwd@.take(cwd@.len() as int) == cwd@);
    while end > 0 && chars[end - 1] == '/'
        invariant
            chars@ == cwd@,
            end <= chars@.len(),
            trim_end_slashes(cwd@) == trim_end_slashes(cwd@.take(end as int)),
        decreases end,
    {
        assert(cwd@.take(end as int).drop_last() == cwd@.take(end - 1));
        end = end - 1;
    }
    assert(cwd@.take(cwd@.len() as int) == cwd@);
    let trimmed = string_of(&chars, 0, end);
    assert(trimmed@ == cwd@.take(end as int));
    let mut uri = String::from_str("file://");
    push_encoded(&mut uri, trimmed.as_str());
    push_char(&mut uri, '/');
    uri
}

/// SARIF levels: matches are warnings and uncertain results are notes; nonmatches are left out, as in
/// terminal output.
pub fn result_level(outcome: Outcome) -> (level: Option<&'static str>)
    ensures
        match outcome {
            Outcome::Match => level matches Some(l) && l@ == "warning"@,
            Outcome::Uncertain => level matches Some(l) && l@ == "note"@,
            Outcome::NoMatch => level is None,
        },
{
    match outcome {
        Outcome::Match => Some("warning"),
        Outcome::Uncertain => Some("note"),
        Outcome::NoMatch => None,
    }
}

/// The rule's help text, which keeps the whole query.
pub open spec fn rule_help_of(query: Seq<char>) -> Seq<char> {
    "ev-grep asked Jev whether each selected file or line range matches this query:\n\n"@ + query
        + "\n\nMatches are warnings. Uncertain results are notes: Jev lacked context or confidence, so a person should check them. Model results can be wrong; use them to decide what to read."@
}

pub fn rule_help(query: &str) -> (help: String)
    ensures
        help@ == rule_help_of(query@),
{
    let mut help = String::from_str(
        "ev-grep asked Jev whether each selected file or line range matches this query:\n\n",
    );
    help.append(query);
    help.append(
        "\n\nMatches are warnings. Uncertain results are notes: Jev lacked context or confidence, so a person should check them. Model results can be wrong; use them to decide what to read.",
    );
    help
}

/// The help holds the whole query as given, between a fixed introduction and a fixed closing: the help of any
/// query is the help of the empty query with that query inserted after the introduction's 80 characters.
pub proof fn rule_help_keeps_the_query(query: Seq<char>)
    ensures
        rule_help_of(query) == rule_help_of(Seq::empty()).take(80) + query + rule_help_of(Seq::empty()).skip(
            80,
        ),
        occurs_in(query, rule_help_of(query)),
{
    reveal_strlit("ev-grep asked Jev whether each selected file or line range matches this query:\n\n");
    let intro = "ev-grep asked Jev whether each selected file or line range matches this query:\n\n"@;
    let empty = rule_help_of(Seq::empty());
    assert(intro.len() == 80);
    assert(empty.take(80) =~= intro);
    assert(rule_help_of(query) =~= empty.take(80) + query + empty.skip(80));
    lemma_occurs(empty.take(80), query, empty.skip(80));
}

/// A result's message: the query's title, clipped, then the detail in parentheses.
pub fn result_message(query: &str, detail: &str) -> (m: String)
    ensures
        m@ == clip_of(title_of(query@), TITLE_CHARS) + " ("@ + detail@ + ")"@,
{
    let t = title(query);
    let mut m = clip(t.as_str(), TITLE_CHARS);
    m.append(" (");
    m.append(detail);
    m.append(")");
    m
}

} // verus!
