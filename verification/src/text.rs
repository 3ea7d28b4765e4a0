//! Character-level helpers shared by the parsers and formatters: strings as character sequences, Unicode
//! whitespace, trimming, and decimal numerals.

use vstd::prelude::*;

verus! {

broadcast use vstd::string::group_string_axioms;

/// `t` appears in `s` as a contiguous run.
pub open spec fn occurs_in<A>(t: Seq<A>, s: Seq<A>) -> bool {
    exists|i: int| 0 <= i && i + t.len() <= s.len() && #[trigger] s.subrange(i, i + t.len()) == t
}

/// A run placed between two others occurs in the whole.
pub proof fn lemma_occurs<A>(a: Seq<A>, t: Seq<A>, b: Seq<A>)
    ensures
        occurs_in(t, a + t + b),
{
    let s = a + t + b;
    assert(s.subrange(a.len() as int, (a.len() + t.len()) as int) =~= t);
}

/// A run that occurs in `s` occurs in `s` followed by anything.
pub proof fn lemma_occurs_extend<A>(t: Seq<A>, s: Seq<A>, r: Seq<A>)
    requires
        occurs_in(t, s),
    ensures
        occurs_in(t, s + r),
{
    let i = choose|i: int| 0 <= i && i + t.len() <= s.len() && #[trigger] s.subrange(i, i + t.len()) == t;
    assert((s + r).subrange(i, i + t.len()) =~= s.subrange(i, i + t.len()));
}

/// A run that occurs in `s` occurs in `s` with anything around it.
pub proof fn lemma_occurs_within<A>(t: Seq<A>, a: Seq<A>, s: Seq<A>, b: Seq<A>)
    requires
        occurs_in(t, s),
    ensures
        occurs_in(t, a + s + b),
{
    let i = choose|i: int| 0 <= i && i + t.len() <= s.len() && #[trigger] s.subrange(i, i + t.len()) == t;
    let j = i + a.len();
    assert((a + s + b).subrange(j, j + t.len()) =~= s.subrange(i, i + t.len()));
}

/// The characters of `s`, in order.
pub fn chars_of(s: &str) -> (out: Vec<char>)
    ensures
        out@ == s@,
{
    let mut out: Vec<char> = Vec::new();
    for c in it: s.chars()
        invariant
            out@ == it.seq().take(it.index() as int),
    {
        out.push(c);
    }
    out
}

/// `String::push` from std: appends one character.
#[verifier::external_body]
pub(crate) fn push_char(s: &mut String, c: char)
    ensures
        final(s)@ == old(s)@.push(c),
{
    s.push(c);
}

/// Appends the characters `chars[from..to]` to `out`.
pub fn push_slice(out: &mut String, chars: &Vec<char>, from: usize, to: usize)
    requires
        from <= to <= chars@.len(),
    ensures
        final(out)@ == old(out)@ + chars@.subrange(from as int, to as int),
{
    let mut i = from;
    while i < to
        invariant
            from <= i <= to <= chars@.len(),
            out@ == old(out)@ + chars@.subrange(from as int, i as int),
        decreases to - i,
    {
        push_char(out, chars[i]);
        i = i + 1;
        assert(chars@.subrange(from as int, i as int) == chars@.subrange(from as int, i - 1).push(
            chars@[i - 1],
        ));
    }
}

/// A string holding `chars[from..to]`.
pub fn string_of(chars: &Vec<char>, from: usize, to: usize) -> (out: String)
    requires
        from <= to <= chars@.len(),
    ensures
        out@ == chars@.subrange(from as int, to as int),
{
    let mut out = String::new();
    push_slice(&mut out, chars, from, to);
    out
}

/// Whether two strings hold the same characters.
pub fn str_eq(a: &str, b: &str) -> (eq: bool)
    ensures
        eq == (a@ == b@),
{
    let a = a.to_owned();
    let b = b.to_owned();
    a == b
}

/// Unicode's White_Space property, which `char::is_whitespace` and `str::trim` use.
pub open spec fn is_whitespace(c: char) -> bool {
    ||| c == '\t' || c == '\n' || c == '\x0B' || c == '\x0C' || c == '\r' || c == ' '
    ||| c == '\u{85}' || c == '\u{A0}' || c == '\u{1680}'
    ||| ('\u{2000}' <= c && c <= '\u{200A}')
    ||| c == '\u{2028}' || c == '\u{2029}' || c == '\u{202F}' || c == '\u{205F}' || c == '\u{3000}'
}

/// `char::is_whitespace`.
pub fn char_is_whitespace(c: char) -> (b: bool)
    ensures
        b == is_whitespace(c),
{
    c == '\t' || c == '\n' || c == '\x0B' || c == '\x0C' || c == '\r' || c == ' ' || c == '\u{85}'
        || c == '\u{A0}' || c == '\u{1680}' || ('\u{2000}' <= c && c <= '\u{200A}') || c == '\u{2028}'
        || c == '\u{2029}' || c == '\u{202F}' || c == '\u{205F}' || c == '\u{3000}'
}

/// Every character is whitespace: what `s.trim().is_empty()` tests.
pub open spec fn is_blank(s: Seq<char>) -> bool {
    forall|i: int| 0 <= i < s.len() ==> #[trigger] is_whitespace(s[i])
}

/// `s` without its leading whitespace.
pub open spec fn trim_start(s: Seq<char>) -> Seq<char>
    decreases s.len(),
{
    if s.len() > 0 && is_whitespace(s[0]) {
        trim_start(s.drop_first())
    } else {
        s
    }
}

/// `s` without its trailing whitespace.
pub open spec fn trim_end(s: Seq<char>) -> Seq<char>
    decreases s.len(),
{
    if s.len() > 0 && is_whitespace(s.last()) {
        trim_end(s.drop_last())
    } else {
        s
    }
}

/// `s` without leading and trailing whitespace, as `str::trim` returns it.
pub open spec fn trim(s: Seq<char>) -> Seq<char> {
    trim_end(trim_start(s))
}

/// The index of the first character that is not whitespace, or the length.
pub open spec fn first_non_blank(s: Seq<char>, from: int) -> int
    decreases s.len() - from,
{
    if from < s.len() && is_whitespace(s[from]) {
        first_non_blank(s, from + 1)
    } else {
        from
    }
}

/// `trim_start` of a suffix is the suffix from its first non-blank character.
pub proof fn lemma_trim_start_index(s: Seq<char>, from: int)
    requires
        0 <= from <= s.len(),
    ensures
        from <= first_non_blank(s, from) <= s.len(),
        trim_start(s.subrange(from, s.len() as int)) == s.subrange(
            first_non_blank(s, from),
            s.len() as int,
        ),
        forall|i: int| from <= i < first_non_blank(s, from) ==> #[trigger] is_whitespace(s[i]),
        first_non_blank(s, from) < s.len() ==> !is_whitespace(s[first_non_blank(s, from)]),
    decreases s.len() - from,
{
    let sub = s.subrange(from, s.len() as int);
    if from < s.len() && is_whitespace(s[from]) {
        lemma_trim_start_index(s, from + 1);
        assert(sub.drop_first() == s.subrange(from + 1, s.len() as int));
    }
}

/// The index just past the last character that is not whitespace in `s[..to]`, or 0.
pub open spec fn last_non_blank(s: Seq<char>, to: int) -> int
    decreases to,
{
    if 0 < to && is_whitespace(s[to - 1]) {
        last_non_blank(s, to - 1)
    } else {
        to
    }
}

/// `trim_end` of a prefix is the prefix up to its last non-blank character.
pub proof fn lemma_trim_end_index(s: Seq<char>, to: int)
    requires
        0 <= to <= s.len(),
    ensures
        0 <= last_non_blank(s, to) <= to,
        trim_end(s.subrange(0, to)) == s.subrange(0, last_non_blank(s, to)),
        forall|i: int| last_non_blank(s, to) <= i < to ==> #[trigger] is_whitespace(s[i]),
        last_non_blank(s, to) > 0 ==> !is_whitespace(s[last_non_blank(s, to) - 1]),
    decreases to,
{
    let sub = s.subrange(0, to);
    if 0 < to && is_whitespace(s[to - 1]) {
        lemma_trim_end_index(s, to - 1);
        assert(sub.drop_last() == s.subrange(0, to - 1));
    }
}

/// The trimmed text is empty exactly when every character is whitespace.
pub proof fn lemma_trim_empty(s: Seq<char>)
    ensures
        (trim(s).len() == 0) == is_blank(s),
{
    lemma_trim_start_index(s, 0);
    assert(s.subrange(0, s.len() as int) == s);
    let f = first_non_blank(s, 0);
    let t = s.subrange(f, s.len() as int);
    lemma_trim_end_index(t, t.len() as int);
    assert(t.subrange(0, t.len() as int) == t);
    if f < s.len() {
        assert(!is_whitespace(t[0]));
        assert(last_non_blank(t, t.len() as int) > 0) by {
            if last_non_blank(t, t.len() as int) == 0 {
                assert(is_whitespace(t[0]));
            }
        }
        assert(!is_whitespace(s[f]));
    } else {
        assert(forall|i: int| 0 <= i < s.len() ==> #[trigger] is_whitespace(s[i]));
    }
}

/// Bounds of `trim(s)` in `s`: the trimmed text is `s[start..end]`.
pub fn trim_bounds(chars: &Vec<char>) -> (r: (usize, usize))
    ensures
        r.0 <= r.1 <= chars@.len(),
        chars@.subrange(r.0 as int, r.1 as int) == trim(chars@),
{
    let mut start: usize = 0;
    while start < chars.len() && char_is_whitespace(chars[start])
        invariant
            start <= chars@.len(),
            first_non_blank(chars@, 0) == first_non_blank(chars@, start as int),
        decreases chars.len() - start,
    {
        start = start + 1;
    }
    let mut end: usize = chars.len();
    let ghost t = chars@.subrange(start as int, chars@.len() as int);
    while end > start && char_is_whitespace(chars[end - 1])
        invariant
            start <= end <= chars@.len(),
            t == chars@.subrange(start as int, chars@.len() as int),
            last_non_blank(t, t.len() as int) == last_non_blank(t, end - start),
        decreases end,
    {
        assert(t[end - start - 1] == chars@[end - 1]);
        end = end - 1;
    }
    proof {
        lemma_trim_start_index(chars@, 0);
        assert(chars@.subrange(0, chars@.len() as int) == chars@);
        lemma_trim_end_index(t, t.len() as int);
        assert(t.subrange(0, t.len() as int) == t);
        if end > start {
            assert(t[end - start - 1] == chars@[end - 1]);
        }
        assert(t.subrange(0, end - start) == chars@.subrange(start as int, end as int));
    }
    (start, end)
}

/// `s.trim()` as an owned string.
pub fn trim_string(s: &str) -> (t: String)
    ensures
        t@ == trim(s@),
{
    let chars = chars_of(s);
    let (start, end) = trim_bounds(&chars);
    string_of(&chars, start, end)
}

/// Whether every character of `s` is whitespace, as `s.trim().is_empty()` is.
pub fn blank(s: &str) -> (b: bool)
    ensures
        b == is_blank(s@),
{
    let chars = chars_of(s);
    let mut i: usize = 0;
    while i < chars.len()
        invariant
            i <= chars@.len(),
            chars@ == s@,
            forall|j: int| 0 <= j < i ==> #[trigger] is_whitespace(chars@[j]),
        decreases chars.len() - i,
    {
        if !char_is_whitespace(chars[i]) {
            return false;
        }
        i = i + 1;
    }
    true
}

/// An ASCII decimal digit.
pub open spec fn is_digit(c: char) -> bool {
    '0' <= c && c <= '9'
}

/// The value of one decimal digit.
pub open spec fn digit_value(c: char) -> nat {
    (c as int - '0' as int) as nat
}

/// The digit for `d`, which is below 10.
pub open spec fn digit_char(d: nat) -> char {
    ((d + '0' as int) as u32) as char
}

/// The value of a string of decimal digits; leading zeros add nothing.
pub open spec fn digits_value(s: Seq<char>) -> nat
    decreases s.len(),
{
    if s.len() == 0 {
        0
    } else {
        digits_value(s.drop_last()) * 10 + digit_value(s.last())
    }
}

/// Every character is a decimal digit.
pub open spec fn all_digits(s: Seq<char>) -> bool {
    forall|i: int| 0 <= i < s.len() ==> #[trigger] is_digit(s[i])
}

/// The shortest decimal numeral of `n`, as `{}` formats an unsigned integer.
pub open spec fn decimal(n: nat) -> Seq<char>
    decreases n,
{
    if n < 10 {
        seq![digit_char(n)]
    } else {
        decimal(n / 10).push(digit_char(n % 10))
    }
}

/// What `text.parse::<usize>()` gives for a string of ASCII digits: its value when the string is not empty
/// and the value fits in a `usize`.
pub open spec fn parse_decimal(s: Seq<char>) -> Option<usize> {
    if s.len() > 0 && all_digits(s) && digits_value(s) <= usize::MAX {
        Some(digits_value(s) as usize)
    } else {
        None
    }
}

pub proof fn lemma_digit_char(d: nat)
    requires
        d < 10,
    ensures
        is_digit(digit_char(d)),
        digit_value(digit_char(d)) == d,
{
    assert(('0' as int) == 48);
    assert((d + 48) as u32 as char as int == d + 48);
}

/// The decimal numeral of `n` is all digits, not empty, and denotes `n`.
pub proof fn lemma_decimal(n: nat)
    ensures
        decimal(n).len() > 0,
        all_digits(decimal(n)),
        digits_value(decimal(n)) == n,
    decreases n,
{
    lemma_digit_char(n % 10);
    if n >= 10 {
        lemma_decimal(n / 10);
        let d = decimal(n);
        assert(d.drop_last() == decimal(n / 10));
        assert(d.last() == digit_char(n % 10));
        assert(digits_value(d) == digits_value(decimal(n / 10)) * 10 + digit_value(digit_char(n % 10)));
        assert(n == (n / 10) * 10 + n % 10);
        assert forall|i: int| 0 <= i < d.len() implies #[trigger] is_digit(d[i]) by {
            if i < d.len() - 1 {
                assert(d[i] == decimal(n / 10)[i]);
            }
        }
    } else {
        let d = decimal(n);
        assert(d.drop_last() =~= Seq::<char>::empty());
        assert(digits_value(d.drop_last()) == 0);
        assert(d.last() == digit_char(n));
        assert(digits_value(d) == digit_value(digit_char(n)));
    }
}

/// Reading back what `decimal` wrote gives the number again.
pub proof fn lemma_parse_decimal(n: usize)
    ensures
        parse_decimal(decimal(n as nat)) == Some(n),
{
    lemma_decimal(n as nat);
}

/// A prefix of digits never denotes more than the whole string.
pub proof fn lemma_digits_prefix(s: Seq<char>, k: int)
    requires
        0 <= k <= s.len(),
    ensures
        digits_value(s.subrange(0, k)) <= digits_value(s),
    decreases s.len() - k,
{
    if k < s.len() {
        lemma_digits_prefix(s, k + 1);
        assert(s.subrange(0, k + 1).drop_last() == s.subrange(0, k));
    } else {
        assert(s.subrange(0, k) == s);
    }
}

/// The character for the digit `d`.
pub fn digit(d: usize) -> (c: char)
    requires
        d < 10,
    ensures
        c == digit_char(d as nat),
        is_digit(c),
{
    proof {
        lemma_digit_char(d as nat);
    }
    ((d as u8) + 48u8) as char
}

/// Appends the decimal numeral of `n`, as `{}` formats it.
pub fn push_decimal(out: &mut String, n: usize)
    ensures
        final(out)@ == old(out)@ + decimal(n as nat),
    decreases n,
{
    if n >= 10 {
        push_decimal(out, n / 10);
    }
    let c = digit(n % 10);
    push_char(out, c);
    assert(old(out)@ + decimal(n as nat) == old(out)@ + (if n >= 10 {
        decimal((n / 10) as nat)
    } else {
        Seq::<char>::empty()
    }) + seq![c]);
}

/// The value of the digits `chars[from..to]`, as `text.parse::<usize>()` reads a string of ASCII digits.
pub fn parse_usize(chars: &Vec<char>, from: usize, to: usize) -> (r: Option<usize>)
    requires
        from <= to <= chars@.len(),
    ensures
        r == parse_decimal(chars@.subrange(from as int, to as int)),
{
    let ghost s = chars@.subrange(from as int, to as int);
    if from == to {
        return None;
    }
    let mut i = from;
    while i < to
        invariant
            from <= i <= to <= chars@.len(),
            s == chars@.subrange(from as int, to as int),
            forall|j: int| 0 <= j < i - from ==> #[trigger] is_digit(s[j]),
        decreases to - i,
    {
        let c = chars[i];
        if !('0' <= c && c <= '9') {
            assert(!is_digit(s[i - from]));
            return None;
        }
        i = i + 1;
    }
    let mut value: usize = 0;
    let mut i = from;
    while i < to
        invariant
            from <= i <= to <= chars@.len(),
            s == chars@.subrange(from as int, to as int),
            all_digits(s),
            value as nat == digits_value(s.subrange(0, i - from)),
        decreases to - i,
    {
        let c = chars[i];
        assert(c == s[i - from]);
        assert(is_digit(c));
        let d = ((c as u32) - 48) as usize;
        assert(s.subrange(0, i + 1 - from).drop_last() == s.subrange(0, i - from));
        proof {
            lemma_digits_prefix(s, i + 1 - from);
        }
        match value.checked_mul(10) {
            Some(v) => match v.checked_add(d) {
                Some(w) => {
                    value = w;
                },
                None => {
                    return None;
                },
            },
            None => {
                return None;
            },
        }
        i = i + 1;
    }
    assert(s.subrange(0, to - from) == s);
    Some(value)
}

/// What the error of `String::from_utf8` says of invalid bytes, as its `Display` writes it.
pub uninterp spec fn utf8_error_text(bytes: Seq<u8>) -> Seq<char>;

/// `String::from_utf8` from std: the text the bytes encode when they are valid UTF-8, else the error's
/// description (its wording is named, not stated).
#[verifier::external_body]
pub(crate) fn utf8_string(bytes: Vec<u8>) -> (r: Result<String, String>)
    ensures
        match r {
            Ok(text) => vstd::utf8::valid_utf8(bytes@) && text@ == vstd::utf8::decode_utf8(bytes@),
            Err(detail) => !vstd::utf8::valid_utf8(bytes@) && detail@ == utf8_error_text(bytes@),
        },
{
    match String::from_utf8(bytes) {
        Ok(text) => Ok(text),
        Err(error) => Err(error.to_string()),
    }
}

/// Whether `bytes` holds a NUL byte.
pub fn contains_nul(bytes: &Vec<u8>) -> (b: bool)
    ensures
        b == bytes@.contains(0u8),
{
    let mut i: usize = 0;
    while i < bytes.len()
        invariant
            i <= bytes@.len(),
            forall|j: int| 0 <= j < i ==> bytes@[j] != 0u8,
        decreases bytes.len() - i,
    {
        if bytes[i] == 0 {
            assert(bytes@[i as int] == 0u8);
            return true;
        }
        i = i + 1;
    }
    false
}

} // verus!
