//! Search targets: a path, optionally narrowed to a range of lines, in the `PATH`, `PATH:N` or `PATH:N-M` form.

use vstd::prelude::*;

use crate::text::{
    all_digits, lemma_decimal, lemma_parse_decimal, chars_of, decimal, digits_value, is_digit, parse_decimal, parse_usize, push_char,
    push_decimal, string_of,
};

verus! {

broadcast use vstd::string::group_string_axioms;

/// Lines counted from 1, inclusive at both ends.
#[derive(Clone, Copy, Debug, PartialEq, Eq, Structural, Hash, PartialOrd, Ord)]
pub struct LineRange {
    pub start: usize,
    pub end: usize,
}

/// How a range is written: `N` for one line, `N-M` otherwise.
pub open spec fn range_text(lines: LineRange) -> Seq<char> {
    if lines.start == lines.end {
        decimal(lines.start as nat)
    } else {
        decimal(lines.start as nat) + seq!['-'] + decimal(lines.end as nat)
    }
}

impl LineRange {
    /// The range as ev-grep prints and accepts it: `N` for one line, `N-M` otherwise.
    pub fn display(&self) -> (text: String)
        ensures
            text@ == range_text(*self),
    {
        let mut text = String::new();
        push_decimal(&mut text, self.start);
        if self.start != self.end {
            push_char(&mut text, '-');
            push_decimal(&mut text, self.end);
        }
        text
    }
}

/// A path to search, optionally narrowed to lines of one file.
#[derive(Clone, Debug, PartialEq, Eq)]
pub struct Target {
    pub path: String,
    pub lines: Option<LineRange>,
}

/// Why an argument could not be read as a target.
#[derive(Clone, Debug, PartialEq, Eq)]
pub enum TargetError {
    /// The text after the last `:` looks like a range but is not `N` or `N-M` with `1 <= N <= M`.
    InvalidRange { range: String },
}

/// The message for a malformed range.
pub open spec fn invalid_range_message(range: Seq<char>) -> Seq<char> {
    "invalid line range \""@ + range + "\"; use N or N-M, counting lines from 1"@
}

impl TargetError {
    pub fn message(&self) -> (m: String)
        ensures
            match self {
                TargetError::InvalidRange { range } => m@ == invalid_range_message(range@),
            },
    {
        match self {
            TargetError::InvalidRange { range } => {
                proof {
                    reveal_strlit("invalid line range \"");
                    reveal_strlit("\"; use N or N-M, counting lines from 1");
                }
                let mut m = String::from_str("invalid line range \"");
                m.append(range.as_str());
                m.append("\"; use N or N-M, counting lines from 1");
                m
            },
        }
    }
}

/// The index of the last `c` in `s`.
pub open spec fn last_index(s: Seq<char>, c: char) -> Option<int>
    decreases s.len(),
{
    if s.len() == 0 {
        None
    } else if s.last() == c {
        Some(s.len() - 1)
    } else {
        last_index(s.drop_last(), c)
    }
}

/// The index of the first `c` in `s`.
pub open spec fn first_index(s: Seq<char>, c: char) -> Option<int>
    decreases s.len(),
{
    if s.len() == 0 {
        None
    } else if s[0] == c {
        Some(0)
    } else {
        match first_index(s.drop_first(), c) {
            Some(i) => Some(i + 1),
            None => None,
        }
    }
}

/// Where `first_index` and `last_index` point: at a `c`, with none before (or after) it.
pub proof fn lemma_index_bounds(s: Seq<char>, c: char)
    ensures
        first_index(s, c) matches Some(i) ==> 0 <= i < s.len() && s[i] == c && forall|j: int|
            0 <= j < i ==> s[j] != c,
        first_index(s, c) is None ==> forall|j: int| 0 <= j < s.len() ==> s[j] != c,
        last_index(s, c) matches Some(i) ==> 0 <= i < s.len() && s[i] == c && forall|j: int|
            i < j < s.len() ==> s[j] != c,
        last_index(s, c) is None ==> forall|j: int| 0 <= j < s.len() ==> s[j] != c,
    decreases s.len(),
{
    if s.len() > 0 {
        lemma_index_bounds(s.drop_first(), c);
        lemma_index_bounds(s.drop_last(), c);
        assert forall|j: int| 1 <= j < s.len() implies s[j] == s.drop_first()[j - 1] by {}
        assert forall|j: int| 0 <= j < s.len() - 1 implies s[j] == s.drop_last()[j] by {}
    }
}

/// A character that may appear in a range's text.
pub open spec fn is_range_char(c: char) -> bool {
    is_digit(c) || c == '-'
}

/// Text made only of digits and `-`, and not empty: what could be meant as a line range.
pub open spec fn looks_like_range(range: Seq<char>) -> bool {
    range.len() > 0 && forall|i: int| 0 <= i < range.len() ==> #[trigger] is_range_char(range[i])
}

/// A line number: a decimal numeral above 0 that fits in a `usize`.
pub open spec fn line_number(text: Seq<char>) -> Option<usize> {
    match parse_decimal(text) {
        Some(n) => if n > 0 {
            Some(n)
        } else {
            None
        },
        None => None,
    }
}

/// The two ends a range's text names: split at the first `-`, or the same number twice.
pub open spec fn range_ends(range: Seq<char>) -> (Seq<char>, Seq<char>) {
    match first_index(range, '-') {
        Some(j) => (range.take(j), range.skip(j + 1)),
        None => (range, range),
    }
}

/// What an argument denotes: `Ok` with a path and optional range, or `Err` with the malformed range text.
/// A path that exists is never split; otherwise the text after the last `:` is a range when it looks like one
/// and the text before it is not empty.
pub open spec fn parse_target(argument: Seq<char>, exists: bool) -> Result<
    (Seq<char>, Option<LineRange>),
    Seq<char>,
> {
    if exists {
        Ok((argument, None))
    } else {
        match last_index(argument, ':') {
            None => Ok((argument, None)),
            Some(k) => {
                let path = argument.take(k);
                let range = argument.skip(k + 1);
                if path.len() == 0 || !looks_like_range(range) {
                    Ok((argument, None))
                } else {
                    let (first, last) = range_ends(range);
                    match (line_number(first), line_number(last)) {
                        (Some(start), Some(end)) => if start <= end {
                            Ok((path, Some(LineRange { start, end })))
                        } else {
                            Err(range)
                        },
                        _ => Err(range),
                    }
                }
            },
        }
    }
}

/// The last `c` in `chars[..to]`.
fn find_last(chars: &Vec<char>, to: usize, c: char) -> (r: Option<usize>)
    requires
        to <= chars@.len(),
    ensures
        r == (match last_index(chars@.take(to as int), c) {
            Some(i) => Some(i as usize),
            None => None::<usize>,
        }),
        r matches Some(i) ==> i < to,
    decreases to,
{
    if to == 0 {
        return None;
    }
    assert(chars@.take(to as int).drop_last() == chars@.take(to - 1));
    proof {
        lemma_index_bounds(chars@.take(to - 1), c);
    }
    if chars[to - 1] == c {
        Some(to - 1)
    } else {
        find_last(chars, to - 1, c)
    }
}

/// The first `c` in `chars[from..to]`, as an offset from `from`.
fn find_first(chars: &Vec<char>, from: usize, to: usize, c: char) -> (r: Option<usize>)
    requires
        from <= to <= chars@.len(),
    ensures
        r == (match first_index(chars@.subrange(from as int, to as int), c) {
            Some(i) => Some(i as usize),
            None => None::<usize>,
        }),
        r matches Some(i) ==> i < to - from,
    decreases to - from,
{
    if from == to {
        return None;
    }
    let ghost s = chars@.subrange(from as int, to as int);
    assert(s.drop_first() == chars@.subrange(from + 1, to as int));
    proof {
        lemma_index_bounds(s.drop_first(), c);
    }
    if chars[from] == c {
        Some(0)
    } else {
        match find_first(chars, from + 1, to, c) {
            Some(i) => Some(i + 1),
            None => None,
        }
    }
}

/// The line number written in `chars[from..to]`.
fn line_at(chars: &Vec<char>, from: usize, to: usize) -> (r: Option<usize>)
    requires
        from <= to <= chars@.len(),
    ensures
        r == line_number(chars@.subrange(from as int, to as int)),
{
    match parse_usize(chars, from, to) {
        Some(n) => if n > 0 {
            Some(n)
        } else {
            None
        },
        None => None,
    }
}

impl Target {
    /// The view of a target: its path's characters and its range.
    pub open spec fn view_pair(self) -> (Seq<char>, Option<LineRange>) {
        (self.path@, self.lines)
    }

    #[verifier::rlimit(50)]
    #[verifier::spinoff_prover]
    /// Parses `PATH`, `PATH:N`, or `PATH:N-M`. An argument naming an existing path (`exists`) is never
    /// split, so a file whose name ends in `:12` stays searchable.
    pub fn parse(argument: &str, exists: bool) -> (r: Result<Target, TargetError>)
        ensures
            match (r, parse_target(argument@, exists)) {
                (Ok(t), Ok(v)) => t.view_pair() == v,
                (Err(TargetError::InvalidRange { range }), Err(v)) => range@ == v,
                _ => false,
            },
    {
        let whole = Target { path: argument.to_owned(), lines: None };
        if exists {
            return Ok(whole);
        }
        let chars = chars_of(argument);
        let n = chars.len();
        assert(chars@.take(n as int) == chars@);
        proof {
            lemma_index_bounds(argument@, ':');
        }
        let k = match find_last(&chars, n, ':') {
            Some(k) => k,
            None => {
                return Ok(whole);
            },
        };
        let ghost range = argument@.skip(k + 1);
        assert(range == chars@.subrange(k + 1, n as int));
        let mut looks = true;
        let mut i = k + 1;
        while i < n
            invariant
                k < n == chars@.len(),
                k + 1 <= i <= n,
                range == chars@.subrange(k + 1, n as int),
                looks == (forall|j: int| 0 <= j < i - (k + 1) ==> #[trigger] is_range_char(range[j])),
            decreases n - i,
        {
            let c = chars[i];
            assert(c == range[i - (k + 1)]);
            let ok = ('0' <= c && c <= '9') || c == '-';
            assert(ok == is_range_char(range[i - (k + 1)]));
            let ghost before = looks;
            looks = looks && ok;
            proof {
                if looks {
                    assert forall|j: int| 0 <= j < i + 1 - (k + 1) implies #[trigger] is_range_char(
                        range[j],
                    ) by {
                        if j < i - (k + 1) {
                            assert(before);
                        }
                    }
                } else if !ok {
                    assert(!is_range_char(range[i - (k + 1)]));
                }
            }
            i = i + 1;
        }
        if k == 0 || k + 1 == n || !looks {
            return Ok(whole);
        }
        let (first_end, last_start) = match find_first(&chars, k + 1, n, '-') {
            Some(j) => (k + 1 + j, k + 2 + j),
            None => (n, k + 1),
        };
        proof {
            assert(argument@.take(k as int) == chars@.subrange(0, k as int));
            lemma_index_bounds(range, '-');
            match first_index(range, '-') {
                Some(j) => {
                    assert(range.take(j) == chars@.subrange(k + 1, k + 1 + j));
                    assert(range.skip(j + 1) == chars@.subrange(k + 2 + j, n as int));
                },
                None => {},
            }
        }
        match (line_at(&chars, k + 1, first_end), line_at(&chars, last_start, n)) {
            (Some(start), Some(end)) => {
                if start <= end {
                    return Ok(
                        Target { path: string_of(&chars, 0, k), lines: Some(LineRange { start, end }) },
                    );
                }
            },
            _ => {},
        }
        Err(TargetError::InvalidRange { range: string_of(&chars, k + 1, n) })
    }
}

/// How a location is written: `PATH` or `PATH:N-M` (or `PATH:N` for one line).
pub open spec fn label_text(path: Seq<char>, lines: Option<LineRange>) -> Seq<char> {
    match lines {
        Some(lines) => path + seq![':'] + range_text(lines),
        None => path,
    }
}

/// Formats a location the way ev-grep accepts it: `PATH` or `PATH:N-M`.
pub fn label(path: &str, lines: Option<LineRange>) -> (text: String)
    ensures
        text@ == label_text(path@, lines),
{
    let mut text = path.to_owned();
    if let Some(lines) = lines {
        push_char(&mut text, ':');
        let range = lines.display();
        text.append(range.as_str());
    }
    text
}

/// `last_index` finds the separator when nothing after it is one.
proof fn lemma_last_index_after(a: Seq<char>, b: Seq<char>, c: char)
    requires
        forall|j: int| 0 <= j < b.len() ==> b[j] != c,
    ensures
        last_index(a + seq![c] + b, c) == Some(a.len() as int),
    decreases b.len(),
{
    let s = a + seq![c] + b;
    if b.len() == 0 {
        assert(s.last() == c);
    } else {
        assert(s.last() == b.last());
        assert(s.drop_last() == a + seq![c] + b.drop_last());
        lemma_last_index_after(a, b.drop_last(), c);
    }
}

/// `first_index` finds the separator when nothing before it is one.
proof fn lemma_first_index_after(a: Seq<char>, b: Seq<char>, c: char)
    requires
        forall|j: int| 0 <= j < a.len() ==> a[j] != c,
    ensures
        first_index(a + seq![c] + b, c) == Some(a.len() as int),
    decreases a.len(),
{
    let s = a + seq![c] + b;
    if a.len() == 0 {
        assert(s[0] == c);
    } else {
        assert(s[0] == a[0]);
        assert(s.drop_first() == a.drop_first() + seq![c] + b);
        lemma_first_index_after(a.drop_first(), b, c);
    }
}

/// A decimal numeral of a positive number is read back as that line number.
proof fn lemma_line_number(n: usize)
    requires
        n > 0,
    ensures
        line_number(decimal(n as nat)) == Some(n),
        forall|j: int|
            0 <= j < decimal(n as nat).len() ==> #[trigger] is_digit(decimal(n as nat)[j]),
{
    lemma_parse_decimal(n);
    lemma_decimal(n as nat);
}

/// What ev-grep prints for a ranged result is accepted again as the same target: the label of a non-empty
/// path with a valid range (`1 <= start <= end`) parses back to that path and range, when no file bears the
/// label itself as its name.
pub proof fn label_round_trip(path: Seq<char>, lines: LineRange)
    requires
        path.len() > 0,
        1 <= lines.start <= lines.end,
    ensures
        parse_target(label_text(path, Some(lines)), false) == Ok::<
            (Seq<char>, Option<LineRange>),
            Seq<char>,
        >((path, Some(lines))),
{
    let t = range_text(lines);
    let arg = label_text(path, Some(lines));
    lemma_line_number(lines.start);
    lemma_line_number(lines.end);
    let ds = decimal(lines.start as nat);
    let de = decimal(lines.end as nat);
    assert forall|j: int| 0 <= j < t.len() implies #[trigger] is_range_char(t[j]) && t[j] != ':' by {
        if lines.start != lines.end {
            if j < ds.len() {
                assert(t[j] == ds[j]);
            } else if j > ds.len() {
                assert(t[j] == de[j - ds.len() - 1]);
            }
        }
    }
    assert forall|j: int| 0 <= j < t.len() implies t[j] != ':' by {
        assert(is_range_char(t[j]));
    }
    lemma_last_index_after(path, t, ':');
    assert(arg.take(path.len() as int) == path);
    assert(arg.skip(path.len() as int + 1) == t);
    if lines.start == lines.end {
        lemma_index_bounds(t, '-');
        assert forall|j: int| 0 <= j < ds.len() implies ds[j] != '-' by {
            assert(is_digit(ds[j]));
        }
    } else {
        assert forall|j: int| 0 <= j < ds.len() implies ds[j] != '-' by {
            assert(is_digit(ds[j]));
        }
        lemma_first_index_after(ds, de, '-');
        assert(t.take(ds.len() as int) == ds);
        assert(t.skip(ds.len() as int + 1) == de);
    }
}

} // verus!
