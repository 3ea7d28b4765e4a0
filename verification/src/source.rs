//! Source files as the search reads them: binary detection, size limits, UTF-8, and the lines a ranged search
//! assesses.

use vstd::prelude::*;

use crate::target::{label, label_text, range_text, LineRange, Target};
use crate::text::{
    blank, chars_of, contains_nul, decimal, is_blank, push_decimal, string_of, utf8_error_text,
    utf8_string,
};

verus! {

broadcast use vstd::string::group_string_axioms;

/// The largest source file the search sends, in bytes.
pub const MAX_FILE_BYTES: usize = 65536;

/// The largest query, in bytes.
pub const MAX_QUERY_BYTES: usize = 8192;

/// How many leading bytes are checked for NUL before the size limit applies.
pub const BINARY_PREFIX_BYTES: usize = 8192;

/// A text file to assess.
#[derive(Debug)]
pub struct Source {
    pub path: String,
    /// The whole file, even when a line range narrows the search; the rest of the file is context.
    pub text: String,
    pub focus: Option<Focus>,
}

/// The lines a ranged search assesses, copied from the file with their line endings.
#[derive(Debug)]
pub struct Focus {
    pub lines: LineRange,
    pub text: String,
}

impl Source {
    /// The range of the focus, if any.
    pub open spec fn focus_lines(self) -> Option<LineRange> {
        match self.focus {
            Some(focus) => Some(focus.lines),
            None => None,
        }
    }

    /// Where the source is, as ev-grep prints it: `PATH` or `PATH:N-M`.
    pub fn label(&self) -> (text: String)
        ensures
            text@ == label_text(self.path@, self.focus_lines()),
    {
        let lines = match &self.focus {
            Some(focus) => Some(focus.lines),
            None => None,
        };
        label(self.path.as_str(), lines)
    }
}

/// What reading a path gave: text to assess, or a binary file to skip.
#[derive(Debug)]
pub enum SourceRead {
    Text(Source),
    Binary,
}

/// Why a source could not be read.
#[derive(Clone, Debug, PartialEq, Eq)]
pub enum SourceError {
    /// The path names a directory, a symbolic link or a special file.
    NotRegularFile,
    /// The file holds more than `MAX_FILE_BYTES` bytes.
    TooLarge,
    /// The file is not valid UTF-8; `detail` describes where.
    NotUtf8 { detail: String },
    /// A line range reaches past the file's last line (or starts at 0, or ends before it starts).
    RangeOutside { lines: LineRange, count: usize },
}

pub open spec fn source_error_message(error: SourceError) -> Seq<char> {
    match error {
        SourceError::NotRegularFile => "expected a regular file; symbolic links are not followed"@,
        SourceError::TooLarge => "file exceeds 65536 bytes; source was not truncated"@,
        SourceError::NotUtf8 { detail } => "source is not valid UTF-8: "@ + detail@,
        SourceError::RangeOutside { lines, count } => "line range "@ + range_text(lines)
            + " is outside the file, which has "@ + decimal(count as nat) + " lines"@,
    }
}

impl SourceError {
    pub fn message(&self) -> (m: String)
        ensures
            m@ == source_error_message(*self),
    {
        proof {
            reveal_strlit("expected a regular file; symbolic links are not followed");
            reveal_strlit("file exceeds 65536 bytes; source was not truncated");
            reveal_strlit("source is not valid UTF-8: ");
            reveal_strlit("line range ");
            reveal_strlit(" is outside the file, which has ");
            reveal_strlit(" lines");
        }
        match self {
            SourceError::NotRegularFile => String::from_str(
                "expected a regular file; symbolic links are not followed",
            ),
            SourceError::TooLarge => String::from_str(
                "file exceeds 65536 bytes; source was not truncated",
            ),
            SourceError::NotUtf8 { detail } => {
                let mut m = String::from_str("source is not valid UTF-8: ");
                m.append(detail.as_str());
                m
            },
            SourceError::RangeOutside { lines, count } => {
                let mut m = String::from_str("line range ");
                let range = lines.display();
                m.append(range.as_str());
                m.append(" is outside the file, which has ");
                push_decimal(&mut m, *count);
                m.append(" lines");
                m
            },
        }
    }
}

/// What the first bytes of a regular file decide before the rest is read.
#[derive(Clone, Copy, Debug, PartialEq, Eq)]
pub enum PrefixCheck {
    /// A NUL byte: the file is skipped as binary.
    Binary,
    /// No NUL byte, but the file is larger than `MAX_FILE_BYTES`.
    TooLarge,
    /// Read the rest of the file, up to one byte past the limit.
    ReadRest,
}

/// Binary detection checks the first bytes (at most `BINARY_PREFIX_BYTES`) before the size limit applies, so
/// a binary file of any size is skipped; a text file whose length is over the limit is an error.
pub fn check_prefix(prefix: &Vec<u8>, file_len: u64) -> (r: PrefixCheck)
    ensures
        r == (if prefix@.contains(0u8) {
            PrefixCheck::Binary
        } else if file_len > MAX_FILE_BYTES {
            PrefixCheck::TooLarge
        } else {
            PrefixCheck::ReadRest
        }),
{
    if contains_nul(prefix) {
        PrefixCheck::Binary
    } else if file_len > MAX_FILE_BYTES as u64 {
        PrefixCheck::TooLarge
    } else {
        PrefixCheck::ReadRest
    }
}

/// What the whole of a file's bytes (as read, at most one past the limit) make of it: too large, binary, text,
/// or not UTF-8, checked in that order. Source text is never truncated.
pub fn decode_source(path: String, bytes: Vec<u8>) -> (r: Result<SourceRead, SourceError>)
    ensures
        bytes@.len() > MAX_FILE_BYTES ==> r == Err::<SourceRead, SourceError>(SourceError::TooLarge),
        bytes@.len() <= MAX_FILE_BYTES && bytes@.contains(0u8) ==> r matches Ok(SourceRead::Binary),
        bytes@.len() <= MAX_FILE_BYTES && !bytes@.contains(0u8) ==> match r {
            Ok(SourceRead::Text(source)) => vstd::utf8::valid_utf8(bytes@) && source.text@
                == vstd::utf8::decode_utf8(bytes@) && source.path@ == path@ && source.focus is None,
            Err(SourceError::NotUtf8 { detail }) => !vstd::utf8::valid_utf8(bytes@) && detail@
                == utf8_error_text(bytes@),
            _ => false,
        },
{
    if bytes.len() > MAX_FILE_BYTES {
        return Err(SourceError::TooLarge);
    }
    if contains_nul(&bytes) {
        return Ok(SourceRead::Binary);
    }
    match utf8_string(bytes) {
        Ok(text) => Ok(SourceRead::Text(Source { path, text, focus: None })),
        Err(detail) => Err(SourceError::NotUtf8 { detail }),
    }
}

/// The lines of `text`: each ends at `\n`, and a final line without one still counts.
pub open spec fn lines_of(text: Seq<char>) -> Seq<Seq<char>>
    decreases text.len(),
{
    if text.len() == 0 {
        Seq::empty()
    } else {
        match crate::target::first_index(text, '\n') {
            Some(i) => if 0 <= i < text.len() {
                seq![text.take(i + 1)] + lines_of(text.skip(i + 1))
            } else {
                seq![text]
            },
            None => seq![text],
        }
    }
}

/// The lines joined back together.
pub open spec fn concat(lines: Seq<Seq<char>>) -> Seq<char>
    decreases lines.len(),
{
    if lines.len() == 0 {
        Seq::empty()
    } else {
        concat(lines.drop_last()) + lines.last()
    }
}

/// The text of lines `start..=end`, counted from 1, or `None` when the range starts at 0, ends past the last
/// line, or ends before the line preceding its start.
pub open spec fn excerpt_of(text: Seq<char>, lines: LineRange) -> Option<Seq<char>> {
    let all = lines_of(text);
    if lines.start >= 1 && lines.start - 1 <= lines.end && lines.end <= all.len() {
        Some(concat(all.subrange(lines.start - 1, lines.end as int)))
    } else {
        None
    }
}

/// One span covers exactly one line of `text`.
pub open spec fn tile(text: Seq<char>, span: (usize, usize), line: Seq<char>) -> bool {
    span.0 <= span.1 <= text.len() && text.subrange(span.0 as int, span.1 as int) == line
}

/// Joining two runs of lines joins their texts.
pub proof fn lemma_concat_append(u: Seq<Seq<char>>, v: Seq<Seq<char>>)
    ensures
        concat(u + v) == concat(u) + concat(v),
    decreases v.len(),
{
    if v.len() == 0 {
        assert(u + v == u);
    } else {
        lemma_concat_append(u, v.drop_last());
        assert((u + v).drop_last() == u + v.drop_last());
        assert((u + v).last() == v.last());
    }
}

/// The lines of a text join back into the text.
pub proof fn lemma_lines_concat(text: Seq<char>)
    ensures
        concat(lines_of(text)) == text,
    decreases text.len(),
{
    if text.len() > 0 {
        crate::target::lemma_index_bounds(text, '\n');
        match crate::target::first_index(text, '\n') {
            Some(i) => {
                lemma_lines_concat(text.skip(i + 1));
                let first: Seq<Seq<char>> = seq![text.take(i + 1)];
                lemma_concat_append(first, lines_of(text.skip(i + 1)));
                assert(first.drop_last() =~= Seq::<Seq<char>>::empty());
                assert(concat(first.drop_last()) =~= Seq::<char>::empty());
                assert(concat(first) =~= text.take(i + 1));
                assert(lines_of(text) == first + lines_of(text.skip(i + 1)));
                assert(text.take(i + 1) + text.skip(i + 1) == text);
            },
            None => {
                let all: Seq<Seq<char>> = seq![text];
                assert(all.drop_last() =~= Seq::<Seq<char>>::empty());
                assert(concat(all.drop_last()) =~= Seq::<char>::empty());
                assert(concat(all) =~= text);
            },
        }
    } else {
        assert(text =~= Seq::<char>::empty());
    }
}

/// A range over every line of a file gives back the whole file.
pub proof fn whole_range_is_whole_file(text: Seq<char>)
    requires
        lines_of(text).len() >= 1,
        lines_of(text).len() <= usize::MAX,
    ensures
        excerpt_of(text, LineRange { start: 1, end: lines_of(text).len() as usize }) == Some(text),
{
    let all = lines_of(text);
    assert(all.subrange(0, all.len() as int) == all);
    lemma_lines_concat(text);
}

/// Adjacent ranges join: lines `a..=b` followed by lines `b+1..=c` are lines `a..=c`.
pub proof fn adjacent_ranges_join(text: Seq<char>, a: usize, b: usize, c: usize)
    requires
        1 <= a <= b < c <= lines_of(text).len(),
    ensures
        excerpt_of(text, LineRange { start: a, end: b }) matches Some(x) && excerpt_of(
            text,
            LineRange { start: (b + 1) as usize, end: c },
        ) matches Some(y) && excerpt_of(text, LineRange { start: a, end: c }) == Some(x + y),
{
    let all = lines_of(text);
    assert(all.subrange(a - 1, b as int) + all.subrange(b as int, c as int) == all.subrange(
        a - 1,
        c as int,
    ));
    lemma_concat_append(all.subrange(a - 1, b as int), all.subrange(b as int, c as int));
}

/// Spans that tile `text` from 0 onwards, one per line.
pub open spec fn tiles(text: Seq<char>, spans: Seq<(usize, usize)>, lines: Seq<Seq<char>>) -> bool {
    &&& spans.len() == lines.len()
    &&& forall|j: int| 0 <= j < spans.len() ==> #[trigger] tile(text, spans[j], lines[j])
    &&& forall|j: int| 0 < j < spans.len() ==> (#[trigger] spans[j]).0 == spans[j - 1].1
    &&& spans.len() > 0 ==> spans[0].0 == 0
}

/// Consecutive tiles join into the text between their outer ends.
proof fn lemma_concat_tiles(
    text: Seq<char>,
    spans: Seq<(usize, usize)>,
    lines: Seq<Seq<char>>,
    a: int,
    b: int,
)
    requires
        tiles(text, spans, lines),
        0 <= a < b <= spans.len(),
    ensures
        concat(lines.subrange(a, b)) == text.subrange(spans[a].0 as int, spans[b - 1].1 as int),
    decreases b - a,
{
    let sub = lines.subrange(a, b);
    assert(sub.drop_last() == lines.subrange(a, b - 1));
    assert(sub.last() == lines[b - 1]);
    assert(tile(text, spans[b - 1], lines[b - 1]));
    if b - a == 1 {
        assert(sub.drop_last() =~= Seq::<Seq<char>>::empty());
        assert(concat(sub.drop_last()) == Seq::<char>::empty());
        assert(concat(sub) == concat(sub.drop_last()) + sub.last());
    } else {
        lemma_concat_tiles(text, spans, lines, a, b - 1);
        assert(spans[b - 1].0 == spans[b - 2].1);
        assert(tile(text, spans[b - 2], lines[b - 2]));
        assert(tile(text, spans[a], lines[a]));
        lemma_spans_ordered(text, spans, lines, a, b - 2);
        assert(text.subrange(spans[a].0 as int, spans[b - 1].1 as int) == text.subrange(
            spans[a].0 as int,
            spans[b - 2].1 as int,
        ) + text.subrange(spans[b - 1].0 as int, spans[b - 1].1 as int));
    }
}

/// Earlier tiles start no later than later ones end.
proof fn lemma_spans_ordered(
    text: Seq<char>,
    spans: Seq<(usize, usize)>,
    lines: Seq<Seq<char>>,
    a: int,
    b: int,
)
    requires
        tiles(text, spans, lines),
        0 <= a <= b < spans.len(),
    ensures
        spans[a].0 <= spans[b].1,
    decreases b - a,
{
    assert(tile(text, spans[b], lines[b]));
    if a < b {
        lemma_spans_ordered(text, spans, lines, a, b - 1);
        assert(spans[b].0 == spans[b - 1].1);
    }
}

/// The spans of the lines of `chars`.
pub(crate) fn line_spans(chars: &Vec<char>) -> (spans: Vec<(usize, usize)>)
    ensures
        tiles(chars@, spans@, lines_of(chars@)),
        spans@.len() > 0 ==> spans@.last().1 == chars@.len(),
{
    let ghost text = chars@;
    let mut spans: Vec<(usize, usize)> = Vec::new();
    let ghost mut found: Seq<Seq<char>> = Seq::empty();
    let mut pos: usize = 0;
    let n = chars.len();
    assert(text.skip(0) =~= text);
    assert(found + lines_of(text) =~= lines_of(text));
    while pos < n
        invariant
            n == chars@.len(),
            text == chars@,
            pos <= n,
            lines_of(text) == found + lines_of(text.skip(pos as int)),
            tiles(text, spans@, found),
            spans@.len() > 0 ==> spans@.last().1 == pos,
            spans@.len() == 0 ==> pos == 0,
        decreases n - pos,
    {
        let ghost rest = text.skip(pos as int);
        proof {
            crate::target::lemma_index_bounds(rest, '\n');
        }
        let mut next = pos;
        while next < n && chars[next] != '\n'
            invariant
                pos <= next <= n == chars@.len(),
                text == chars@,
                rest == text.skip(pos as int),
                forall|j: int| 0 <= j < next - pos ==> rest[j] != '\n',
            decreases n - next,
        {
            assert(rest[next - pos] == chars@[next as int]);
            next = next + 1;
        }
        let end = if next < n {
            next + 1
        } else {
            n
        };
        proof {
            if next < n {
                assert(rest[next - pos] == '\n');
                assert(crate::target::first_index(rest, '\n') == Some(next - pos));
                assert(rest.take(next - pos + 1) == text.subrange(pos as int, end as int));
                assert(rest.skip(next - pos + 1) == text.skip(end as int));
            } else {
                assert(crate::target::first_index(rest, '\n') is None);
                assert(rest == text.subrange(pos as int, end as int));
                assert(text.skip(end as int) =~= Seq::<char>::empty());
            }
            let line = text.subrange(pos as int, end as int);
            assert(lines_of(rest) == seq![line] + lines_of(text.skip(end as int)));
            found = found.push(line);
        }
        spans.push((pos, end));
        pos = end;
    }
    assert(text.skip(pos as int) =~= Seq::<char>::empty());
    assert(found + Seq::<Seq<char>>::empty() == found);
    spans
}

/// Lines `start..=end` of `text`, counted from 1, with their line endings. Ranges past the end are errors.
pub fn excerpt(text: &str, lines: LineRange) -> (r: Result<String, SourceError>)
    ensures
        match (r, excerpt_of(text@, lines)) {
            (Ok(s), Some(e)) => s@ == e,
            (Err(SourceError::RangeOutside { lines: l, count }), None) => l == lines && count
                == lines_of(text@).len(),
            _ => false,
        },
{
    let chars = chars_of(text);
    let spans = line_spans(&chars);
    let count = spans.len();
    if lines.start == 0 || lines.start - 1 > lines.end || lines.end > count {
        return Err(SourceError::RangeOutside { lines, count });
    }
    if lines.start - 1 == lines.end {
        let ghost all = lines_of(chars@);
        assert(all.subrange(lines.start - 1, lines.end as int) =~= Seq::<Seq<char>>::empty());
        return Ok(String::new());
    }
    let from = spans[lines.start - 1].0;
    let to = spans[lines.end - 1].1;
    proof {
        lemma_concat_tiles(chars@, spans@, lines_of(chars@), lines.start - 1, lines.end as int);
        lemma_spans_ordered(chars@, spans@, lines_of(chars@), lines.start - 1, lines.end - 1);
        assert(tile(chars@, spans@[lines.end - 1], lines_of(chars@)[lines.end - 1]));
    }
    Ok(string_of(&chars, from, to))
}

/// Narrows a read source to the target's line range: a ranged text source gains its focus lines, a binary
/// file stays binary, and a range past the file's end is an error.
pub fn read_target(target: &Target, read: SourceRead) -> (r: Result<SourceRead, SourceError>)
    ensures
        match read {
            SourceRead::Binary => r matches Ok(SourceRead::Binary),
            SourceRead::Text(source) => match target.lines {
                None => r == Ok::<SourceRead, SourceError>(SourceRead::Text(source)),
                Some(lines) => match (r, excerpt_of(source.text@, lines)) {
                    (Ok(SourceRead::Text(s)), Some(e)) => {
                        &&& s.path == source.path
                        &&& s.text == source.text
                        &&& s.focus matches Some(focus)
                        &&& focus.lines == lines
                        &&& focus.text@ == e
                    },
                    (Err(SourceError::RangeOutside { lines: l, count }), None) => l == lines
                        && count == lines_of(source.text@).len(),
                    _ => false,
                },
            },
        },
{
    match read {
        SourceRead::Binary => Ok(SourceRead::Binary),
        SourceRead::Text(source) => match target.lines {
            None => Ok(SourceRead::Text(source)),
            Some(lines) => {
                let text = excerpt(source.text.as_str(), lines)?;
                Ok(SourceRead::Text(Source { path: source.path, text: source.text, focus: Some(Focus { lines, text }) }))
            },
        },
    }
}

/// Why a query could not be read.
#[derive(Clone, Debug, PartialEq, Eq)]
pub enum TextError {
    /// More bytes than the limit were read.
    TooLong { limit: usize },
    /// The bytes are not valid UTF-8; `detail` describes where.
    NotUtf8 { detail: String },
    /// The query is empty or only whitespace.
    Empty,
}

pub open spec fn text_error_message(error: TextError) -> Seq<char> {
    match error {
        TextError::TooLong { limit } => "query exceeds "@ + decimal(limit as nat)
            + " bytes; query was not truncated"@,
        TextError::NotUtf8 { detail } => "query is not valid UTF-8: "@ + detail@,
        TextError::Empty => "query must not be empty"@,
    }
}

impl TextError {
    pub fn message(&self) -> (m: String)
        ensures
            m@ == text_error_message(*self),
    {
        proof {
            reveal_strlit("query exceeds ");
            reveal_strlit(" bytes; query was not truncated");
            reveal_strlit("query is not valid UTF-8: ");
            reveal_strlit("query must not be empty");
        }
        match self {
            TextError::TooLong { limit } => {
                let mut m = String::from_str("query exceeds ");
                push_decimal(&mut m, *limit);
                m.append(" bytes; query was not truncated");
                m
            },
            TextError::NotUtf8 { detail } => {
                let mut m = String::from_str("query is not valid UTF-8: ");
                m.append(detail.as_str());
                m
            },
            TextError::Empty => String::from_str("query must not be empty"),
        }
    }
}

/// A query from the bytes read (at most one past `limit`): never truncated, valid UTF-8, and not blank.
pub fn read_text(bytes: Vec<u8>, limit: usize) -> (r: Result<String, TextError>)
    ensures
        bytes@.len() > limit ==> r == Err::<String, TextError>(TextError::TooLong { limit }),
        bytes@.len() <= limit ==> match r {
            Ok(text) => vstd::utf8::valid_utf8(bytes@) && text@ == vstd::utf8::decode_utf8(bytes@)
                && !is_blank(text@),
            Err(TextError::NotUtf8 { detail }) => !vstd::utf8::valid_utf8(bytes@) && detail@
                == utf8_error_text(bytes@),
            Err(TextError::Empty) => vstd::utf8::valid_utf8(bytes@) && is_blank(
                vstd::utf8::decode_utf8(bytes@),
            ),
            _ => false,
        },
{
    if bytes.len() > limit {
        return Err(TextError::TooLong { limit });
    }
    let text = match utf8_string(bytes) {
        Ok(text) => text,
        Err(detail) => {
            return Err(TextError::NotUtf8 { detail });
        },
    };
    if blank(text.as_str()) {
        return Err(TextError::Empty);
    }
    Ok(text)
}

} // verus!
