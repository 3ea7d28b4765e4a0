//! JSON Lines records of schema version 1 that hold no floating-point data: errors, selected files, skipped
//! files and the summary. Each record is one JSON object, `{"data":...,"schema_version":1,"type":...}`, with
//! keys in the order serde_json writes a map.

use vstd::prelude::*;

use crate::json::{json_string, push_json_string};
use crate::summary::Summary;
use crate::target::LineRange;
use crate::text::{decimal, lemma_occurs, lemma_occurs_within, occurs_in, push_decimal};

verus! {

broadcast use vstd::string::group_string_axioms;

/// A record around its data.
pub open spec fn record_json(kind: Seq<char>, data: Seq<char>) -> Seq<char> {
    "{\"data\":"@ + data + ",\"schema_version\":1,\"type\":"@ + json_string(kind) + "}"@
}

/// `true` or `false`.
pub open spec fn bool_json(b: bool) -> Seq<char> {
    if b {
        "true"@
    } else {
        "false"@
    }
}

/// A path, or `null` for a run-wide error.
pub open spec fn path_json(path: Option<Seq<char>>) -> Seq<char> {
    match path {
        Some(p) => json_string(p),
        None => "null"@,
    }
}

/// The data of an error record: the message, the path (`null` for run-wide errors), and the range's lines.
pub open spec fn error_data(path: Option<Seq<char>>, lines: Option<LineRange>, message: Seq<char>) -> Seq<
    char,
> {
    match lines {
        Some(l) => "{\"end_line\":"@ + decimal(l.end as nat) + ",\"message\":"@ + json_string(message)
            + ",\"path\":"@ + path_json(path) + ",\"start_line\":"@ + decimal(l.start as nat) + "}"@,
        None => "{\"message\":"@ + json_string(message) + ",\"path\":"@ + path_json(path) + "}"@,
    }
}

/// The data of a selected record in a dry run: the file's size in bytes, its path, and the range's lines.
pub open spec fn selected_data(path: Seq<char>, lines: Option<LineRange>, bytes: usize) -> Seq<char> {
    match lines {
        Some(l) => "{\"bytes\":"@ + decimal(bytes as nat) + ",\"end_line\":"@ + decimal(l.end as nat)
            + ",\"path\":"@ + json_string(path) + ",\"start_line\":"@ + decimal(l.start as nat) + "}"@,
        None => "{\"bytes\":"@ + decimal(bytes as nat) + ",\"path\":"@ + json_string(path) + "}"@,
    }
}

/// The data of a skipped record: the path, the reason, and the range's lines.
pub open spec fn skipped_data(path: Seq<char>, lines: Option<LineRange>) -> Seq<char> {
    match lines {
        Some(l) => "{\"end_line\":"@ + decimal(l.end as nat) + ",\"path\":"@ + json_string(path)
            + ",\"reason\":\"binary\",\"start_line\":"@ + decimal(l.start as nat) + "}"@,
        None => "{\"path\":"@ + json_string(path) + ",\"reason\":\"binary\"}"@,
    }
}

/// The data of the summary record.
pub open spec fn summary_data(s: Summary) -> Seq<char> {
    "{\"dry_run\":"@ + bool_json(s.dry_run) + ",\"errors\":"@ + decimal(s.errors as nat)
        + ",\"evaluated\":"@ + decimal(s.evaluated as nat) + ",\"matches\":"@ + decimal(
        s.matches as nat,
    ) + ",\"no_match\":"@ + decimal(s.no_match as nat) + ",\"selected\":"@ + decimal(
        s.selected as nat,
    ) + ",\"skipped\":"@ + decimal(s.skipped as nat) + ",\"uncertain\":"@ + decimal(
        s.uncertain as nat,
    ) + "}"@
}

fn record(kind: &str, data: String) -> (r: String)
    ensures
        r@ == record_json(kind@, data@),
{
    let mut r = String::from_str("{\"data\":");
    r.append(data.as_str());
    r.append(",\"schema_version\":1,\"type\":");
    push_json_string(&mut r, kind);
    r.append("}");
    r
}

fn push_path(out: &mut String, path: Option<&str>)
    ensures
        final(out)@ == old(out)@ + path_json(
            match path {
                Some(p) => Some(p@),
                None => None,
            },
        ),
{
    match path {
        Some(p) => push_json_string(out, p),
        None => out.append("null"),
    }
}

/// The error record.
pub fn error_record(path: Option<&str>, lines: Option<LineRange>, message: &str) -> (r: String)
    ensures
        r@ == record_json(
            "error"@,
            error_data(
                match path {
                    Some(p) => Some(p@),
                    None => None,
                },
                lines,
                message@,
            ),
        ),
{
    let mut d = String::new();
    match lines {
        Some(l) => {
            d.append("{\"end_line\":");
            push_decimal(&mut d, l.end);
            d.append(",\"message\":");
            push_json_string(&mut d, message);
            d.append(",\"path\":");
            push_path(&mut d, path);
            d.append(",\"start_line\":");
            push_decimal(&mut d, l.start);
            d.append("}");
        },
        None => {
            d.append("{\"message\":");
            push_json_string(&mut d, message);
            d.append(",\"path\":");
            push_path(&mut d, path);
            d.append("}");
        },
    }
    proof {
        assert(d@ =~= error_data(
            match path {
                Some(p) => Some(p@),
                None => None,
            },
            lines,
            message@,
        ));
    }
    record("error", d)
}

/// The selected record of a dry run.
pub fn selected_record(path: &str, lines: Option<LineRange>, bytes: usize) -> (r: String)
    ensures
        r@ == record_json("selected"@, selected_data(path@, lines, bytes)),
{
    let mut d = String::new();
    d.append("{\"bytes\":");
    push_decimal(&mut d, bytes);
    match lines {
        Some(l) => {
            d.append(",\"end_line\":");
            push_decimal(&mut d, l.end);
            d.append(",\"path\":");
            push_json_string(&mut d, path);
            d.append(",\"start_line\":");
            push_decimal(&mut d, l.start);
            d.append("}");
        },
        None => {
            d.append(",\"path\":");
            push_json_string(&mut d, path);
            d.append("}");
        },
    }
    proof {
        assert(d@ =~= selected_data(path@, lines, bytes));
    }
    record("selected", d)
}

/// The skipped record for a binary file.
pub fn skipped_record(path: &str, lines: Option<LineRange>) -> (r: String)
    ensures
        r@ == record_json("skipped"@, skipped_data(path@, lines)),
{
    let mut d = String::new();
    match lines {
        Some(l) => {
            d.append("{\"end_line\":");
            push_decimal(&mut d, l.end);
            d.append(",\"path\":");
            push_json_string(&mut d, path);
            d.append(",\"reason\":\"binary\",\"start_line\":");
            push_decimal(&mut d, l.start);
            d.append("}");
        },
        None => {
            d.append("{\"path\":");
            push_json_string(&mut d, path);
            d.append(",\"reason\":\"binary\"}");
        },
    }
    proof {
        assert(d@ =~= skipped_data(path@, lines));
    }
    record("skipped", d)
}

/// The final summary record.
pub fn summary_record(s: &Summary) -> (r: String)
    ensures
        r@ == record_json("summary"@, summary_data(*s)),
{
    let mut d = String::from_str("{\"dry_run\":");
    if s.dry_run {
        d.append("true");
    } else {
        d.append("false");
    }
    d.append(",\"errors\":");
    push_decimal(&mut d, s.errors);
    d.append(",\"evaluated\":");
    push_decimal(&mut d, s.evaluated);
    d.append(",\"matches\":");
    push_decimal(&mut d, s.matches);
    d.append(",\"no_match\":");
    push_decimal(&mut d, s.no_match);
    d.append(",\"selected\":");
    push_decimal(&mut d, s.selected);
    d.append(",\"skipped\":");
    push_decimal(&mut d, s.skipped);
    d.append(",\"uncertain\":");
    push_decimal(&mut d, s.uncertain);
    d.append("}");
    record("summary", d)
}

/// An error record names its file: with a path, the data's `path` is that path as a JSON string, whether or not
/// a line range is given; `path` is `null` only for a run-wide error. The message is always there, and a range
/// adds its first and last lines.
pub proof fn error_records_name_their_file(
    path: Option<Seq<char>>,
    lines: Option<LineRange>,
    message: Seq<char>,
)
    ensures
        ({
            let r = record_json("error"@, error_data(path, lines, message));
            &&& path matches Some(p) ==> occurs_in(",\"path\":"@ + json_string(p), r)
            &&& path is None ==> occurs_in(",\"path\":"@ + "null"@, r)
            &&& occurs_in("\"message\":"@ + json_string(message), r)
            &&& lines matches Some(l) ==> occurs_in(",\"start_line\":"@ + decimal(l.start as nat), r)
                && occurs_in("\"end_line\":"@ + decimal(l.end as nat), r)
        }),
{
    reveal_strlit("{\"end_line\":");
    reveal_strlit("\"end_line\":");
    reveal_strlit(",\"message\":");
    reveal_strlit("{\"message\":");
    reveal_strlit("\"message\":");
    reveal_strlit("{");
    reveal_strlit(",");
    let data = error_data(path, lines, message);
    let r = record_json("error"@, data);
    let open = "{\"data\":"@;
    let close = ",\"schema_version\":1,\"type\":"@ + json_string("error"@) + "}"@;
    assert(r == open + data + close);
    let pj = ",\"path\":"@ + path_json(path);
    let msg = "\"message\":"@ + json_string(message);
    match path {
        Some(p) => assert(path_json(path) == json_string(p)),
        None => assert(path_json(path) == "null"@),
    }
    match lines {
        Some(l) => {
            let end = "\"end_line\":"@ + decimal(l.end as nat);
            let start = ",\"start_line\":"@ + decimal(l.start as nat);
            assert(data =~= "{"@ + end + (","@ + msg + pj + start + "}"@));
            lemma_occurs("{"@, end, ","@ + msg + pj + start + "}"@);
            assert(data =~= ("{"@ + end + ","@) + msg + (pj + start + "}"@));
            lemma_occurs("{"@ + end + ","@, msg, pj + start + "}"@);
            assert(data =~= ("{"@ + end + ","@ + msg) + pj + (start + "}"@));
            lemma_occurs("{"@ + end + ","@ + msg, pj, start + "}"@);
            assert(data =~= ("{"@ + end + ","@ + msg + pj) + start + "}"@);
            lemma_occurs("{"@ + end + ","@ + msg + pj, start, "}"@);
            lemma_occurs_within(end, open, data, close);
            lemma_occurs_within(start, open, data, close);
        },
        None => {
            assert(data =~= "{"@ + msg + (pj + "}"@));
            lemma_occurs("{"@, msg, pj + "}"@);
            assert(data =~= ("{"@ + msg) + pj + "}"@);
            lemma_occurs("{"@ + msg, pj, "}"@);
        },
    }
    lemma_occurs_within(msg, open, data, close);
    lemma_occurs_within(pj, open, data, close);
}

} // verus!
