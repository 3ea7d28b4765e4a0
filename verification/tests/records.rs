use ev_grep::LineRange;
use ev_grep::records::{error_record, selected_record, skipped_record, summary_record};
use ev_grep::summary::Summary;
use serde_json::Value;

fn parse(record: &str) -> Value {
    serde_json::from_str(record).expect("a record is one JSON object")
}

#[test]
fn run_wide_error_record_has_a_null_path() {
    let record = error_record(None, None, "query is empty");
    assert_eq!(
        record,
        r#"{"data":{"message":"query is empty","path":null},"schema_version":1,"type":"error"}"#
    );
    let value = parse(&record);
    assert_eq!(value["data"]["path"], Value::Null);
}

#[test]
fn ranged_error_record_carries_its_lines() {
    let lines = LineRange { start: 3, end: 9 };
    let record = error_record(Some("src/a \"b\".rs"), Some(lines), "line range 3-9 is outside");
    assert_eq!(
        record,
        r#"{"data":{"end_line":9,"message":"line range 3-9 is outside","path":"src/a \"b\".rs","start_line":3},"schema_version":1,"type":"error"}"#
    );
    let value = parse(&record);
    assert_eq!(value["data"]["path"], "src/a \"b\".rs");
    assert_eq!(value["data"]["start_line"], 3);
    assert_eq!(value["data"]["end_line"], 9);
}

#[test]
fn selected_record_matches_serde_json() {
    let record = selected_record("src/users.py", None, 1234);
    assert_eq!(
        record,
        r#"{"data":{"bytes":1234,"path":"src/users.py"},"schema_version":1,"type":"selected"}"#
    );
    let ranged = selected_record("src/users.py", Some(LineRange { start: 20, end: 56 }), 0);
    let value = parse(&ranged);
    assert_eq!(value["type"], "selected");
    assert_eq!(value["schema_version"], 1);
    assert_eq!(value["data"]["bytes"], 0);
    assert_eq!(value["data"]["start_line"], 20);
    assert_eq!(value["data"]["end_line"], 56);
}

#[test]
fn skipped_record_names_the_binary_reason() {
    let record = skipped_record("logo\n.png", Some(LineRange { start: 1, end: 1 }));
    assert_eq!(
        record,
        r#"{"data":{"end_line":1,"path":"logo\n.png","reason":"binary","start_line":1},"schema_version":1,"type":"skipped"}"#
    );
    assert_eq!(parse(&record)["data"]["path"], "logo\n.png");
    let whole = skipped_record("logo.png", None);
    assert_eq!(
        whole,
        r#"{"data":{"path":"logo.png","reason":"binary"},"schema_version":1,"type":"skipped"}"#
    );
}

#[test]
fn summary_record_holds_every_count() {
    let mut summary = Summary::new(true);
    summary.selected = 4;
    summary.record_skipped();
    summary.record_error();
    let record = summary_record(&summary);
    assert_eq!(
        record,
        r#"{"data":{"dry_run":true,"errors":1,"evaluated":0,"matches":0,"no_match":0,"selected":4,"skipped":1,"uncertain":0},"schema_version":1,"type":"summary"}"#
    );
    assert_eq!(parse(&record)["data"]["selected"], 4);
}
