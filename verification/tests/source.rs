use ev_grep::source::{
    check_prefix, decode_source, excerpt, PrefixCheck, SourceError, TextError, MAX_FILE_BYTES,
    MAX_QUERY_BYTES,
};
use ev_grep::target::{LineRange, Target};
use ev_grep::{read_target, read_text, Focus, Source, SourceRead};

fn lines(start: usize, end: usize) -> LineRange {
    LineRange { start, end }
}

#[test]
fn excerpts_keep_line_endings_and_count_a_final_unterminated_line() {
    let text = "import db\n\ndef save(user):\n    db.insert(user)";
    assert_eq!(excerpt(text, lines(3, 4)).unwrap(), "def save(user):\n    db.insert(user)");
    assert_eq!(excerpt(text, lines(2, 2)).unwrap(), "\n");
    assert_eq!(excerpt(text, lines(1, 4)).unwrap(), text);
    assert_eq!(excerpt("a\r\nb\n", lines(1, 1)).unwrap(), "a\r\n");
    assert_eq!(excerpt("a\nb\n", lines(2, 1)).unwrap(), "");
}

#[test]
fn ranges_past_the_end_are_errors() {
    let error = excerpt("a\nb\n", lines(2, 3)).unwrap_err();
    assert_eq!(error, SourceError::RangeOutside { lines: lines(2, 3), count: 2 });
    assert_eq!(error.message(), "line range 2-3 is outside the file, which has 2 lines");
    assert_eq!(
        excerpt("", lines(1, 1)).unwrap_err().message(),
        "line range 1 is outside the file, which has 0 lines"
    );
    assert!(excerpt("a", lines(0, 1)).is_err());
    assert!(excerpt("a\nb\nc\n", lines(3, 1)).is_err());
}

#[test]
fn adjacent_excerpts_join() {
    let text = "one\ntwo\nthree\nfour";
    let first = excerpt(text, lines(1, 2)).unwrap();
    let second = excerpt(text, lines(3, 4)).unwrap();
    assert_eq!(first + &second, excerpt(text, lines(1, 4)).unwrap());
}

#[test]
fn binary_detection_comes_before_the_size_limit() {
    assert_eq!(check_prefix(&vec![b'a', 0, b'b'], 10_000_000), PrefixCheck::Binary);
    assert_eq!(check_prefix(&vec![b'a'; 10], (MAX_FILE_BYTES + 1) as u64), PrefixCheck::TooLarge);
    assert_eq!(check_prefix(&vec![b'a'; 10], MAX_FILE_BYTES as u64), PrefixCheck::ReadRest);
}

#[test]
fn sources_are_never_truncated() {
    assert!(matches!(
        decode_source("big".into(), vec![b'x'; MAX_FILE_BYTES + 1]),
        Err(SourceError::TooLarge)
    ));
    assert!(matches!(decode_source("bin".into(), vec![0, 1]), Ok(SourceRead::Binary)));
    match decode_source("t.py".into(), b"hello".to_vec()) {
        Ok(SourceRead::Text(source)) => {
            assert_eq!(source.path, "t.py");
            assert_eq!(source.text, "hello");
            assert!(source.focus.is_none());
        }
        other => panic!("unexpected {other:?}"),
    }
    let error = decode_source("bad".into(), vec![0xff]).unwrap_err();
    assert_eq!(
        error.message(),
        "source is not valid UTF-8: invalid utf-8 sequence of 1 bytes from index 0"
    );
    assert_eq!(
        SourceError::TooLarge.message(),
        "file exceeds 65536 bytes; source was not truncated"
    );
    assert_eq!(
        SourceError::NotRegularFile.message(),
        "expected a regular file; symbolic links are not followed"
    );
}

#[test]
fn ranged_targets_gain_their_focus_lines() {
    let source = Source { path: "users.py".into(), text: "import db\n\ndef save(user):\n".into(), focus: None };
    let target = Target { path: "users.py".into(), lines: Some(lines(3, 3)) };
    match read_target(&target, SourceRead::Text(source)) {
        Ok(SourceRead::Text(source)) => {
            let focus: Focus = source.focus.unwrap();
            assert_eq!(focus.lines, lines(3, 3));
            assert_eq!(focus.text, "def save(user):\n");
            assert_eq!(source.text, "import db\n\ndef save(user):\n");
        }
        other => panic!("unexpected {other:?}"),
    }
    assert!(matches!(read_target(&target, SourceRead::Binary), Ok(SourceRead::Binary)));
    let short = Source { path: "s".into(), text: "x\n".into(), focus: None };
    assert!(matches!(
        read_target(&target, SourceRead::Text(short)),
        Err(SourceError::RangeOutside { count: 1, .. })
    ));
    let labelled = Source {
        path: "users.py".into(),
        text: String::new(),
        focus: Some(Focus { lines: lines(20, 56), text: String::new() }),
    };
    assert_eq!(labelled.label(), "users.py:20-56");
}

#[test]
fn queries_are_bounded_utf8_and_not_blank() {
    assert_eq!(read_text(b"First line.\nSecond line.\n".to_vec(), MAX_QUERY_BYTES).unwrap(), "First line.\nSecond line.\n");
    let too_long = read_text(vec![b'q'; MAX_QUERY_BYTES + 1], MAX_QUERY_BYTES).unwrap_err();
    assert_eq!(too_long, TextError::TooLong { limit: MAX_QUERY_BYTES });
    assert_eq!(too_long.message(), "query exceeds 8192 bytes; query was not truncated");
    assert!(read_text(vec![b'q'; MAX_QUERY_BYTES], MAX_QUERY_BYTES).is_ok());
    assert_eq!(read_text(b" \n\t\r".to_vec(), 10).unwrap_err(), TextError::Empty);
    assert_eq!(TextError::Empty.message(), "query must not be empty");
    let invalid = read_text(vec![b'a', 0xc3], 10).unwrap_err();
    assert!(matches!(invalid, TextError::NotUtf8 { .. }));
    assert!(invalid.message().starts_with("query is not valid UTF-8: "));
}
