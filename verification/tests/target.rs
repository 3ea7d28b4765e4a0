use ev_grep::target::{label, LineRange, Target, TargetError};

fn ranged(path: &str, start: usize, end: usize) -> Target {
    Target { path: path.to_string(), lines: Some(LineRange { start, end }) }
}

fn whole(path: &str) -> Target {
    Target { path: path.to_string(), lines: None }
}

#[test]
fn arguments_with_ranges_are_split_at_the_last_colon() {
    assert_eq!(Target::parse("src/users.py:20-56", false), Ok(ranged("src/users.py", 20, 56)));
    assert_eq!(Target::parse("src/users.py:42", false), Ok(ranged("src/users.py", 42, 42)));
    assert_eq!(Target::parse("a:b:3", false), Ok(ranged("a:b", 3, 3)));
    assert_eq!(Target::parse("x:007-010", false), Ok(ranged("x", 7, 10)));
}

#[test]
fn existing_paths_and_non_ranges_stay_whole() {
    assert_eq!(Target::parse("odd:12", true), Ok(whole("odd:12")));
    assert_eq!(Target::parse("src/", false), Ok(whole("src/")));
    assert_eq!(Target::parse(":12", false), Ok(whole(":12")));
    assert_eq!(Target::parse("a:", false), Ok(whole("a:")));
    assert_eq!(Target::parse("a:x1", false), Ok(whole("a:x1")));
    assert_eq!(Target::parse("a:1:x", false), Ok(whole("a:1:x")));
}

#[test]
fn malformed_ranges_are_errors() {
    for (argument, range) in [
        ("a.py:0", "0"),
        ("a.py:9-3", "9-3"),
        ("a.py:1-2-3", "1-2-3"),
        ("a.py:-", "-"),
        ("a.py:3-", "3-"),
        ("a.py:99999999999999999999999", "99999999999999999999999"),
    ] {
        let error = Target::parse(argument, false).unwrap_err();
        assert_eq!(error, TargetError::InvalidRange { range: range.to_string() });
        assert_eq!(
            error.message(),
            format!("invalid line range \"{range}\"; use N or N-M, counting lines from 1")
        );
    }
}

#[test]
fn labels_are_accepted_again() {
    for (path, start, end) in [("src/users.py", 20, 56), ("a:b", 3, 3), ("x y", 1, 18446744073709551615)] {
        let lines = LineRange { start, end };
        let text = label(path, Some(lines));
        assert_eq!(Target::parse(&text, false), Ok(ranged(path, start, end)));
    }
    assert_eq!(label("src/users.py", Some(LineRange { start: 20, end: 56 })), "src/users.py:20-56");
    assert_eq!(label("src/users.py", Some(LineRange { start: 42, end: 42 })), "src/users.py:42");
    assert_eq!(label("src/users.py", None), "src/users.py");
    assert_eq!(LineRange { start: 0, end: 10 }.display(), "0-10");
}
