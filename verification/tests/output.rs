use ev_grep::cli::{split_arguments, CliError};
use ev_grep::discovery::{ranged_action, walk_entry_action, EntryAction};
use ev_grep::outcome::Outcome;
use ev_grep::summary::{result_line, Summary};
use ev_grep::target::LineRange;
use ev_grep::{FileError, Identity, Selection};

#[test]
fn json_retains_uncertainty_and_errors_take_exit_precedence() {
    let mut summary = Summary::new(false);
    summary.selected = 2;
    summary.record_result(Outcome::Uncertain);
    assert_eq!(summary.exit_code(), 3);
    summary.record_error();
    assert_eq!(summary.exit_code(), 2);
    assert_eq!(summary.errors, 1);
    assert_eq!(summary.evaluated, 1);
}

#[test]
fn exit_codes_follow_the_documented_order() {
    let mut summary = Summary::new(false);
    assert_eq!(summary.exit_code(), 1);
    summary.record_result(Outcome::NoMatch);
    assert_eq!(summary.exit_code(), 1);
    summary.record_result(Outcome::Match);
    assert_eq!(summary.exit_code(), 0);
    let mut dry = Summary::new(true);
    dry.selected = 1;
    assert_eq!(dry.exit_code(), 0);
    dry.record_skipped();
    assert_eq!(dry.exit_code(), 1);
    assert_eq!(dry.skipped, 1);
}

#[test]
fn terminal_output_names_locations_and_omits_nonmatches() {
    let lines = Some(LineRange { start: 20, end: 56 });
    assert_eq!(result_line("src/users.py", lines, Outcome::Match), Some("src/users.py:20-56\tmatch".to_string()));
    assert_eq!(result_line("src/a.py", None, Outcome::Uncertain), Some("src/a.py\tuncertain".to_string()));
    assert_eq!(result_line("src/a.py", None, Outcome::NoMatch), None);
    let mut summary = Summary::new(true);
    summary.selected = 3;
    summary.record_error();
    assert_eq!(
        summary.line(),
        "3 selected · 0 evaluated · 0 match · 0 no match · 0 uncertain · 0 skipped · 1 errors (dry run)"
    );
}

#[test]
fn arguments_split_into_query_and_paths() {
    let inputs = vec!["defines a function".to_string(), "src".to_string()];
    let (query, paths) = split_arguments(&inputs, false).unwrap();
    assert_eq!(query.as_deref(), Some("defines a function"));
    assert_eq!(paths, vec!["src".to_string()]);
    let (query, paths) = split_arguments(&inputs[..1].to_vec(), false).unwrap();
    assert_eq!(query.as_deref(), Some("defines a function"));
    assert_eq!(paths, vec![".".to_string()]);
    let (query, paths) = split_arguments(&inputs, true).unwrap();
    assert_eq!(query, None);
    assert_eq!(paths, inputs);
    assert_eq!(split_arguments(&Vec::new(), true).unwrap().1, vec![".".to_string()]);
    assert_eq!(split_arguments(&Vec::new(), false), Err(CliError::NoQuery));
    assert_eq!(CliError::NoQuery.message(), "provide a query or --query-file");
}

#[test]
fn walked_entries_are_selected_skipped_or_reported() {
    assert_eq!(walk_entry_action(true, false, false, 0), EntryAction::Skip);
    assert_eq!(walk_entry_action(false, true, true, 1), EntryAction::Skip);
    assert_eq!(walk_entry_action(false, false, false, 0), EntryAction::Error);
    assert_eq!(walk_entry_action(false, false, false, 2), EntryAction::Skip);
    assert_eq!(walk_entry_action(false, false, true, 3), EntryAction::Select);
    assert_eq!(ranged_action(true, None), Some(EntryAction::Skip));
    assert_eq!(ranged_action(false, Some(true)), Some(EntryAction::Select));
    assert_eq!(ranged_action(false, Some(false)), Some(EntryAction::Error));
    assert_eq!(ranged_action(false, None), None);
}

#[test]
fn selection_keeps_each_file_and_range_once_in_path_order() {
    let mut selection = Selection::new();
    let mut errors: Vec<FileError> = Vec::new();
    let canonical = |s: &str| Identity::Canonical { bytes: s.as_bytes().to_vec() };
    let range = Some(LineRange { start: 3, end: 4 });
    selection.select(&mut errors, "./b.py", canonical("/r/b.py"), None);
    selection.select(&mut errors, "b.py", canonical("/r/b.py"), None);
    selection.select(&mut errors, "b.py", canonical("/r/b.py"), range);
    selection.select(&mut errors, "a-c.py", canonical("/r/a-c.py"), None);
    selection.select(&mut errors, "a/x.py", canonical("/r/a/x.py"), None);
    selection.select(&mut errors, "bad", Identity::NotUtf8, None);
    selection.select(&mut errors, "gone", Identity::Unresolved { message: "No such file".into() }, range);
    assert_eq!(selection.len(), 4);
    let found = selection.into_discovery(errors);
    let paths: Vec<(&str, Option<LineRange>)> =
        found.targets.iter().map(|t| (t.path.as_str(), t.lines)).collect();
    assert_eq!(
        paths,
        vec![("a/x.py", None), ("a-c.py", None), ("./b.py", None), ("b.py", range)]
    );
    assert_eq!(found.errors.len(), 2);
    assert_eq!(found.errors[0].message, "file path is not valid UTF-8");
    assert_eq!(found.errors[1], FileError::new("gone", range, "No such file"));
}
