use ev_grep::outcome::Outcome;
use ev_grep::sarif::{artifact_uri, clip, encode, result_level, result_message, root_uri, rule_id, title};

#[test]
fn display_text_is_clipped_by_characters_and_paths_are_encoded() {
    assert_eq!(clip("abcdef", 6), "abcdef");
    assert_eq!(clip("abcdefg", 6), "abcde…");
    assert_eq!(clip("ééééé", 5), "ééééé");
    assert_eq!(clip("éééééé", 5), "éééé…");
    assert_eq!(title("\n  First line \nsecond"), "First line");
    assert_eq!(encode("src/new orders%.py"), "src/new%20orders%25.py");
    assert_eq!(encode("src/café.py"), "src/caf%C3%A9.py");
}

#[test]
fn rule_id_is_a_stable_hash_of_the_trimmed_query() {
    let query = "Catches a database failure\nand returns an empty result.\n";
    let trimmed = ev_grep::text::trim_string(query);
    assert_eq!(rule_id(&trimmed), "query/9884e336a13bc935");
    assert_eq!(rule_id(""), "query/cbf29ce484222325");
    assert_eq!(rule_id(&trimmed), rule_id("Catches a database failure\nand returns an empty result."));
    assert_ne!(rule_id("a"), rule_id("b"));
}

#[test]
fn titles_skip_blank_lines_and_fall_back_to_the_query() {
    assert_eq!(title("Catches a database failure\nand returns an empty result."), "Catches a database failure");
    assert_eq!(title("  \r\n\t\n"), "  \r\n\t\n");
    assert_eq!(title(""), "");
    assert_eq!(title("\u{3000}x\u{2003}"), "x");
}

#[test]
fn clipping_at_small_limits_keeps_the_ellipsis() {
    assert_eq!(clip("ab", 0), "…");
    assert_eq!(clip("ab", 1), "…");
    assert_eq!(clip("", 0), "");
    assert_eq!(clip("a", 1), "a");
}

#[test]
fn artifacts_resolve_against_the_source_root_or_become_file_uris() {
    assert_eq!(artifact_uri("./src/users.py"), ("src/users.py".to_string(), true));
    assert_eq!(artifact_uri("././a"), ("a".to_string(), true));
    assert_eq!(artifact_uri("src/odd:12 x.py"), ("src/odd%3A12%20x.py".to_string(), true));
    assert_eq!(artifact_uri("/abs/image.py"), ("file:///abs/image.py".to_string(), false));
    assert_eq!(artifact_uri(".hidden"), (".hidden".to_string(), true));
    assert_eq!(root_uri("/home/me/repo//"), "file:///home/me/repo/");
    assert_eq!(root_uri("/"), "file:///");
    assert_eq!(encode("~a-b_c.d"), "~a-b_c.d");
    assert_eq!(encode("\u{1F600}"), "%F0%9F%98%80");
}

#[test]
fn sarif_reports_matches_and_uncertain_results_with_locations() {
    let query = "Catches a database failure\nand returns an empty result.\n";
    let trimmed = ev_grep::text::trim_string(query);
    assert_eq!(rule_id(&trimmed), "query/9884e336a13bc935");
    assert_eq!(clip(&title(&trimmed), 1024), "Catches a database failure");
    assert_eq!(result_level(Outcome::Match), Some("warning"));
    assert_eq!(result_level(Outcome::Uncertain), Some("note"));
    assert_eq!(result_level(Outcome::NoMatch), None);
    assert_eq!(artifact_uri("./src/users.py"), ("src/users.py".to_string(), true));
    assert_eq!(artifact_uri("src/odd:12 x.py").0, "src/odd%3A12%20x.py");
    assert_eq!(artifact_uri("/abs/image.py").0, "file:///abs/image.py");
    assert_eq!(
        result_message(&trimmed, "ev-grep uncertain: low confidence 0.62"),
        "Catches a database failure (ev-grep uncertain: low confidence 0.62)"
    );
}

#[test]
fn long_titles_are_clipped_in_result_messages() {
    let long = "x".repeat(250);
    let message = result_message(&long, "d");
    assert_eq!(message.chars().count(), 199 + 1 + " (d)".len());
    assert!(message.starts_with(&"x".repeat(199)));
    assert!(message.ends_with("… (d)"));
}

#[test]
fn rule_ids_are_sixteen_hex_digits_after_the_prefix() {
    for query in ["", "a", "Catches a database failure", "é\n\u{1F600}"] {
        let id = rule_id(query);
        assert_eq!(id.len(), 22);
        assert!(id.starts_with("query/"));
        assert!(id[6..].chars().all(|c| c.is_ascii_digit() || ('a'..='f').contains(&c)));
        assert_eq!(rule_id(query), id);
    }
    assert_eq!(rule_id(""), "query/cbf29ce484222325");
}
