use pagewatch::extract::{extract, extract_text, MatchRule};

#[test]
fn middle_line_match_gets_full_window() {
    let content = "alpha\nbeta hit gamma\ndelta";
    let terms = vec!["hit".to_string()];
    let matches = extract_text(content, &terms);
    assert_eq!(matches, vec!["alpha\nbeta hit gamma\ndelta".to_string()]);
}

#[test]
fn first_line_match_clamps_missing_previous_line() {
    let content = "hit on top\nsecond\nthird";
    let terms = vec!["hit".to_string()];
    let matches = extract_text(content, &terms);
    assert_eq!(matches, vec!["\nhit on top\nsecond".to_string()]);
}

#[test]
fn last_line_match_clamps_missing_next_line() {
    let content = "first\nsecond\nhit at end";
    let terms = vec!["hit".to_string()];
    let matches = extract_text(content, &terms);
    assert_eq!(matches, vec!["second\nhit at end\n".to_string()]);
}

#[test]
fn single_line_content_clamps_both_neighbours() {
    let content = "only hit line";
    let terms = vec!["hit".to_string()];
    let matches = extract_text(content, &terms);
    assert_eq!(matches, vec!["\nonly hit line\n".to_string()]);
}

#[test]
fn matches_are_term_major_then_line_major() {
    let content = "one b\ntwo a\nthree b\nfour a";
    let terms = vec!["a".to_string(), "b".to_string()];
    let matches = extract_text(content, &terms);
    assert_eq!(
        matches,
        vec![
            "one b\ntwo a\nthree b".to_string(),
            "three b\nfour a\n".to_string(),
            "\none b\ntwo a".to_string(),
            "two a\nthree b\nfour a".to_string(),
        ]
    );
}

#[test]
fn match_count_equals_term_line_pairs() {
    // Four lines; "spark" is on lines 0 and 2, "glow" on line 2 only:
    // three (term, line) pairs, so exactly three matches.
    let content = "spark\nnothing\nspark glow\nnothing";
    let terms = vec!["spark".to_string(), "glow".to_string()];
    let matches = extract_text(content, &terms);
    assert_eq!(matches.len(), 3);
}

#[test]
fn line_matching_two_terms_yields_two_matches() {
    let content = "x\nboth here and there\ny";
    let terms = vec!["here".to_string(), "there".to_string()];
    let matches = extract_text(content, &terms);
    assert_eq!(matches.len(), 2);
    assert_eq!(matches[0], matches[1]);
}

#[test]
fn no_matches_for_absent_term() {
    let content = "nothing\nto\nsee";
    let terms = vec!["missing".to_string()];
    let matches = extract_text(content, &terms);
    assert!(matches.is_empty());
}

#[test]
fn extract_twice_is_byte_identical() {
    let content = "alpha\nbeta hit\ngamma\nhit again";
    let rule = MatchRule::TextSearch { terms: vec!["hit".to_string()] };
    let first = extract(content, &rule).unwrap();
    let second = extract(content, &rule).unwrap();
    assert_eq!(first, second);
}

#[test]
fn empty_content_has_no_matches() {
    let matches = extract_text("", &vec!["x".to_string()]);
    assert!(matches.is_empty());
}

#[test]
fn empty_term_matches_every_line() {
    let matches = extract_text("a\nb", &vec!["".to_string()]);
    assert_eq!(matches, vec!["\na\nb".to_string(), "a\nb\n".to_string()]);
}
