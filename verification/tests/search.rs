use code_evolution::search::{
    has_wanted_extension, matching_lines, may_descend, search_depth, within_depth,
    DEFAULT_SEARCH_DEPTH,
};

#[test]
fn lines_with_the_pattern_are_numbered_from_one() {
    let content = "alpha\nbeta gamma\n\ngamma\nGAMMA";
    assert_eq!(
        matching_lines(content, "gamma"),
        vec![(2, "beta gamma".to_string()), (4, "gamma".to_string())]
    );
}

#[test]
fn carriage_returns_are_not_part_of_a_line() {
    assert_eq!(matching_lines("a\r\nab\r\n", "a"), vec![(1, "a".to_string()), (2, "ab".to_string())]);
    assert!(matching_lines("a\r\nb", "\r").is_empty());
}

#[test]
fn empty_pattern_matches_every_line() {
    assert_eq!(matching_lines("x\n\ny", "").len(), 3);
    assert!(matching_lines("", "").is_empty());
}

#[test]
fn no_match_gives_nothing() {
    assert!(matching_lines("abc\ndef", "xyz").is_empty());
}

#[test]
fn depth_defaults_to_five() {
    assert_eq!(DEFAULT_SEARCH_DEPTH, 5);
    assert_eq!(search_depth(None), 5);
    assert_eq!(search_depth(Some(0)), 0);
    assert_eq!(search_depth(Some(9)), 9);
    assert!(within_depth(0, 0));
    assert!(within_depth(5, 5));
    assert!(!within_depth(6, 5));
}

#[test]
fn hidden_directories_are_not_entered() {
    assert!(may_descend(true, "src"));
    assert!(!may_descend(true, ".git"));
    assert!(!may_descend(false, "src"));
    assert!(may_descend(true, ""));
    assert!(may_descend(true, "a.b"));
}

#[test]
fn extension_filter() {
    assert!(has_wanted_extension("/a/b.rs", None));
    assert!(has_wanted_extension("/a/b.rs", Some(".rs")));
    assert!(has_wanted_extension("/a/b.rs", Some("rs")));
    assert!(has_wanted_extension("/a/b.rs", Some("")));
    assert!(!has_wanted_extension("/a/b.rs", Some(".py")));
    assert!(!has_wanted_extension("rs", Some(".rs")));
}
