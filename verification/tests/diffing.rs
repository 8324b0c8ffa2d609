use code_evolution::diffing::{
    cut_lines, diff_is_feasible, generate_diff, reconstruct_after, reconstruct_before,
    render_diff, DiffLine,
};

#[test]
fn changed_line_is_removed_then_added() {
    assert_eq!(generate_diff("a\nb\nc", "a\nx\nc"), "  a\n- b\n+ x\n  c\n");
}

#[test]
fn equal_texts_give_only_unchanged_lines() {
    assert_eq!(generate_diff("one\ntwo", "one\ntwo"), "  one\n  two\n");
}

#[test]
fn empty_texts_give_an_empty_diff() {
    assert_eq!(generate_diff("", ""), "");
}

#[test]
fn added_text_is_all_plus() {
    assert_eq!(generate_diff("", "a\nb"), "+ a\n+ b\n");
}

#[test]
fn removed_text_is_all_minus() {
    assert_eq!(generate_diff("a\nb", ""), "- a\n- b\n");
}

#[test]
fn final_line_feed_shows_as_an_empty_line() {
    assert_eq!(generate_diff("a\n", "a\n"), "  a\n  \n");
    assert_eq!(generate_diff("a\n", "a"), "  a\n- \n");
    assert_eq!(generate_diff("a", "a\n"), "  a\n+ \n");
}

fn round_trip(before: &str, after: &str) {
    assert!(diff_is_feasible(before, after));
    let diff = generate_diff(before, after);
    assert_eq!(reconstruct_before(&diff), before);
    assert_eq!(reconstruct_after(&diff), after);
}

#[test]
fn replay_gives_both_texts_back() {
    round_trip("", "");
    round_trip("", "x");
    round_trip("x", "");
    round_trip("\n", "");
    round_trip("\n\n", "\n");
    round_trip("a\nb\nc\n", "a\nc\nd\n");
    round_trip("fn f() {\n    1\n}\n", "fn f() {\n    2\n}\n\nfn g() {}\n");
    round_trip("- a\n+ b\n  c", "+ a\n  b\n- c\n");
    round_trip("tab\there \r and cr", "  \n   \n");
    round_trip("a\nb\na\nb\na", "b\na\nb\na\nb");
}

#[test]
fn carriage_return_stays_in_its_line() {
    let diff = generate_diff("a\r\nb", "a\r\nb\r\n");
    assert_eq!(diff, "  a\r\n- b\n+ b\r\n+ \n");
    assert_eq!(reconstruct_before(&diff), "a\r\nb");
    assert_eq!(reconstruct_after(&diff), "a\r\nb\r\n");
}

#[test]
fn replay_is_exact_with_carriage_returns() {
    round_trip("", "a\r\nb");
    round_trip("a\r\nb", "");
    round_trip("a\r\nb\r\n", "a\nb\n");
    round_trip("\r", "\r\n");
    round_trip("\r\n\r\n", "\n\r\n");
    round_trip("x\r\r\ny", "x\ry\r");
}

#[test]
fn texts_are_cut_at_line_feeds_alone() {
    assert!(cut_lines("").is_empty());
    assert_eq!(cut_lines("a"), vec!["a"]);
    assert_eq!(cut_lines("a\n"), vec!["a", ""]);
    assert_eq!(cut_lines("\n"), vec!["", ""]);
    assert_eq!(cut_lines("a\r\nb\n\nc"), vec!["a\r", "b", "", "c"]);
    for text in ["", "a", "a\n", "\n\n", "a\r\nb\r\n", "x\ny"] {
        assert_eq!(cut_lines(text).join("\n"), text);
    }
}

#[test]
fn rendering_marks_each_kind_of_line() {
    let diff = vec![
        DiffLine::Unchanged("same".to_string()),
        DiffLine::Removed("old".to_string()),
        DiffLine::Added("new".to_string()),
    ];
    assert_eq!(render_diff(&diff), "  same\n- old\n+ new\n");
    assert_eq!(render_diff(&Vec::new()), "");
}

#[test]
fn replay_ignores_records_without_a_marker() {
    assert_eq!(reconstruct_after("+ a\nfoo\n-\n  b\n+c\n"), "a\nb");
    assert_eq!(reconstruct_before("- \n- x"), "\nx");
}
