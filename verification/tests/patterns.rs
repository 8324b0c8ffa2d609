use code_evolution::patterns::{has_performance_issues, is_hit, patterns_for};

#[test]
fn python_index_loop_is_an_issue() {
    assert!(has_performance_issues("for i in range(len(items)):\n    pass", "python"));
}

#[test]
fn python_sleep_is_an_issue() {
    assert!(has_performance_issues("import time\ntime.sleep(1)\n", "python"));
}

#[test]
fn python_append_in_generator_is_an_issue() {
    assert!(has_performance_issues("[out.append(x) for x in xs]", "python"));
}

#[test]
fn clean_python_has_no_issue() {
    assert!(!has_performance_issues("for item in items:\n    print(item)", "python"));
}

#[test]
fn javascript_patterns() {
    assert!(has_performance_issues("items.forEach(async (x) => { await f(x); });", "javascript"));
    assert!(has_performance_issues("const a = new Array(100).fill(0);", "typescript"));
    assert!(has_performance_issues("// document.querySelector(x) inside loop", "javascript"));
    assert!(!has_performance_issues("const a = [1, 2, 3];", "javascript"));
}

#[test]
fn patterns_belong_to_their_language() {
    assert!(!has_performance_issues("time.sleep(1)", "javascript"));
    assert!(!has_performance_issues("new Array(100).fill(0)", "python"));
}

#[test]
fn unknown_language_never_has_an_issue() {
    assert!(!has_performance_issues("time.sleep(1); new Array(1).fill(0)", "rust"));
    assert!(!has_performance_issues("time.sleep(1)", ""));
    assert!(patterns_for("rust").is_empty());
}

#[test]
fn pattern_lists() {
    assert_eq!(
        patterns_for("python"),
        vec![r"for .+ in range\(len\(", r"\.append\(.+\) for", r"time\.sleep\("]
    );
    assert_eq!(patterns_for("javascript"), patterns_for("typescript"));
    assert_eq!(patterns_for("javascript").len(), 3);
}

#[test]
fn only_an_accepted_match_is_a_hit() {
    assert!(is_hit(Some(true)));
    assert!(!is_hit(Some(false)));
    assert!(!is_hit(None));
}
