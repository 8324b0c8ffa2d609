use code_evolution::metrics::{
    calculate_metrics, count_lines, cyclomatic_complexity, CodeMetrics, COMPLEXITY_LIMIT,
};
use code_evolution::syntax::{is_control_flow_kind, SyntaxNode, SyntaxTree};

fn node(kind: &str, parent: usize) -> SyntaxNode {
    SyntaxNode { kind: kind.to_string(), parent }
}

#[test]
fn a_lone_root_has_complexity_one() {
    let tree = SyntaxTree::new("module".to_string());
    assert_eq!(cyclomatic_complexity(&tree), 1);
}

#[test]
fn a_control_flow_root_is_not_counted() {
    let tree = SyntaxTree::new("if_statement".to_string());
    assert_eq!(cyclomatic_complexity(&tree), 1);
}

#[test]
fn exactly_one_construct_gives_two() {
    let mut tree = SyntaxTree::new("module".to_string());
    let stmt = tree.add_child(0, "expression_statement".to_string()).unwrap();
    tree.add_child(stmt, "conditional_expression".to_string()).unwrap();
    tree.add_child(0, "comment".to_string()).unwrap();
    assert_eq!(cyclomatic_complexity(&tree), 2);
}

#[test]
fn deep_nesting_counts_every_construct_once() {
    let mut tree = SyntaxTree::new("program".to_string());
    let mut parent = 0;
    for _ in 0..50 {
        parent = tree.add_child(parent, "if_statement".to_string()).unwrap();
        tree.add_child(parent, "identifier".to_string()).unwrap();
        parent = tree.add_child(parent, "block".to_string()).unwrap();
    }
    assert_eq!(cyclomatic_complexity(&tree), 51);
}

#[test]
fn every_kind_of_the_set_counts() {
    let kinds = [
        "if_statement",
        "while_statement",
        "for_statement",
        "try_statement",
        "catch_clause",
        "conditional_expression",
        "logical_and",
        "logical_or",
    ];
    let mut tree = SyntaxTree::new("program".to_string());
    for kind in kinds {
        assert!(is_control_flow_kind(kind));
        tree.add_child(0, kind.to_string()).unwrap();
    }
    assert_eq!(cyclomatic_complexity(&tree), 9);
    assert!(!is_control_flow_kind("if"));
    assert!(!is_control_flow_kind("if_statement "));
    assert!(!is_control_flow_kind(""));
}

#[test]
fn children_may_be_listed_in_any_order_after_their_parent() {
    let nodes = vec![
        node("program", 0),
        node("block", 0),
        node("block", 0),
        node("for_statement", 2),
        node("if_statement", 1),
        node("logical_or", 4),
        node("identifier", 3),
    ];
    let tree = SyntaxTree::from_nodes(nodes).unwrap();
    assert_eq!(tree.len(), 7);
    assert_eq!(cyclomatic_complexity(&tree), 4);
}

#[test]
fn lists_that_are_no_tree_are_refused() {
    assert!(SyntaxTree::from_nodes(Vec::new()).is_none());
    assert!(SyntaxTree::from_nodes(vec![node("a", 1), node("b", 0)]).is_none());
    assert!(SyntaxTree::from_nodes(vec![node("a", 0), node("b", 1)]).is_none());
    assert!(SyntaxTree::from_nodes(vec![node("a", 0), node("b", 0), node("c", 3)]).is_none());
    assert!(SyntaxTree::from_nodes(vec![node("a", 0), node("b", 0), node("c", 1)]).is_some());
}

#[test]
fn add_child_refuses_a_parent_that_is_no_node() {
    let mut tree = SyntaxTree::new("module".to_string());
    assert_eq!(tree.add_child(1, "x".to_string()), None);
    assert_eq!(tree.len(), 1);
    assert_eq!(tree.add_child(0, "x".to_string()), Some(1));
    assert_eq!(tree.node(1).kind, "x");
    assert_eq!(tree.node(1).parent, 0);
}

#[test]
fn lines_are_counted_as_the_standard_library_counts_them() {
    for text in ["", "a", "a\n", "a\nb", "a\r\nb\r\n", "\n", "\n\n", "a\n\nb", "\r", "a\r"] {
        assert_eq!(count_lines(text), text.lines().count(), "{:?}", text);
    }
}

#[test]
fn metrics_hold_the_baselines() {
    let mut tree = SyntaxTree::new("module".to_string());
    tree.add_child(0, "while_statement".to_string()).unwrap();
    let metrics = calculate_metrics(&tree, "while a:\n    pass\n");
    assert_eq!(
        metrics,
        CodeMetrics {
            complexity: 2,
            performance: 85,
            security: 90,
            test_coverage: 0,
            lines_of_code: 2
        }
    );
}

fn with_complexity(complexity: usize, lines_of_code: usize) -> CodeMetrics {
    CodeMetrics { complexity, performance: 85, security: 90, test_coverage: 0, lines_of_code }
}

#[test]
fn maintainability_needs_a_line_and_a_branch() {
    assert!(!with_complexity(1, 10).maintainability_is_defined());
    assert!(!with_complexity(2, 0).maintainability_is_defined());
    assert!(with_complexity(2, 1).maintainability_is_defined());
}

#[test]
fn complexity_over_the_limit() {
    assert_eq!(COMPLEXITY_LIMIT, 10);
    assert!(!with_complexity(10, 1).is_too_complex());
    assert!(with_complexity(11, 1).is_too_complex());
    assert_eq!(with_complexity(10, 1).excess_complexity(), 0);
    assert_eq!(with_complexity(1, 1).excess_complexity(), 0);
    assert_eq!(with_complexity(17, 1).excess_complexity(), 7);
}
