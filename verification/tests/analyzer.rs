use code_evolution::analyzer::{
    supported_language, tree_from_outcome, AnalysisError, AstAnalyzer, Language,
};
use code_evolution::syntax::SyntaxNode;
use code_evolution::metrics::{CodeMetrics, PERFORMANCE_BASELINE, SECURITY_BASELINE};

#[test]
fn straight_line_code_has_complexity_one() {
    let mut analyzer = AstAnalyzer::new();
    let metrics = analyzer.analyze("x = 1\ny = x + 2\n", "python").unwrap();
    assert_eq!(metrics.complexity, 1);
    assert_eq!(metrics.lines_of_code, 2);
}

#[test]
fn one_branch_gives_complexity_two() {
    let mut analyzer = AstAnalyzer::new();
    let metrics = analyzer.analyze("if x:\n    y = 1\n", "python").unwrap();
    assert_eq!(metrics.complexity, 2);
    let metrics = analyzer.analyze("while (a) { b(); }", "javascript").unwrap();
    assert_eq!(metrics.complexity, 2);
}

#[test]
fn nested_constructs_are_each_counted_once() {
    let mut analyzer = AstAnalyzer::new();
    let code = "for a in b:\n    if a:\n        while a:\n            a = f(a)\n";
    let metrics = analyzer.analyze(code, "python").unwrap();
    assert_eq!(metrics.complexity, 4);
    assert_eq!(metrics.lines_of_code, 4);
}

#[test]
fn javascript_try_and_catch_both_count() {
    let mut analyzer = AstAnalyzer::new();
    let code = "try { f(); } catch (e) { g(); }\nif (a) { h(); }\n";
    let metrics = analyzer.analyze(code, "javascript").unwrap();
    assert_eq!(metrics.complexity, 4);
}

#[test]
fn typescript_is_parsed_with_its_own_grammar() {
    let mut analyzer = AstAnalyzer::new();
    let code = "function f(a: number): number {\n  if (a > 1) { return 1; }\n  return 2;\n}\n";
    let metrics = analyzer.analyze(code, "typescript").unwrap();
    assert_eq!(
        metrics,
        CodeMetrics {
            complexity: 2,
            performance: PERFORMANCE_BASELINE,
            security: SECURITY_BASELINE,
            test_coverage: 0,
            lines_of_code: 4,
        }
    );
}

#[test]
fn empty_text_is_parsed() {
    let mut analyzer = AstAnalyzer::new();
    let metrics = analyzer.analyze("", "python").unwrap();
    assert_eq!(metrics.complexity, 1);
    assert_eq!(metrics.lines_of_code, 0);
}

#[test]
fn malformed_text_is_tolerated() {
    let mut analyzer = AstAnalyzer::new();
    let metrics = analyzer.analyze("if (((", "javascript").unwrap();
    assert!(metrics.complexity >= 1);
    assert_eq!(metrics.lines_of_code, 1);
}

#[test]
fn unknown_language_is_refused_by_name() {
    let mut analyzer = AstAnalyzer::new();
    let error = analyzer.analyze("x", "cobol").unwrap_err();
    assert!(matches!(&error, AnalysisError::UnsupportedLanguage(name) if name == "cobol"));
    assert_eq!(error.message(), "Language cobol not supported");
    let error = analyzer.parse("x", "rust").unwrap_err();
    assert_eq!(error.message(), "Language rust not supported");
    assert_eq!(AnalysisError::ParseFailure.message(), "Failed to parse code");
}

#[test]
fn one_analyzer_serves_many_calls_in_any_order() {
    let mut analyzer = AstAnalyzer::new();
    for _ in 0..3 {
        assert_eq!(analyzer.analyze("if a:\n    b\n", "python").unwrap().complexity, 2);
        assert_eq!(analyzer.analyze("if (a) { b; }", "javascript").unwrap().complexity, 2);
        assert_eq!(analyzer.analyze("let a: number = 1;", "typescript").unwrap().complexity, 1);
    }
}

#[test]
fn parse_lists_parents_before_children() {
    let mut analyzer = AstAnalyzer::new();
    let tree = analyzer.parse("if a:\n    b\n", "python").unwrap();
    assert!(tree.len() > 3);
    assert_eq!(tree.node(0).kind, "module");
    assert_eq!(tree.node(0).parent, 0);
    assert_eq!(tree.node(1).kind, "if_statement");
    assert_eq!(tree.node(1).parent, 0);
    assert_eq!(tree.node(2).parent, 1);
    for i in 1..tree.len() {
        assert!(tree.node(i).parent < i);
    }
}

#[test]
fn supported_languages_by_name() {
    assert_eq!(supported_language("python"), Some(Language::Python));
    assert_eq!(supported_language("javascript"), Some(Language::JavaScript));
    assert_eq!(supported_language("typescript"), Some(Language::TypeScript));
    assert_eq!(supported_language("Python"), None);
    assert_eq!(supported_language(""), None);
}

#[test]
fn no_tree_from_the_parser_is_a_parse_failure() {
    let error = tree_from_outcome(None).unwrap_err();
    assert!(matches!(error, AnalysisError::ParseFailure));
    assert_eq!(error.message(), "Failed to parse code");
}

#[test]
fn an_empty_or_broken_node_list_is_a_parse_failure() {
    assert!(matches!(tree_from_outcome(Some(Vec::new())), Err(AnalysisError::ParseFailure)));
    let broken = vec![
        SyntaxNode { kind: "module".to_string(), parent: 0 },
        SyntaxNode { kind: "x".to_string(), parent: 5 },
    ];
    assert!(matches!(tree_from_outcome(Some(broken)), Err(AnalysisError::ParseFailure)));
}

#[test]
fn a_node_list_that_is_a_tree_is_taken() {
    let nodes = vec![
        SyntaxNode { kind: "module".to_string(), parent: 0 },
        SyntaxNode { kind: "if_statement".to_string(), parent: 0 },
    ];
    let tree = tree_from_outcome(Some(nodes)).unwrap();
    assert_eq!(tree.len(), 2);
    assert_eq!(tree.node(1).kind, "if_statement");
}
