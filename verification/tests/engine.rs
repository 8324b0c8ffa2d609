use code_evolution::analyzer::AnalysisError;
use code_evolution::diffing::diff_is_feasible;
use code_evolution::engine::{backup_dir_under, optimization_event, EvolutionEngine};
use code_evolution::history::{
    EvolutionHistory, EvolutionStatus, EvolutionType, RiskLevel, Severity, Timestamp,
};
use code_evolution::metrics::CodeMetrics;

#[test]
fn new_engine_has_an_empty_history() {
    let engine = EvolutionEngine::new("/tmp/backups".to_string());
    assert!(engine.history().is_empty());
    assert_eq!(engine.backup_dir(), "/tmp/backups");
}

#[test]
fn suggestions_come_from_all_three_analysers() {
    let mut engine = EvolutionEngine::new("b".to_string());
    let block = "    total = total + 1\n    print(total)\n    check(total)\n";
    let mut code = String::from("for i in range(len(items)):\n");
    code.push_str(block);
    code.push_str("    other()\n");
    code.push_str(block);
    let found = engine.suggest_optimization(&code, "python").unwrap();
    let titles: Vec<&str> = found.iter().map(|s| s.title.as_str()).collect();
    assert_eq!(titles, vec!["중복 코드 제거", "성능 최적화 가능"]);
    assert_eq!(found[0].description, "1개의 중복 패턴이 발견되었습니다.");
}

#[test]
fn deeply_branching_code_gets_the_split_suggestion() {
    let mut engine = EvolutionEngine::new("b".to_string());
    let mut code = String::new();
    for i in 0..11 {
        code.push_str(&format!("if (a{} > {}) {{ f{}(); }}\n", i, i, i));
    }
    let found = engine.suggest_optimization(&code, "javascript").unwrap();
    assert_eq!(found.len(), 1);
    assert_eq!(found[0].title, "함수 분리 권장");
    assert_eq!(engine.analyze(&code, "javascript").unwrap().complexity, 12);
}

#[test]
fn ten_branches_are_not_yet_too_many() {
    let mut engine = EvolutionEngine::new("b".to_string());
    let mut code = String::new();
    for i in 0..9 {
        code.push_str(&format!("if (a{} > {}) {{ f{}(); }}\n", i, i, i));
    }
    assert_eq!(engine.analyze(&code, "javascript").unwrap().complexity, 10);
    assert!(engine.suggest_optimization(&code, "javascript").unwrap().is_empty());
}

#[test]
fn suggestions_need_a_language_that_can_be_parsed() {
    let mut engine = EvolutionEngine::new("b".to_string());
    let error = engine.suggest_optimization("fn main() {}", "rust").unwrap_err();
    assert!(matches!(error, AnalysisError::UnsupportedLanguage(name) if name == "rust"));
}

#[test]
fn improvement_rewrites_then_records_one_completed_event() {
    let mut engine = EvolutionEngine::new("/home/me/.gumgang/backups".to_string());
    let code = "var a = 1;\nif (a == 1) { a = 2; }\n";
    let plan = engine.begin_improvement(code, "javascript");
    assert_eq!(plan.improved, "let a = 1;\nif (a === 1) { a = 2; }\n");
    assert!(plan.backup_name.starts_with("backup_"));
    assert!(plan.backup_name.ends_with(".js"));
    assert_eq!(plan.backup_path, format!("/home/me/.gumgang/backups/{}", plan.backup_name));
    assert!(engine.history().is_empty());

    assert!(diff_is_feasible(code, &plan.improved));
    let improved = engine.finish_improvement(code, "javascript", plan.improved).unwrap();
    assert_eq!(improved, "let a = 1;\nif (a === 1) { a = 2; }\n");

    let history = engine.history();
    assert_eq!(history.len(), 1);
    let event = &history[0];
    assert_eq!(event.id.len(), 36);
    assert_eq!(event.event_type, EvolutionType::Optimization);
    assert_eq!(event.severity, Severity::Low);
    assert_eq!(event.status, EvolutionStatus::Completed);
    assert_eq!(event.title, "자동 코드 개선");
    assert_eq!(event.description, "AI가 코드를 자동으로 최적화했습니다.");
    assert!(event.timestamp.secs > 1_600_000_000);
    let change = event.changes.as_ref().unwrap();
    assert_eq!(change.before, code);
    assert_eq!(change.after, improved);
    assert_eq!(change.language, "javascript");
    assert_eq!(change.filename, "unknown");
    assert_eq!(change.line_start, 0);
    assert_eq!(change.line_end, 2);
    assert_eq!(
        change.diff,
        "- var a = 1;\n- if (a == 1) { a = 2; }\n+ let a = 1;\n+ if (a === 1) { a = 2; }\n  \n"
    );
    let metrics = event.metrics.unwrap();
    assert_eq!(metrics.complexity, 2);
    assert_eq!(metrics.lines_of_code, 2);
    assert!(event.impact.affected_files.is_empty());
    assert!(event.impact.affected_functions.is_empty());
    assert!(event.impact.dependencies.is_empty());
    assert_eq!(event.impact.estimated_risk, RiskLevel::Low);
    assert!(event.impact.rollback_available());
    assert_eq!(event.impact.backup_path.as_deref(), Some("/home/me/.gumgang/backups"));
}

#[test]
fn events_are_kept_in_the_order_of_their_recording() {
    let mut engine = EvolutionEngine::new("b".to_string());
    for code in ["var a;", "var b;", "var c;"] {
        let plan = engine.begin_improvement(code, "typescript");
        engine.finish_improvement(code, "typescript", plan.improved).unwrap();
    }
    let before: Vec<&str> = engine
        .history()
        .iter()
        .map(|e| e.changes.as_ref().unwrap().before.as_str())
        .collect();
    assert_eq!(before, vec!["var a;", "var b;", "var c;"]);
    let ids: Vec<&str> = engine.history().iter().map(|e| e.id.as_str()).collect();
    assert_ne!(ids[0], ids[1]);
    assert_ne!(ids[1], ids[2]);
}

#[test]
fn improvement_of_a_language_without_grammar_records_nothing() {
    let mut engine = EvolutionEngine::new("b".to_string());
    let code = "let x = a.unwrap();";
    let plan = engine.begin_improvement(code, "rust");
    assert_eq!(plan.improved, "let x = a?;");
    assert!(plan.backup_name.ends_with(".rs"));
    let error = engine.finish_improvement(code, "rust", plan.improved).unwrap_err();
    assert_eq!(error.message(), "Language rust not supported");
    assert!(engine.history().is_empty());
}

#[test]
fn event_for_given_id_and_time() {
    let metrics = CodeMetrics {
        complexity: 1,
        performance: 85,
        security: 90,
        test_coverage: 0,
        lines_of_code: 1,
    };
    let stamp = Timestamp { secs: 1_700_000_000, nanos: 5 };
    let event =
        optimization_event("id-1".to_string(), stamp, "a\nb", "a\nc", "python", metrics, "dir");
    assert_eq!(event.id, "id-1");
    assert_eq!(event.timestamp, stamp);
    assert_eq!(event.metrics, Some(metrics));
    let change = event.changes.unwrap();
    assert_eq!(change.diff, "  a\n- b\n+ c\n");
    assert_eq!(change.line_end, 2);
    assert_eq!(event.impact.backup_path.as_deref(), Some("dir"));
}

#[test]
fn ledger_appends_and_lists_in_order() {
    let metrics = CodeMetrics {
        complexity: 1,
        performance: 85,
        security: 90,
        test_coverage: 0,
        lines_of_code: 1,
    };
    let mut ledger = EvolutionHistory::new();
    assert_eq!(ledger.len(), 0);
    for id in ["first", "second", "third"] {
        let stamp = Timestamp { secs: 0, nanos: 0 };
        ledger.record(optimization_event(id.to_string(), stamp, "", "", "python", metrics, "d"));
    }
    assert_eq!(ledger.len(), 3);
    let ids: Vec<&str> = ledger.list().iter().map(|e| e.id.as_str()).collect();
    assert_eq!(ids, vec!["first", "second", "third"]);
}

#[test]
fn backup_directory_below_home() {
    assert_eq!(backup_dir_under(Some("/home/me")), "/home/me/.gumgang/backups");
    assert_eq!(backup_dir_under(None), "./.gumgang/backups");
}
