//! The engine: analysis, suggestions and recorded rewrites of source code.

use crate::analyzer::{language_named, syntax_nodes, tree_of, AnalysisError, AstAnalyzer};
use crate::backup::{backup_name, next_backup_name};
use crate::diffing::{diff_table_fits, diff_text, generate_diff};
use crate::duplicates::{detect_duplicates, duplicate_findings};
use crate::history::{
    CodeChange, EvolutionEvent, EvolutionHistory, EvolutionStatus, EvolutionType, ImpactAnalysis,
    RiskLevel, Severity, Timestamp,
};
use crate::metrics::{complexity, count_lines, is_metrics_of, CodeMetrics};
use crate::patterns::{has_issue, has_performance_issues};
use crate::paths::{join, joined_path};
use crate::rewriter::{rewrite, rewritten};
use crate::suggestions::{suggest, suggestion_models, suggestions_for, OptimizationSuggestion};
use crate::text::lines;
use vstd::prelude::*;
use vstd::string::*;

verus! {

/// Draws a random identifier with `uuid::Uuid::new_v4` and writes it out.
/// Trusted, with nothing claimed of the text: it is drawn at random.
#[verifier::external_body]
fn fresh_id() -> (r: String) {
    uuid::Uuid::new_v4().to_string()
}

/// Reads the clock with `chrono::Utc::now`. Trusted, with nothing claimed of
/// the moment: it depends on the time of the call.
#[verifier::external_body]
fn now() -> (r: Timestamp) {
    let moment = chrono::Utc::now();
    Timestamp { secs: moment.timestamp(), nanos: moment.timestamp_subsec_nanos() }
}

/// The directory for snapshots below a home directory: `.gumgang/backups`
/// under it, or under the current directory where no home is known.
pub open spec fn backup_dir_below(home: Option<Seq<char>>) -> Seq<char> {
    let base = match home {
        Some(dir) => dir,
        None => "."@,
    };
    joined_path(joined_path(base, ".gumgang"@), "backups"@)
}

/// The directory in which snapshots are kept, given the home directory.
pub fn backup_dir_under(home: Option<&str>) -> (r: String)
    ensures
        r@ == backup_dir_below(
            match home {
                Some(dir) => Some(dir@),
                None => None,
            },
        ),
{
    let base: &str = match home {
        Some(dir) => dir,
        None => ".",
    };
    let hidden = join(base, ".gumgang");
    join(hidden.as_str(), "backups")
}

/// Whether `event` records the rewrite of `code` into `improved`: an
/// optimization of low severity and low risk that is completed, with both
/// texts, their difference, the measures of the improved text and the
/// directory of the backup. Its identifier and its time are left open.
pub open spec fn is_optimization_event(
    event: EvolutionEvent,
    code: Seq<char>,
    improved: Seq<char>,
    language: Seq<char>,
    metrics: CodeMetrics,
    backup_dir: Seq<char>,
) -> bool {
    &&& event.event_type == EvolutionType::Optimization
    &&& event.severity == Severity::Low
    &&& event.title@ == "자동 코드 개선"@
    &&& event.description@ == "AI가 코드를 자동으로 최적화했습니다."@
    &&& event.changes is Some
    &&& event.changes->0.before@ == code
    &&& event.changes->0.after@ == improved
    &&& event.changes->0.language@ == language
    &&& event.changes->0.filename@ == "unknown"@
    &&& event.changes->0.line_start == 0
    &&& event.changes->0.line_end == lines(code).len()
    &&& event.changes->0.diff@ == diff_text(code, improved)
    &&& event.metrics == Some(metrics)
    &&& event.impact.affected_files@.len() == 0
    &&& event.impact.affected_functions@.len() == 0
    &&& event.impact.dependencies@.len() == 0
    &&& event.impact.estimated_risk == RiskLevel::Low
    &&& event.impact.backup_path is Some
    &&& event.impact.backup_path->0@ == backup_dir
    &&& event.status == EvolutionStatus::Completed
}

/// Builds the event that records the rewrite of `code` into `improved`.
pub fn optimization_event(
    id: String,
    timestamp: Timestamp,
    code: &str,
    improved: &str,
    language: &str,
    metrics: CodeMetrics,
    backup_dir: &str,
) -> (r: EvolutionEvent)
    requires
        diff_table_fits(code@, improved@),
    ensures
        r.id@ == id@,
        r.timestamp == timestamp,
        is_optimization_event(r, code@, improved@, language@, metrics, backup_dir@),
{
    EvolutionEvent {
        id,
        timestamp,
        event_type: EvolutionType::Optimization,
        severity: Severity::Low,
        title: "자동 코드 개선".to_owned(),
        description: "AI가 코드를 자동으로 최적화했습니다.".to_owned(),
        changes: Some(
            CodeChange {
                before: code.to_owned(),
                after: improved.to_owned(),
                language: language.to_owned(),
                filename: "unknown".to_owned(),
                line_start: 0,
                line_end: count_lines(code),
                diff: generate_diff(code, improved),
            },
        ),
        metrics: Some(metrics),
        impact: ImpactAnalysis {
            affected_files: Vec::new(),
            affected_functions: Vec::new(),
            dependencies: Vec::new(),
            estimated_risk: RiskLevel::Low,
            backup_path: Some(backup_dir.to_owned()),
        },
        status: EvolutionStatus::Completed,
    }
}

/// A rewrite that waits for its snapshot to be written.
#[derive(Debug)]
pub struct Improvement {
    /// The rewritten code.
    pub improved: String,
    /// The file name under which the code as it was is to be kept.
    pub backup_name: String,
    /// The path of that file in the directory for snapshots.
    pub backup_path: String,
}

/// The engine: an analyser, the ledger and the directory for snapshots.
pub struct EvolutionEngine {
    analyzer: AstAnalyzer,
    history: EvolutionHistory,
    backup_dir: String,
}

impl EvolutionEngine {
    /// The events recorded so far.
    pub closed spec fn events(&self) -> Seq<EvolutionEvent> {
        self.history@
    }

    /// The directory in which snapshots are kept.
    pub closed spec fn backup_dir_spec(&self) -> Seq<char> {
        self.backup_dir@
    }

    /// An engine with an empty ledger that keeps its snapshots in
    /// `backup_dir`.
    pub fn new(backup_dir: String) -> (r: EvolutionEngine)
        ensures
            r.events() == Seq::<EvolutionEvent>::empty(),
            r.backup_dir_spec() == backup_dir@,
    {
        EvolutionEngine {
            analyzer: AstAnalyzer::new(),
            history: EvolutionHistory::new(),
            backup_dir,
        }
    }

    /// The directory in which snapshots are kept.
    pub fn backup_dir(&self) -> (r: &str)
        ensures
            r@ == self.backup_dir_spec(),
    {
        self.backup_dir.as_str()
    }

    /// The events recorded so far, oldest first.
    pub fn history(&self) -> (r: &Vec<EvolutionEvent>)
        ensures
            r@ == self.events(),
    {
        self.history.list()
    }

    /// Measures `code`, read as `language`.
    pub fn analyze(&mut self, code: &str, language: &str) -> (r: Result<
        CodeMetrics,
        AnalysisError,
    >)
        ensures
            final(self).events() == old(self).events(),
            final(self).backup_dir_spec() == old(self).backup_dir_spec(),
            match language_named(language@) {
                None => r is Err && r->Err_0 is UnsupportedLanguage
                    && r->Err_0->UnsupportedLanguage_0@ == language@,
                Some(known) => match tree_of(syntax_nodes(known, code@)) {
                    Some(nodes) => r is Ok && is_metrics_of(r->Ok_0, nodes, code@)
                        && r->Ok_0.complexity >= 1,
                    None => r is Err && r->Err_0 is ParseFailure,
                },
            },
    {
        self.analyzer.analyze(code, language)
    }

    /// Suggests improvements for `code`: one for a complexity over the limit,
    /// one for duplicated runs of lines, one for idioms known to run slowly.
    pub fn suggest_optimization(&mut self, code: &str, language: &str) -> (r: Result<
        Vec<OptimizationSuggestion>,
        AnalysisError,
    >)
        ensures
            final(self).events() == old(self).events(),
            final(self).backup_dir_spec() == old(self).backup_dir_spec(),
            match language_named(language@) {
                None => r is Err && r->Err_0 is UnsupportedLanguage
                    && r->Err_0->UnsupportedLanguage_0@ == language@,
                Some(known) => match tree_of(syntax_nodes(known, code@)) {
                    Some(nodes) => r is Ok && suggestion_models(r->Ok_0@) == suggestions_for(
                        complexity(nodes, 0),
                        duplicate_findings(code@),
                        has_issue(code@, language@),
                    ),
                    None => r is Err && r->Err_0 is ParseFailure,
                },
            },
    {
        match self.analyzer.analyze(code, language) {
            Err(e) => Err(e),
            Ok(metrics) => {
                let duplicates = detect_duplicates(code);
                let slow = has_performance_issues(code, language);
                let found = suggest(&metrics, duplicates, slow);
                Ok(found)
            },
        }
    }

    /// First half of an automatic improvement: rewrites `code` by the rules
    /// of `language` and names the snapshot that is to hold `code` as it was.
    /// Nothing is recorded yet; the caller writes the snapshot and, if that
    /// succeeds, goes on with `finish_improvement`.
    pub fn begin_improvement(&self, code: &str, language: &str) -> (r: Improvement)
        ensures
            r.improved@ == rewritten(code@, language@),
            exists|stamp: Seq<char>| r.backup_name@ == backup_name(stamp, code@, language@),
            r.backup_path@ == joined_path(self.backup_dir_spec(), r.backup_name@),
    {
        let name = next_backup_name(code, language);
        let path = join(self.backup_dir.as_str(), name.as_str());
        Improvement { improved: rewrite(code, language), backup_name: name, backup_path: path }
    }

    /// Second half of an automatic improvement, for when the snapshot has
    /// been written: measures the improved code, records the event and hands
    /// the improved code back. Where the improved code cannot be analysed the
    /// failure is returned and nothing is recorded.
    pub fn finish_improvement(&mut self, code: &str, language: &str, improved: String) -> (r:
        Result<String, AnalysisError>)
        requires
            diff_table_fits(code@, improved@),
        ensures
            final(self).backup_dir_spec() == old(self).backup_dir_spec(),
            match language_named(language@) {
                None => r is Err && r->Err_0 is UnsupportedLanguage
                    && r->Err_0->UnsupportedLanguage_0@ == language@ && final(self).events()
                    == old(self).events(),
                Some(known) => match tree_of(syntax_nodes(known, improved@)) {
                    Some(nodes) => {
                        &&& r is Ok
                        &&& r->Ok_0@ == improved@
                        &&& final(self).events().len() == old(self).events().len() + 1
                        &&& final(self).events().drop_last() == old(self).events()
                        &&& final(self).events().last().metrics is Some
                        &&& is_metrics_of(
                            final(self).events().last().metrics->0,
                            nodes,
                            improved@,
                        )
                        &&& is_optimization_event(
                            final(self).events().last(),
                            code@,
                            improved@,
                            language@,
                            final(self).events().last().metrics->0,
                            old(self).backup_dir_spec(),
                        )
                    },
                    None => r is Err && r->Err_0 is ParseFailure && final(self).events() == old(
                        self,
                    ).events(),
                },
            },
    {
        match self.analyzer.analyze(improved.as_str(), language) {
            Err(e) => Err(e),
            Ok(metrics) => {
                let event = optimization_event(
                    fresh_id(),
                    now(),
                    code,
                    improved.as_str(),
                    language,
                    metrics,
                    self.backup_dir.as_str(),
                );
                self.history.record(event);
                Ok(improved)
            },
        }
    }
}

} // verus!
