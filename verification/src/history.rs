//! The record of what the engine did to code: events and their ledger.

use crate::metrics::CodeMetrics;
use vstd::prelude::*;

verus! {

/// What kind of change an event records.
#[derive(Clone, Copy, Debug, PartialEq, Eq, Structural)]
pub enum EvolutionType {
    Mutation,
    Optimization,
    Adaptation,
    Learning,
    Refactor,
    Security,
    Feature,
}

/// How much an event matters.
#[derive(Clone, Copy, Debug, PartialEq, Eq, Structural)]
pub enum Severity {
    Low,
    Medium,
    High,
    Critical,
}

/// How risky a change is taken to be.
#[derive(Clone, Copy, Debug, PartialEq, Eq, Structural)]
pub enum RiskLevel {
    Low,
    Medium,
    High,
}

/// How far the change of an event has come.
#[derive(Clone, Copy, Debug, PartialEq, Eq, Structural)]
pub enum EvolutionStatus {
    Pending,
    InProgress,
    Completed,
    Failed,
    RolledBack,
}

/// A moment in time: seconds since the start of 1970 in UTC, and the
/// nanoseconds into that second.
#[derive(Clone, Copy, Debug, PartialEq, Eq, Structural)]
pub struct Timestamp {
    pub secs: i64,
    pub nanos: u32,
}

/// One rewrite: the text before and after it, and their rendered difference.
#[derive(Debug)]
pub struct CodeChange {
    pub before: String,
    pub after: String,
    pub language: String,
    pub filename: String,
    pub line_start: usize,
    pub line_end: usize,
    pub diff: String,
}

/// What a change touches and how it can be undone. A change can be rolled
/// back exactly when a backup path is known.
#[derive(Debug)]
pub struct ImpactAnalysis {
    pub affected_files: Vec<String>,
    pub affected_functions: Vec<String>,
    pub dependencies: Vec<String>,
    pub estimated_risk: RiskLevel,
    pub backup_path: Option<String>,
}

impl ImpactAnalysis {
    /// Whether the change can be rolled back.
    pub fn rollback_available(&self) -> (r: bool)
        ensures
            r == self.backup_path is Some,
    {
        self.backup_path.is_some()
    }
}

/// One entry of the ledger.
#[derive(Debug)]
pub struct EvolutionEvent {
    pub id: String,
    pub timestamp: Timestamp,
    pub event_type: EvolutionType,
    pub severity: Severity,
    pub title: String,
    pub description: String,
    pub changes: Option<CodeChange>,
    pub metrics: Option<CodeMetrics>,
    pub impact: ImpactAnalysis,
    pub status: EvolutionStatus,
}

/// The ledger: events in the order in which they were recorded. It lives in
/// memory only and starts empty.
#[derive(Debug)]
pub struct EvolutionHistory {
    events: Vec<EvolutionEvent>,
}

impl View for EvolutionHistory {
    type V = Seq<EvolutionEvent>;

    closed spec fn view(&self) -> Seq<EvolutionEvent> {
        self.events@
    }
}

impl EvolutionHistory {
    /// An empty ledger.
    pub fn new() -> (r: EvolutionHistory)
        ensures
            r@ == Seq::<EvolutionEvent>::empty(),
    {
        EvolutionHistory { events: Vec::new() }
    }

    /// Appends `event`; the earlier entries stay as they are.
    pub fn record(&mut self, event: EvolutionEvent)
        ensures
            final(self)@ == old(self)@.push(event),
    {
        self.events.push(event);
    }

    /// The events, in the order in which they were recorded.
    pub fn list(&self) -> (r: &Vec<EvolutionEvent>)
        ensures
            r@ == self@,
    {
        &self.events
    }

    /// The number of events.
    pub fn len(&self) -> (r: usize)
        ensures
            r == self@.len(),
    {
        self.events.len()
    }
}

} // verus!
