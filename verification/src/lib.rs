//! A toolkit for measuring source code, rewriting it by textual rules and
//! guarding every automated edit with backups and rollback decisions.
//!
//! - [`analyzer`] parses source text and [`metrics`] measures the syntax
//!   trees of [`syntax`]: cyclomatic complexity and size.
//! - [`duplicates`] counts repeated runs of lines, [`patterns`] scans for
//!   idioms that run slowly, and [`suggestions`] turns the findings into
//!   proposals.
//! - [`rewriter`] applies the substitution rules of a language, [`diffing`]
//!   renders what changed, and [`backup`] names the snapshot of what was.
//! - [`history`] is the ledger of recorded rewrites, and [`engine`] ties
//!   analysis, rewriting and ledger together.
//! - [`safe_modify`] decides, step by step, how a file is replaced behind a
//!   backup and when the change is rolled back.
//! - [`watch`] is the table of watched paths.
//! - [`paths`], [`listing`], [`search`] and [`shell`] hold the rules of the
//!   file commands: which relative paths are accepted, how a directory is
//!   listed, which lines and names match, how a caller is greeted.
//! - [`text`] holds what they share: whitespace, trimming, lines, search.
//!
//! The library performs no input or output. Reading the clock, drawing an
//! identifier, parsing, hashing, matching and comparing go through functions
//! of other crates whose contracts are stated without proof; everything
//! around those calls is verified.

pub mod analyzer;
pub mod backup;
pub mod diffing;
pub mod duplicates;
pub mod engine;
pub mod history;
pub mod listing;
pub mod metrics;
pub mod paths;
pub mod patterns;
pub mod rewriter;
pub mod safe_modify;
pub mod search;
pub mod shell;
pub mod suggestions;
pub mod syntax;
pub mod text;
pub mod watch;
