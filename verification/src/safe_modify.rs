//! The guarded replacement of a file's content: validate the path, back the
//! file up, write, verify, and then keep the change or roll it back. The
//! library decides; the caller performs each action and reports how it went.

use crate::text::{contains, str_contains};
use vstd::prelude::*;
use vstd::string::*;

verus! {

/// The fragments that mark a path as too sensitive to modify.
pub open spec fn deny_list() -> Seq<Seq<char>> {
    seq!["/etc/"@, "/System/"@, "/Windows/"@, ".env"@, "credentials"@]
}

/// Whether `path` holds a fragment of the deny list.
pub open spec fn is_denied(path: Seq<char>) -> bool {
    exists|i: int| 0 <= i < deny_list().len() && contains(path, #[trigger] deny_list()[i])
}

/// Decides whether the file at `path` may be modified: not one in a system
/// directory, no environment file and none that names credentials.
pub fn is_safe_to_modify(path: &str) -> (r: bool)
    ensures
        r == !is_denied(path@),
{
    let denied = str_contains(path, "/etc/") || str_contains(path, "/System/") || str_contains(
        path,
        "/Windows/",
    ) || str_contains(path, ".env") || str_contains(path, "credentials");
    proof {
        let list = deny_list();
        assert(list[0] == "/etc/"@ && list[1] == "/System/"@ && list[2] == "/Windows/"@);
        assert(list[3] == ".env"@ && list[4] == "credentials"@);
    }
    !denied
}

/// The path of the backup that guards a modification of `path`.
pub fn backup_path_for(path: &str) -> (r: String)
    ensures
        r@ == path@ + ".backup"@,
{
    path.to_owned().concat(".backup")
}

/// Why a modification is rolled back.
#[derive(Clone, Copy, Debug, PartialEq, Eq, Structural)]
pub enum Cause {
    /// The new content could not be written.
    ApplyFailed,
    /// The new content was written and did not pass verification.
    VerificationFailed,
}

/// How a modification ended.
#[derive(Clone, Copy, Debug, PartialEq, Eq, Structural)]
pub enum Outcome {
    /// The file holds the new content; its backup is kept.
    Committed,
    /// The path is on the deny list; nothing was touched.
    Rejected,
    /// No backup could be made; the file was not written to.
    BackupFailed,
    /// The file holds its earlier content again and the backup is gone.
    RolledBack(Cause),
    /// The file could not be restored, or its backup could not be removed:
    /// the file may hold anything, and its earlier content is in the backup.
    RestoreFailed(Cause),
}

/// Where a modification stands.
#[derive(Clone, Copy, Debug, PartialEq, Eq, Structural)]
pub enum Phase {
    BackingUp,
    Applying,
    Verifying,
    Restoring(Cause),
    Finished(Outcome),
}

/// What the caller is to do next.
#[derive(Clone, Copy, Debug, PartialEq, Eq, Structural)]
pub enum Action {
    /// Copy the file to its backup path.
    CopyToBackup,
    /// Overwrite the file with the new content.
    WriteTarget,
    /// Run the check that belongs to the file.
    RunVerification,
    /// Copy the backup over the file and then remove the backup. The action
    /// has succeeded only when the backup is gone as well.
    RestoreFromBackup,
    /// Nothing: the modification has ended.
    Stop,
}

/// The phase in which a modification of `path` starts.
pub open spec fn first_phase(path: Seq<char>) -> Phase {
    if is_denied(path) {
        Phase::Finished(Outcome::Rejected)
    } else {
        Phase::BackingUp
    }
}

/// The action that belongs to a phase.
pub open spec fn action_of(phase: Phase) -> Action {
    match phase {
        Phase::BackingUp => Action::CopyToBackup,
        Phase::Applying => Action::WriteTarget,
        Phase::Verifying => Action::RunVerification,
        Phase::Restoring(_) => Action::RestoreFromBackup,
        Phase::Finished(_) => Action::Stop,
    }
}

/// The phase that follows `phase` when its action succeeded (`ok`) or failed.
pub open spec fn next_phase(phase: Phase, ok: bool) -> Phase {
    match phase {
        Phase::BackingUp => if ok {
            Phase::Applying
        } else {
            Phase::Finished(Outcome::BackupFailed)
        },
        Phase::Applying => if ok {
            Phase::Verifying
        } else {
            Phase::Restoring(Cause::ApplyFailed)
        },
        Phase::Verifying => if ok {
            Phase::Finished(Outcome::Committed)
        } else {
            Phase::Restoring(Cause::VerificationFailed)
        },
        Phase::Restoring(cause) => if ok {
            Phase::Finished(Outcome::RolledBack(cause))
        } else {
            Phase::Finished(Outcome::RestoreFailed(cause))
        },
        Phase::Finished(outcome) => Phase::Finished(outcome),
    }
}

/// Validates `path` and gives the phase in which its modification starts.
pub fn begin(path: &str) -> (r: Phase)
    ensures
        r == first_phase(path@),
{
    if is_safe_to_modify(path) {
        Phase::BackingUp
    } else {
        Phase::Finished(Outcome::Rejected)
    }
}

/// The action to perform in `phase`.
pub fn next_action(phase: Phase) -> (r: Action)
    ensures
        r == action_of(phase),
{
    match phase {
        Phase::BackingUp => Action::CopyToBackup,
        Phase::Applying => Action::WriteTarget,
        Phase::Verifying => Action::RunVerification,
        Phase::Restoring(_) => Action::RestoreFromBackup,
        Phase::Finished(_) => Action::Stop,
    }
}

/// Moves on from `phase` once its action has succeeded (`ok`) or failed.
pub fn advance(phase: Phase, ok: bool) -> (r: Phase)
    ensures
        r == next_phase(phase, ok),
{
    match phase {
        Phase::BackingUp => if ok {
            Phase::Applying
        } else {
            Phase::Finished(Outcome::BackupFailed)
        },
        Phase::Applying => if ok {
            Phase::Verifying
        } else {
            Phase::Restoring(Cause::ApplyFailed)
        },
        Phase::Verifying => if ok {
            Phase::Finished(Outcome::Committed)
        } else {
            Phase::Restoring(Cause::VerificationFailed)
        },
        Phase::Restoring(cause) => if ok {
            Phase::Finished(Outcome::RolledBack(cause))
        } else {
            Phase::Finished(Outcome::RestoreFailed(cause))
        },
        Phase::Finished(outcome) => Phase::Finished(outcome),
    }
}

/// The outcome of a modification that has ended; `None` while it is
/// incomplete, so that a caller that was interrupted knows that no decision
/// was reached.
pub fn outcome_of(phase: Phase) -> (r: Option<Outcome>)
    ensures
        r == match phase {
            Phase::Finished(outcome) => Some(outcome),
            _ => None,
        },
{
    match phase {
        Phase::Finished(outcome) => Some(outcome),
        _ => None,
    }
}

/// What an outcome reports: nothing for a committed change, else the failure
/// in words. `detail` is the text of the last action that failed.
pub open spec fn failure_message(outcome: Outcome, detail: Seq<char>) -> Option<Seq<char>> {
    match outcome {
        Outcome::Committed => None,
        Outcome::Rejected => Some("Unsafe modification attempt blocked"@),
        Outcome::BackupFailed => Some("Backup failed: "@ + detail),
        Outcome::RolledBack(Cause::ApplyFailed) => Some(
            "Modification failed: Write failed: "@ + detail,
        ),
        Outcome::RolledBack(Cause::VerificationFailed) => Some(
            "Tests failed, rolled back changes"@,
        ),
        Outcome::RestoreFailed(_) => Some("Restore failed: "@ + detail),
    }
}

/// Reports an outcome: `Ok(true)` for a committed change, else the failure in
/// words, with the text of the last action that failed.
pub fn report(outcome: Outcome, detail: &str) -> (r: Result<bool, String>)
    ensures
        match failure_message(outcome, detail@) {
            None => r == Ok::<bool, String>(true),
            Some(message) => r is Err && r->Err_0@ == message,
        },
{
    match outcome {
        Outcome::Committed => Ok(true),
        Outcome::Rejected => Err("Unsafe modification attempt blocked".to_owned()),
        Outcome::BackupFailed => Err("Backup failed: ".to_owned().concat(detail)),
        Outcome::RolledBack(Cause::ApplyFailed) => Err(
            "Modification failed: Write failed: ".to_owned().concat(detail),
        ),
        Outcome::RolledBack(Cause::VerificationFailed) => Err(
            "Tests failed, rolled back changes".to_owned(),
        ),
        Outcome::RestoreFailed(_) => Err("Restore failed: ".to_owned().concat(detail)),
    }
}

/// The two files that a modification touches: the content of the target and,
/// where a backup exists, the content of the backup.
pub struct Files {
    pub target: Seq<char>,
    pub backup: Option<Seq<char>>,
}

/// What an action may do to the files, by whether it succeeded. A copy that
/// succeeds makes the copy equal to its source; a write that succeeds leaves
/// the new content; an action that fails may leave the file it writes to in
/// any state, and touches no other. A restore that succeeds leaves the
/// earlier content in the target and no backup.
pub open spec fn may_follow(
    action: Action,
    ok: bool,
    before: Files,
    after: Files,
    proposed: Seq<char>,
) -> bool {
    match action {
        Action::CopyToBackup => after.target == before.target && (ok ==> after.backup == Some(
            before.target,
        )),
        Action::WriteTarget => after.backup == before.backup && (ok ==> after.target
            == proposed),
        Action::RunVerification => after == before,
        Action::RestoreFromBackup => if ok {
            before.backup is Some && after.target == before.backup->0 && after.backup is None
        } else {
            after.backup == before.backup
        },
        Action::Stop => after == before,
    }
}

/// What holds of the files in each phase of a modification that found
/// `start.target` in the target and is to leave `proposed` there.
pub open spec fn files_fit(
    phase: Phase,
    files: Files,
    start: Files,
    proposed: Seq<char>,
) -> bool {
    let earlier = start.target;
    match phase {
        Phase::BackingUp => files == start,
        Phase::Applying => files.target == earlier && files.backup == Some(earlier),
        Phase::Verifying => files.target == proposed && files.backup == Some(earlier),
        Phase::Restoring(_) => files.backup == Some(earlier),
        Phase::Finished(Outcome::Committed) => files.target == proposed && files.backup == Some(
            earlier,
        ),
        Phase::Finished(Outcome::Rejected) => files == start,
        Phase::Finished(Outcome::BackupFailed) => files.target == earlier,
        Phase::Finished(Outcome::RolledBack(_)) => files.target == earlier && files.backup
            is None,
        Phase::Finished(Outcome::RestoreFailed(_)) => files.backup == Some(earlier),
    }
}

/// A modification starts with the files as they were found.
pub proof fn lemma_start_fits(path: Seq<char>, start: Files, proposed: Seq<char>)
    ensures
        files_fit(first_phase(path), start, start, proposed),
{
}

/// Every step keeps the files as its phase describes them. So a modification
/// that ends leaves the target with exactly the proposed content when it
/// committed, and with exactly its earlier content when it was rejected,
/// could not make a backup or rolled back. A committed one keeps the earlier
/// content in the backup; one that rolled back leaves no backup.
pub proof fn lemma_step_fits(
    phase: Phase,
    ok: bool,
    before: Files,
    after: Files,
    start: Files,
    proposed: Seq<char>,
)
    requires
        files_fit(phase, before, start, proposed),
        may_follow(action_of(phase), ok, before, after, proposed),
    ensures
        files_fit(next_phase(phase, ok), after, start, proposed),
{
}

} // verus!
