use code_evolution::safe_modify::{
    advance, backup_path_for, begin, is_safe_to_modify, next_action, outcome_of, report, Action,
    Cause, Outcome, Phase,
};
use std::collections::HashMap;

struct Disk {
    files: HashMap<String, String>,
    writes: usize,
    fail_write: bool,
    fail_restore: bool,
    fail_remove: bool,
    tests_pass: bool,
}

impl Disk {
    fn with_file(path: &str, content: &str) -> Disk {
        let mut files = HashMap::new();
        files.insert(path.to_string(), content.to_string());
        Disk {
            files,
            writes: 0,
            fail_write: false,
            fail_restore: false,
            fail_remove: false,
            tests_pass: true,
        }
    }

    fn copy(&mut self, from: &str, to: &str) -> Result<(), String> {
        match self.files.get(from).cloned() {
            Some(content) => {
                self.writes += 1;
                self.files.insert(to.to_string(), content);
                Ok(())
            }
            None => Err(format!("{} not found", from)),
        }
    }

    fn write(&mut self, path: &str, content: &str) -> Result<(), String> {
        self.writes += 1;
        if self.fail_write {
            self.files.insert(path.to_string(), content[..content.len() / 2].to_string());
            Err("disk full".to_string())
        } else {
            self.files.insert(path.to_string(), content.to_string());
            Ok(())
        }
    }

    fn restore(&mut self, path: &str, backup: &str) -> Result<(), String> {
        if self.fail_restore {
            return Err("device gone".to_string());
        }
        self.copy(backup, path)?;
        if self.fail_remove {
            return Err("backup is locked".to_string());
        }
        self.files.remove(backup);
        Ok(())
    }
}

fn safe_modify(disk: &mut Disk, path: &str, content: &str) -> Result<bool, String> {
    let backup = backup_path_for(path);
    let mut phase = begin(path);
    let mut detail = String::new();
    loop {
        let done: Result<(), String> = match next_action(phase) {
            Action::CopyToBackup => disk.copy(path, &backup),
            Action::WriteTarget => disk.write(path, content),
            Action::RunVerification => {
                if disk.tests_pass {
                    Ok(())
                } else {
                    Err("tests failed".to_string())
                }
            }
            Action::RestoreFromBackup => disk.restore(path, &backup),
            Action::Stop => return report(outcome_of(phase).unwrap(), &detail),
        };
        if let Err(cause) = &done {
            detail = cause.clone();
        }
        phase = advance(phase, done.is_ok());
    }
}

#[test]
fn deny_listed_path_is_refused_and_nothing_is_written() {
    let path = "/home/me/credentials.json";
    let mut disk = Disk::with_file(path, "secret");
    let result = safe_modify(&mut disk, path, "changed");
    assert_eq!(result, Err("Unsafe modification attempt blocked".to_string()));
    assert_eq!(disk.writes, 0);
    assert_eq!(disk.files.len(), 1);
    assert_eq!(disk.files[path], "secret");
    assert_eq!(begin(path), Phase::Finished(Outcome::Rejected));
}

#[test]
fn failed_verification_puts_the_old_content_back_and_drops_the_backup() {
    let path = "/work/app.py";
    let mut disk = Disk::with_file(path, "old content\n");
    disk.tests_pass = false;
    let result = safe_modify(&mut disk, path, "new content\n");
    assert_eq!(result, Err("Tests failed, rolled back changes".to_string()));
    assert_eq!(disk.files[path], "old content\n");
    assert!(!disk.files.contains_key("/work/app.py.backup"));
    assert_eq!(disk.files.len(), 1);
}

#[test]
fn success_leaves_the_new_content_and_keeps_the_backup() {
    let path = "/work/app.py";
    let mut disk = Disk::with_file(path, "old content\n");
    let result = safe_modify(&mut disk, path, "new content\n");
    assert_eq!(result, Ok(true));
    assert_eq!(disk.files[path], "new content\n");
    assert_eq!(disk.files["/work/app.py.backup"], "old content\n");
}

#[test]
fn failed_write_is_rolled_back() {
    let path = "/work/app.py";
    let mut disk = Disk::with_file(path, "old content\n");
    disk.fail_write = true;
    let result = safe_modify(&mut disk, path, "new content\n");
    assert_eq!(result, Err("Modification failed: Write failed: disk full".to_string()));
    assert_eq!(disk.files[path], "old content\n");
    assert!(!disk.files.contains_key("/work/app.py.backup"));
}

#[test]
fn failed_backup_ends_before_any_write() {
    let mut disk = Disk::with_file("/work/other.py", "x");
    let result = safe_modify(&mut disk, "/work/app.py", "new");
    assert_eq!(result, Err("Backup failed: /work/app.py not found".to_string()));
    assert_eq!(disk.writes, 0);
    assert!(!disk.files.contains_key("/work/app.py"));
}

#[test]
fn failed_restore_is_reported_apart_and_keeps_the_backup() {
    let path = "/work/app.py";
    let mut disk = Disk::with_file(path, "old");
    disk.tests_pass = false;
    disk.fail_restore = true;
    let result = safe_modify(&mut disk, path, "new");
    assert_eq!(result, Err("Restore failed: device gone".to_string()));
    assert_eq!(disk.files["/work/app.py.backup"], "old");
}

#[test]
fn a_backup_that_cannot_be_removed_is_no_rollback() {
    let path = "/work/app.py";
    let mut disk = Disk::with_file(path, "old");
    disk.tests_pass = false;
    disk.fail_remove = true;
    let result = safe_modify(&mut disk, path, "new");
    assert_eq!(result, Err("Restore failed: backup is locked".to_string()));
    assert_eq!(disk.files["/work/app.py.backup"], "old");
}

#[test]
fn deny_list_fragments() {
    assert!(!is_safe_to_modify("/etc/passwd"));
    assert!(!is_safe_to_modify("/System/Library/x"));
    assert!(!is_safe_to_modify("C:/Windows/system32"));
    assert!(!is_safe_to_modify("/srv/app/.env"));
    assert!(!is_safe_to_modify("/srv/app/.env.local"));
    assert!(!is_safe_to_modify("my_credentials.txt"));
    assert!(is_safe_to_modify("/srv/app/main.py"));
    assert!(is_safe_to_modify("/etcetera/file"));
    assert!(is_safe_to_modify("etc/file"));
    assert!(is_safe_to_modify(""));
}

#[test]
fn backup_path_appends_the_suffix() {
    assert_eq!(backup_path_for("/a/b.py"), "/a/b.py.backup");
    assert_eq!(backup_path_for(""), ".backup");
}

#[test]
fn every_phase_has_its_action_and_successors() {
    assert_eq!(begin("/work/a.py"), Phase::BackingUp);
    assert_eq!(next_action(Phase::BackingUp), Action::CopyToBackup);
    assert_eq!(next_action(Phase::Applying), Action::WriteTarget);
    assert_eq!(next_action(Phase::Verifying), Action::RunVerification);
    assert_eq!(next_action(Phase::Restoring(Cause::ApplyFailed)), Action::RestoreFromBackup);
    assert_eq!(next_action(Phase::Finished(Outcome::Committed)), Action::Stop);

    assert_eq!(advance(Phase::BackingUp, true), Phase::Applying);
    assert_eq!(advance(Phase::BackingUp, false), Phase::Finished(Outcome::BackupFailed));
    assert_eq!(advance(Phase::Applying, true), Phase::Verifying);
    assert_eq!(advance(Phase::Applying, false), Phase::Restoring(Cause::ApplyFailed));
    assert_eq!(advance(Phase::Verifying, true), Phase::Finished(Outcome::Committed));
    assert_eq!(advance(Phase::Verifying, false), Phase::Restoring(Cause::VerificationFailed));
    assert_eq!(
        advance(Phase::Restoring(Cause::VerificationFailed), true),
        Phase::Finished(Outcome::RolledBack(Cause::VerificationFailed))
    );
    assert_eq!(
        advance(Phase::Restoring(Cause::ApplyFailed), false),
        Phase::Finished(Outcome::RestoreFailed(Cause::ApplyFailed))
    );
    let done = Phase::Finished(Outcome::Rejected);
    assert_eq!(advance(done, true), done);
    assert_eq!(advance(done, false), done);
}

#[test]
fn an_unfinished_phase_has_no_outcome() {
    assert_eq!(outcome_of(Phase::BackingUp), None);
    assert_eq!(outcome_of(Phase::Applying), None);
    assert_eq!(outcome_of(Phase::Verifying), None);
    assert_eq!(outcome_of(Phase::Restoring(Cause::ApplyFailed)), None);
    assert_eq!(outcome_of(Phase::Finished(Outcome::Committed)), Some(Outcome::Committed));
}

#[test]
fn reports_in_words() {
    assert_eq!(report(Outcome::Committed, "ignored"), Ok(true));
    assert_eq!(
        report(Outcome::Rejected, "ignored"),
        Err("Unsafe modification attempt blocked".to_string())
    );
    assert_eq!(report(Outcome::BackupFailed, "no space"), Err("Backup failed: no space".to_string()));
    assert_eq!(
        report(Outcome::RolledBack(Cause::ApplyFailed), "denied"),
        Err("Modification failed: Write failed: denied".to_string())
    );
    assert_eq!(
        report(Outcome::RolledBack(Cause::VerificationFailed), "x"),
        Err("Tests failed, rolled back changes".to_string())
    );
    assert_eq!(
        report(Outcome::RestoreFailed(Cause::VerificationFailed), "gone"),
        Err("Restore failed: gone".to_string())
    );
}
