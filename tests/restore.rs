use std::collections::HashMap;

use pbs_admin::backup::BackupError;
use pbs_admin::restore::{outcome_result, Cleanup, FileOp, Next, Phase, Restore, RestoreOutcome};

/// Files held in memory, with operations made to fail on demand.
struct Disk {
    files: HashMap<&'static str, Vec<u8>>,
    failing: Vec<FileOp>,
}

impl Disk {
    fn copy(&mut self, from: &'static str, to: &'static str, op: FileOp) -> bool {
        if self.failing.contains(&op) {
            // A failed copy leaves a damaged destination behind.
            self.files.insert(to, b"partial".to_vec());
            return false;
        }
        match self.files.get(from).cloned() {
            Some(bytes) => {
                self.files.insert(to, bytes);
                true
            }
            None => false,
        }
    }

    fn perform(&mut self, op: FileOp) -> bool {
        match op {
            FileOp::CopyDatabaseToSafety => self.copy("db", "safety", op),
            FileOp::CopyArtifactToDatabase => self.copy("artifact", "db", op),
            FileOp::CopySafetyToDatabase => self.copy("safety", "db", op),
            FileOp::CopyDatabaseToArtifact => self.copy("db", "artifact", op),
            FileOp::RemoveSafety => {
                if self.failing.contains(&op) {
                    return false;
                }
                self.files.remove("safety").is_some()
            }
        }
    }

    fn restore(&mut self) -> (RestoreOutcome, Result<Cleanup, BackupError>) {
        let (mut machine, mut op) = Restore::start();
        loop {
            let ok = self.perform(op);
            match machine.step(ok) {
                Next::Perform(next) => op = next,
                Next::Finish(outcome) => {
                    return (outcome, outcome_result(outcome, "db.pre-restore".to_string()))
                }
            }
        }
    }
}

fn disk(db: &[u8], artifact: &[u8], failing: Vec<FileOp>) -> Disk {
    let mut files = HashMap::new();
    files.insert("db", db.to_vec());
    files.insert("artifact", artifact.to_vec());
    Disk { files, failing }
}

#[test]
fn successful_restore_installs_backup_and_removes_safety_copy() {
    let mut d = disk(b"live", b"saved", vec![]);
    let (outcome, result) = d.restore();
    assert_eq!(outcome, RestoreOutcome::Restored);
    assert_eq!(result, Ok(Cleanup::Removed));
    assert_eq!(d.files["db"], b"saved".to_vec());
    assert!(!d.files.contains_key("safety"));
}

#[test]
fn backup_then_restore_round_trips() {
    let mut d = disk(b"before", b"", vec![]);
    assert!(d.perform(FileOp::CopyDatabaseToArtifact));
    d.files.insert("db", b"changed later".to_vec());
    let (_, result) = d.restore();
    assert_eq!(result, Ok(Cleanup::Removed));
    assert_eq!(d.files["db"], b"before".to_vec());
}

#[test]
fn failed_overwrite_is_rolled_back() {
    let mut d = disk(b"live", b"saved", vec![FileOp::CopyArtifactToDatabase]);
    let (outcome, result) = d.restore();
    assert_eq!(outcome, RestoreOutcome::RestoreFailed);
    assert_eq!(result, Err(BackupError::RestoreFailed { cleanup: Cleanup::Removed }));
    assert_eq!(d.files["db"], b"live".to_vec());
    assert!(!d.files.contains_key("safety"));
}

#[test]
fn failed_cleanup_after_rollback_is_reported() {
    let mut d = disk(b"live", b"saved", vec![FileOp::CopyArtifactToDatabase, FileOp::RemoveSafety]);
    let (outcome, result) = d.restore();
    assert_eq!(outcome, RestoreOutcome::RestoreFailedSafetyCopyLeft);
    assert_eq!(result, Err(BackupError::RestoreFailed { cleanup: Cleanup::SafetyCopyLeft }));
    assert_eq!(d.files["db"], b"live".to_vec());
    assert_eq!(d.files["safety"], b"live".to_vec());
}

#[test]
fn failed_rollback_is_unrecoverable_and_keeps_safety_copy() {
    let mut d = disk(
        b"live",
        b"saved",
        vec![FileOp::CopyArtifactToDatabase, FileOp::CopySafetyToDatabase],
    );
    let (outcome, result) = d.restore();
    assert_eq!(outcome, RestoreOutcome::RestoreFailedUnrecoverable);
    assert_eq!(
        result,
        Err(BackupError::RestoreFailedUnrecoverable { safety_copy: "db.pre-restore".to_string() })
    );
    assert_eq!(d.files["safety"], b"live".to_vec());
}

#[test]
fn failed_safety_copy_leaves_database_untouched() {
    let mut d = disk(b"live", b"saved", vec![FileOp::CopyDatabaseToSafety]);
    let (outcome, result) = d.restore();
    assert_eq!(outcome, RestoreOutcome::BackupFailed);
    assert_eq!(result, Err(BackupError::BackupFailed));
    assert_eq!(d.files["db"], b"live".to_vec());
}

#[test]
fn failed_cleanup_is_reported_but_not_fatal() {
    let mut d = disk(b"live", b"saved", vec![FileOp::RemoveSafety]);
    let (outcome, result) = d.restore();
    assert_eq!(outcome, RestoreOutcome::RestoredSafetyCopyLeft);
    assert_eq!(result, Ok(Cleanup::SafetyCopyLeft));
    assert_eq!(d.files["db"], b"saved".to_vec());
    assert_eq!(d.files["safety"], b"live".to_vec());
}

#[test]
fn machine_transitions() {
    let (mut m, op) = Restore::start();
    assert_eq!(op, FileOp::CopyDatabaseToSafety);
    assert_eq!(m.phase, Phase::SavingSafetyCopy);
    assert_eq!(m.step(true), Next::Perform(FileOp::CopyArtifactToDatabase));
    assert_eq!(m.phase, Phase::SafetyCopied);
    assert_eq!(m.step(false), Next::Perform(FileOp::CopySafetyToDatabase));
    assert_eq!(m.phase, Phase::RollingBack);
    assert_eq!(m.step(false), Next::Finish(RestoreOutcome::RestoreFailedUnrecoverable));
    assert_eq!(m.phase, Phase::FailedUnrecoverable);
}
