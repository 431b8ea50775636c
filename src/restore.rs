//! Restoring the database from a backup, as a state machine.
//!
//! The machine names each file operation; the caller performs it and reports
//! whether it succeeded, and the machine answers with the next operation or
//! with the outcome. Before the database is overwritten it is copied to the
//! safety copy, which serves to put it back when the overwrite fails.
//!
//! What the operations do to the files is modelled by `Files` and `effect`;
//! the laws at the end hold of every run of the machine under that model.
//! The model takes the database, the safety copy and the backup to be three
//! different files: a copy of one of them onto another leaves the third
//! alone. `BackupManager::check_restore_target` refuses a backup that is the
//! database or the safety copy; the caller passes it the canonical paths, so
//! that one file is not written two ways.
use vstd::prelude::*;
use crate::backup::BackupError;

verus! {

/// Where a restore stands. In the phases other than `Idle` and
/// `FailedUnrecoverable` one file operation is under way.
#[derive(Clone, Copy, Debug, PartialEq, Eq, Structural)]
pub enum Phase {
    /// No restore is under way.
    Idle,
    /// The database is being copied to the safety copy.
    SavingSafetyCopy,
    /// The safety copy exists; the backup is being copied over the database.
    SafetyCopied,
    /// The database holds the backup; the safety copy is being removed.
    Restored,
    /// The overwrite failed; the safety copy is being copied back.
    RollingBack,
    /// The database was put back; the safety copy is being removed.
    RolledBack,
    /// Putting the database back failed; only the safety copy holds it.
    FailedUnrecoverable,
}

/// A file operation for the caller to perform.
#[derive(Clone, Copy, Debug, PartialEq, Eq, Structural)]
pub enum FileOp {
    /// Copy the database to the safety copy.
    CopyDatabaseToSafety,
    /// Copy the backup over the database.
    CopyArtifactToDatabase,
    /// Copy the safety copy over the database.
    CopySafetyToDatabase,
    /// Remove the safety copy.
    RemoveSafety,
    /// Copy the database to a new backup.
    CopyDatabaseToArtifact,
}

/// How a restore ended.
#[derive(Clone, Copy, Debug, PartialEq, Eq, Structural)]
pub enum RestoreOutcome {
    /// The database holds the backup and the safety copy is gone.
    Restored,
    /// The database holds the backup; removing the safety copy failed.
    RestoredSafetyCopyLeft,
    /// The safety copy could not be made; the database was not touched.
    BackupFailed,
    /// The overwrite failed, the database was put back, and the safety copy
    /// was removed.
    RestoreFailed,
    /// The overwrite failed and the database was put back; removing the
    /// safety copy failed.
    RestoreFailedSafetyCopyLeft,
    /// The overwrite failed and so did putting the database back.
    RestoreFailedUnrecoverable,
}

/// What the machine asks for next.
#[derive(Clone, Copy, Debug, PartialEq, Eq, Structural)]
pub enum Next {
    Perform(FileOp),
    Finish(RestoreOutcome),
}

/// Whether the cleanup after a restore removed the safety copy.
#[derive(Clone, Copy, Debug, PartialEq, Eq, Structural)]
pub enum Cleanup {
    Removed,
    SafetyCopyLeft,
}

/// Whether a file operation is under way in phase `p`.
pub open spec fn in_flight(p: Phase) -> bool {
    !(p is Idle || p is FailedUnrecoverable)
}

/// The operation under way in phase `p`.
pub open spec fn pending_op(p: Phase) -> FileOp {
    match p {
        Phase::SavingSafetyCopy => FileOp::CopyDatabaseToSafety,
        Phase::SafetyCopied => FileOp::CopyArtifactToDatabase,
        Phase::RollingBack => FileOp::CopySafetyToDatabase,
        _ => FileOp::RemoveSafety,
    }
}

/// The phase after the operation of phase `p` succeeded (`ok`) or failed,
/// and what the machine asks for then.
pub open spec fn transition(p: Phase, ok: bool) -> (Phase, Next) {
    match p {
        Phase::SavingSafetyCopy => if ok {
            (Phase::SafetyCopied, Next::Perform(FileOp::CopyArtifactToDatabase))
        } else {
            (Phase::Idle, Next::Finish(RestoreOutcome::BackupFailed))
        },
        Phase::SafetyCopied => if ok {
            (Phase::Restored, Next::Perform(FileOp::RemoveSafety))
        } else {
            (Phase::RollingBack, Next::Perform(FileOp::CopySafetyToDatabase))
        },
        Phase::Restored => if ok {
            (Phase::Idle, Next::Finish(RestoreOutcome::Restored))
        } else {
            (Phase::Idle, Next::Finish(RestoreOutcome::RestoredSafetyCopyLeft))
        },
        Phase::RollingBack => if ok {
            (Phase::RolledBack, Next::Perform(FileOp::RemoveSafety))
        } else {
            (Phase::FailedUnrecoverable, Next::Finish(RestoreOutcome::RestoreFailedUnrecoverable))
        },
        Phase::RolledBack => if ok {
            (Phase::Idle, Next::Finish(RestoreOutcome::RestoreFailed))
        } else {
            (Phase::Idle, Next::Finish(RestoreOutcome::RestoreFailedSafetyCopyLeft))
        },
        _ => (p, Next::Finish(RestoreOutcome::BackupFailed)),
    }
}

/// How many operations at most remain from phase `p`.
pub open spec fn remaining(p: Phase) -> nat {
    match p {
        Phase::SavingSafetyCopy => 4,
        Phase::SafetyCopied => 3,
        Phase::RollingBack => 2,
        Phase::Restored => 1,
        Phase::RolledBack => 1,
        _ => 0,
    }
}

/// A restore in progress.
pub struct Restore {
    pub phase: Phase,
}

impl Restore {
    /// Starts a restore: the first operation copies the database to the
    /// safety copy.
    pub fn start() -> (r: (Restore, FileOp))
        ensures
            r.0.phase == Phase::SavingSafetyCopy,
            r.1 == pending_op(Phase::SavingSafetyCopy),
    {
        (Restore { phase: Phase::SavingSafetyCopy }, FileOp::CopyDatabaseToSafety)
    }

    /// Takes the result of the operation under way and says what comes next.
    pub fn step(&mut self, ok: bool) -> (n: Next)
        requires
            in_flight(old(self).phase),
        ensures
            (final(self).phase, n) == transition(old(self).phase, ok),
            n matches Next::Perform(op) ==> in_flight(final(self).phase) && op == pending_op(
                final(self).phase,
            ) && remaining(final(self).phase) < remaining(old(self).phase),
            n is Finish ==> !in_flight(final(self).phase),
    {
        let (phase, next) = match self.phase {
            Phase::SavingSafetyCopy => if ok {
                (Phase::SafetyCopied, Next::Perform(FileOp::CopyArtifactToDatabase))
            } else {
                (Phase::Idle, Next::Finish(RestoreOutcome::BackupFailed))
            },
            Phase::SafetyCopied => if ok {
                (Phase::Restored, Next::Perform(FileOp::RemoveSafety))
            } else {
                (Phase::RollingBack, Next::Perform(FileOp::CopySafetyToDatabase))
            },
            Phase::Restored => if ok {
                (Phase::Idle, Next::Finish(RestoreOutcome::Restored))
            } else {
                (Phase::Idle, Next::Finish(RestoreOutcome::RestoredSafetyCopyLeft))
            },
            Phase::RollingBack => if ok {
                (Phase::RolledBack, Next::Perform(FileOp::RemoveSafety))
            } else {
                (
                    Phase::FailedUnrecoverable,
                    Next::Finish(RestoreOutcome::RestoreFailedUnrecoverable),
                )
            },
            Phase::RolledBack => if ok {
                (Phase::Idle, Next::Finish(RestoreOutcome::RestoreFailed))
            } else {
                (Phase::Idle, Next::Finish(RestoreOutcome::RestoreFailedSafetyCopyLeft))
            },
            p => (p, Next::Finish(RestoreOutcome::BackupFailed)),
        };
        self.phase = phase;
        next
    }
}

/// What the caller of a restore is told: the cleanup on success, or the
/// error, which names the safety copy `safety_copy` where only it holds the
/// database.
pub fn outcome_result(o: RestoreOutcome, safety_copy: String) -> (r: Result<Cleanup, BackupError>)
    ensures
        o is Restored ==> r == Ok::<Cleanup, BackupError>(Cleanup::Removed),
        o is RestoredSafetyCopyLeft ==> r == Ok::<Cleanup, BackupError>(Cleanup::SafetyCopyLeft),
        o is BackupFailed ==> r == Err::<Cleanup, BackupError>(BackupError::BackupFailed),
        o is RestoreFailed ==> r == Err::<Cleanup, BackupError>(
            BackupError::RestoreFailed { cleanup: Cleanup::Removed },
        ),
        o is RestoreFailedSafetyCopyLeft ==> r == Err::<Cleanup, BackupError>(
            BackupError::RestoreFailed { cleanup: Cleanup::SafetyCopyLeft },
        ),
        o is RestoreFailedUnrecoverable ==> (r matches Err(
            BackupError::RestoreFailedUnrecoverable { safety_copy: p },
        ) && p == safety_copy),
{
    match o {
        RestoreOutcome::Restored => Ok(Cleanup::Removed),
        RestoreOutcome::RestoredSafetyCopyLeft => Ok(Cleanup::SafetyCopyLeft),
        RestoreOutcome::BackupFailed => Err(BackupError::BackupFailed),
        RestoreOutcome::RestoreFailed => Err(BackupError::RestoreFailed { cleanup: Cleanup::Removed }),
        RestoreOutcome::RestoreFailedSafetyCopyLeft => Err(
            BackupError::RestoreFailed { cleanup: Cleanup::SafetyCopyLeft },
        ),
        RestoreOutcome::RestoreFailedUnrecoverable => Err(
            BackupError::RestoreFailedUnrecoverable { safety_copy },
        ),
    }
}

/// The bytes of the files that backups and restores touch; none where a file
/// is absent.
pub struct Files {
    pub database: Option<Seq<u8>>,
    pub safety: Option<Seq<u8>>,
    pub artifact: Option<Seq<u8>>,
}

/// A copy from `source` that succeeded (`ok`) left the bytes of the source
/// in the destination, now `dest`. One that failed may have left anything
/// there.
pub open spec fn copied(source: Option<Seq<u8>>, ok: bool, dest: Option<Seq<u8>>) -> bool {
    ok ==> (source is Some && dest == source)
}

/// Whether `op`, having succeeded (`ok`) or failed, can turn the files
/// `before` into `after`: it changes its destination alone.
pub open spec fn effect(op: FileOp, ok: bool, before: Files, after: Files) -> bool {
    match op {
        FileOp::CopyDatabaseToSafety => {
            &&& after.database == before.database
            &&& after.artifact == before.artifact
            &&& copied(before.database, ok, after.safety)
        },
        FileOp::CopyArtifactToDatabase => {
            &&& after.safety == before.safety
            &&& after.artifact == before.artifact
            &&& copied(before.artifact, ok, after.database)
        },
        FileOp::CopySafetyToDatabase => {
            &&& after.safety == before.safety
            &&& after.artifact == before.artifact
            &&& copied(before.safety, ok, after.database)
        },
        FileOp::RemoveSafety => {
            &&& after.database == before.database
            &&& after.artifact == before.artifact
            &&& if ok {
                after.safety is None
            } else {
                after.safety == before.safety
            }
        },
        FileOp::CopyDatabaseToArtifact => {
            &&& after.database == before.database
            &&& after.safety == before.safety
            &&& copied(before.database, ok, after.artifact)
        },
    }
}

/// The result of one operation: whether it succeeded, and the files after it.
pub struct Step {
    pub ok: bool,
    pub files: Files,
}

/// Whether the machine, from phase `p` with the files `before`, can take
/// `steps` and end with `end`, leaving the files `after`.
pub open spec fn runs(p: Phase, before: Files, steps: Seq<Step>, end: RestoreOutcome, after: Files) -> bool
    decreases steps.len(),
{
    if steps.len() == 0 || !in_flight(p) {
        false
    } else {
        let s = steps[0];
        &&& effect(pending_op(p), s.ok, before, s.files)
        &&& match transition(p, s.ok).1 {
            Next::Perform(_) => runs(transition(p, s.ok).0, s.files, steps.drop_first(), end, after),
            Next::Finish(o) => steps.len() == 1 && o == end && after == s.files,
        }
    }
}

/// What holds of the files `now` in phase `p` of a restore that began with
/// the files `start`.
pub open spec fn on_track(p: Phase, start: Files, now: Files) -> bool {
    &&& now.artifact == start.artifact
    &&& match p {
        Phase::SavingSafetyCopy => now == start,
        Phase::SafetyCopied => start.database is Some && now.database == start.database
            && now.safety == start.database,
        Phase::Restored => start.artifact is Some && now.database == start.artifact && now.safety
            == start.database,
        Phase::RollingBack => start.database is Some && now.safety == start.database,
        Phase::RolledBack => now.database == start.database && now.safety == start.database,
        _ => true,
    }
}

/// What holds of the files `end_files` when a restore that began with the
/// files `start` ends with `o`.
pub open spec fn ended(o: RestoreOutcome, start: Files, end_files: Files) -> bool {
    &&& end_files.artifact == start.artifact
    &&& match o {
        RestoreOutcome::Restored => end_files.database == start.artifact && end_files.safety is None,
        RestoreOutcome::RestoredSafetyCopyLeft => end_files.database == start.artifact
            && end_files.safety == start.database,
        RestoreOutcome::BackupFailed => end_files.database == start.database,
        RestoreOutcome::RestoreFailed => end_files.database == start.database
            && end_files.safety is None,
        RestoreOutcome::RestoreFailedSafetyCopyLeft => end_files.database == start.database
            && end_files.safety == start.database,
        RestoreOutcome::RestoreFailedUnrecoverable => start.database is Some && end_files.safety
            == start.database,
    }
}

proof fn lemma_runs_on_track(p: Phase, start: Files, now: Files, steps: Seq<Step>, end: RestoreOutcome, after: Files)
    requires
        on_track(p, start, now),
        runs(p, now, steps, end, after),
    ensures
        ended(end, start, after),
    decreases steps.len(),
{
    let s = steps[0];
    if let Next::Perform(_) = transition(p, s.ok).1 {
        lemma_runs_on_track(transition(p, s.ok).0, start, s.files, steps.drop_first(), end, after);
    }
}

/// Every restore ends with the database as it was or as the backup was,
/// the backup untouched: as the backup was when it reports success, as it
/// was when it reports `BackupFailed`, `RestoreFailed` or
/// `RestoreFailedSafetyCopyLeft`; a safety copy left behind holds the
/// database as it was. Where it reports
/// `RestoreFailedUnrecoverable`, the safety copy exists and holds the
/// database as it was.
pub proof fn lemma_restore_ends_safely(start: Files, steps: Seq<Step>, end: RestoreOutcome, after: Files)
    requires
        runs(Phase::SavingSafetyCopy, start, steps, end, after),
    ensures
        ended(end, start, after),
{
    lemma_runs_on_track(Phase::SavingSafetyCopy, start, start, steps, end, after);
}

/// A backup followed by a restore from it leaves the database as it was
/// before the backup, unless the restore reports that it could not recover.
pub proof fn lemma_backup_restore_round_trip(
    start: Files,
    backed_up: Files,
    steps: Seq<Step>,
    end: RestoreOutcome,
    after: Files,
)
    requires
        effect(FileOp::CopyDatabaseToArtifact, true, start, backed_up),
        runs(Phase::SavingSafetyCopy, backed_up, steps, end, after),
        !(end is RestoreFailedUnrecoverable),
    ensures
        after.database == start.database,
{
    lemma_restore_ends_safely(backed_up, steps, end, after);
}

/// When the overwrite fails after the safety copy was made, and putting the
/// database back succeeds, the restore reports that it failed and put the
/// database back (`RestoreFailed`, with or without the safety copy left),
/// and the database is as it was.
pub proof fn lemma_failed_overwrite_rolls_back(start: Files, steps: Seq<Step>, end: RestoreOutcome, after: Files)
    requires
        runs(Phase::SavingSafetyCopy, start, steps, end, after),
        steps[0].ok,
        !steps[1].ok,
        steps[2].ok,
    ensures
        end == RestoreOutcome::RestoreFailed || end
            == RestoreOutcome::RestoreFailedSafetyCopyLeft,
        after.database == start.database,
{
    let s1 = steps.drop_first();
    let s2 = s1.drop_first();
    assert(runs(Phase::SafetyCopied, steps[0].files, s1, end, after));
    assert(s1[0] == steps[1]);
    assert(runs(Phase::RollingBack, steps[1].files, s2, end, after));
    assert(s2[0] == steps[2]);
    assert(runs(Phase::RolledBack, steps[2].files, s2.drop_first(), end, after));
    lemma_restore_ends_safely(start, steps, end, after);
}

/// When the overwrite fails after the safety copy was made, and putting the
/// database back fails too, the restore reports `RestoreFailedUnrecoverable`
/// and the safety copy is still there, holding the database as it was.
pub proof fn lemma_failed_rollback_keeps_safety_copy(
    start: Files,
    steps: Seq<Step>,
    end: RestoreOutcome,
    after: Files,
)
    requires
        runs(Phase::SavingSafetyCopy, start, steps, end, after),
        steps[0].ok,
        !steps[1].ok,
        !steps[2].ok,
    ensures
        end == RestoreOutcome::RestoreFailedUnrecoverable,
        after.safety is Some,
        after.safety == start.database,
{
    let s1 = steps.drop_first();
    let s2 = s1.drop_first();
    assert(runs(Phase::SafetyCopied, steps[0].files, s1, end, after));
    assert(s1[0] == steps[1]);
    assert(runs(Phase::RollingBack, steps[1].files, s2, end, after));
    assert(s2[0] == steps[2]);
    lemma_restore_ends_safely(start, steps, end, after);
}

} // verus!
