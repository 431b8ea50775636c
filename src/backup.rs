//! The backup manager's decisions: how backups are named, which files of the
//! backups folder are backups and in what order they are listed, which paths
//! may be deleted or restored from, and where a backup is written.
//!
//! The copies, listings and deletions themselves are the caller's to perform,
//! once the decision here allows them.
use vstd::prelude::*;
use crate::path::{
    valid_sep, is_plain, strictly_contains, contains, path_contains, file_name, joined, join,
    is_plain_path, path_strictly_contains, file_name_of,
};
use crate::stamp::{Timestamp, stamp_text, parse_stamp, decode, lemma_stamp_text_decodes, STAMP_LEN};
use crate::restore::Cleanup;
use crate::layout::{database_path, backups_root, database_path_of, backups_root_of};

verus! {

broadcast use vstd::seq_lib::group_to_multiset_ensures;

/// The start of every backup's name.
pub const ARTIFACT_PREFIX: &'static str = "backup-";

/// The end of every backup's name.
pub const ARTIFACT_EXT: &'static str = ".db";

/// Added to the database's path to name the copy kept during a restore.
pub const SAFETY_SUFFIX: &'static str = ".pre-restore";

/// The name of the backup taken at `t`: `backup-YYYY-MM-DD-HHMMSS.db`.
pub open spec fn artifact_name(t: Timestamp) -> Seq<char> {
    ARTIFACT_PREFIX@ + stamp_text(t) + ARTIFACT_EXT@
}

/// Whether `n` is the name of a backup taken at some real date and time.
pub open spec fn is_artifact_name(n: Seq<char>) -> bool {
    exists|t: Timestamp| t.wf() && #[trigger] artifact_name(t) == n
}

/// The time that the backup name `n` carries.
pub open spec fn artifact_stamp(n: Seq<char>) -> Timestamp {
    decode(n.subrange(ARTIFACT_PREFIX@.len() as int, ARTIFACT_PREFIX@.len() as int + 17))
}

/// Whether the name `n` ends with the extension of backups.
pub open spec fn has_artifact_ext(n: Seq<char>) -> bool {
    n.len() >= ARTIFACT_EXT@.len() && n.subrange(n.len() - ARTIFACT_EXT@.len(), n.len() as int)
        == ARTIFACT_EXT@
}

/// Whether `p` may be deleted as a backup: it lies strictly below the backups
/// folder `backups`, has no `.` or `..` component, and its name is a backup's,
/// all with `sep` as the separator.
pub open spec fn deletable(backups: Seq<char>, p: Seq<char>, sep: char) -> bool {
    &&& is_plain(p, sep)
    &&& strictly_contains(backups, p, sep)
    &&& file_name(p, sep) matches Some(n) && is_artifact_name(n)
}

/// Whether `a` and `b` name the same place: each contains the other, with
/// `sep` as the separator.
pub open spec fn same_path(a: Seq<char>, b: Seq<char>, sep: char) -> bool {
    contains(a, b, sep) && contains(b, a, sep)
}

/// Whether `p` is a file (`is_file`) whose name, read with `sep` as the
/// separator, ends with the extension of backups.
pub open spec fn backup_file(p: Seq<char>, is_file: bool, sep: char) -> bool {
    &&& is_file
    &&& file_name(p, sep) matches Some(n) && has_artifact_ext(n)
}

/// Whether `p`, a file when `is_file`, may be restored from over the
/// database at `database`, whose safety copy is `safety`: its name ends with
/// the extension of backups, and it is neither the database nor the safety
/// copy, which a restore overwrites.
pub open spec fn restorable(
    database: Seq<char>,
    safety: Seq<char>,
    p: Seq<char>,
    is_file: bool,
    sep: char,
) -> bool {
    &&& backup_file(p, is_file, sep)
    &&& !same_path(p, database, sep)
    &&& !same_path(p, safety, sep)
}

/// What can go wrong in the backup manager.
#[derive(Clone, Debug, PartialEq, Eq)]
pub enum BackupError {
    /// The database file to back up does not exist.
    SourceMissing,
    /// The file to restore from is not a backup.
    InvalidBackup,
    /// The safety copy of the database could not be made; nothing changed.
    BackupFailed,
    /// Overwriting the database failed and it was put back as it was;
    /// `cleanup` says whether the safety copy was then removed.
    RestoreFailed { cleanup: Cleanup },
    /// Overwriting the database failed and putting it back failed too; the
    /// safety copy at this path holds the database as it was.
    RestoreFailedUnrecoverable { safety_copy: String },
    /// The path lies outside the backups folder or is not a backup.
    AccessDenied,
    /// A filesystem operation failed.
    IoError(String),
    /// The user's documents folder could not be found.
    NoDocumentsFolder,
}

/// A file found in the backups folder, with its size in bytes and its time
/// of creation in seconds since the Unix epoch, where the system gives one.
pub struct ListedFile {
    pub name: String,
    pub size: u64,
    pub created: Option<u64>,
}

/// A backup as listed: its name, the time in that name, its size and its
/// time of creation.
pub struct BackupInfo {
    pub name: String,
    pub stamp: Timestamp,
    pub size: u64,
    pub created: Option<u64>,
}

/// The listing entry of the file `f`.
pub open spec fn info_of(f: ListedFile) -> BackupInfo {
    BackupInfo { name: f.name, stamp: artifact_stamp(f.name@), size: f.size, created: f.created }
}

/// The entries of the backups among `files`, in the order of `files`.
pub open spec fn selected(files: Seq<ListedFile>) -> Seq<BackupInfo>
    decreases files.len(),
{
    if files.len() == 0 {
        Seq::empty()
    } else {
        let rest = selected(files.drop_last());
        if is_artifact_name(files.last().name@) {
            rest.push(info_of(files.last()))
        } else {
            rest
        }
    }
}

/// Whether the entries run from the newest backup to the oldest.
pub open spec fn newest_first(s: Seq<BackupInfo>) -> bool {
    forall|i: int, j: int|
        0 <= i < j < s.len() ==> #[trigger] s[i].stamp.key() >= #[trigger] s[j].stamp.key()
}

/// The pieces of a backup's name.
proof fn lemma_artifact_name_parts(t: Timestamp)
    requires
        t.wf(),
    ensures
        artifact_name(t).len() == ARTIFACT_PREFIX@.len() as int + 17 + ARTIFACT_EXT@.len(),
        artifact_name(t).subrange(0, ARTIFACT_PREFIX@.len() as int) == ARTIFACT_PREFIX@,
        artifact_name(t).subrange(ARTIFACT_PREFIX@.len() as int, ARTIFACT_PREFIX@.len() as int + 17)
            == stamp_text(t),
        artifact_name(t).subrange(ARTIFACT_PREFIX@.len() as int + 17, artifact_name(t).len() as int)
            == ARTIFACT_EXT@,
        artifact_stamp(artifact_name(t)) == t,
{
    lemma_stamp_text_decodes(t);
    let n = artifact_name(t);
    let p = ARTIFACT_PREFIX@.len() as int;
    assert(n.subrange(0, p) =~= ARTIFACT_PREFIX@);
    assert(n.subrange(p, p + 17) =~= stamp_text(t));
    assert(n.subrange(p + 17, n.len() as int) =~= ARTIFACT_EXT@);
}

/// The name of the backup taken at `t`.
pub fn artifact_name_of(t: &Timestamp) -> (r: String)
    ensures
        r@ == artifact_name(*t),
{
    let stamp = t.text();
    let mut out = String::from_str(ARTIFACT_PREFIX);
    out.append(stamp.as_str());
    out.append(ARTIFACT_EXT);
    out
}

/// Reads the time out of a backup's name; none when `n` is no backup's name.
pub fn parse_artifact_name(n: &str) -> (r: Option<Timestamp>)
    ensures
        r is Some <==> is_artifact_name(n@),
        r matches Some(t) ==> t.wf() && artifact_name(t) == n@ && artifact_stamp(n@) == t,
{
    let len = n.unicode_len();
    let plen = ARTIFACT_PREFIX.unicode_len();
    let elen = ARTIFACT_EXT.unicode_len();
    if len < plen || len - plen < STAMP_LEN || len - plen - STAMP_LEN != elen {
        proof {
            assert forall|t: Timestamp| t.wf() implies artifact_name(t) != n@ by {
                lemma_artifact_name_parts(t);
            }
        }
        return None;
    }
    let head = String::from_str(n.substring_char(0, plen));
    let tail = String::from_str(n.substring_char(len - elen, len));
    let prefix = String::from_str(ARTIFACT_PREFIX);
    let ext = String::from_str(ARTIFACT_EXT);
    if head != prefix || tail != ext {
        proof {
            assert forall|t: Timestamp| t.wf() implies artifact_name(t) != n@ by {
                lemma_artifact_name_parts(t);
            }
        }
        return None;
    }
    let middle = n.substring_char(plen, plen + STAMP_LEN);
    match parse_stamp(middle) {
        Some(t) => {
            proof {
                lemma_artifact_name_parts(t);
                assert(n@ =~= ARTIFACT_PREFIX@ + stamp_text(t) + ARTIFACT_EXT@);
            }
            Some(t)
        },
        None => {
            proof {
                assert forall|t: Timestamp| t.wf() implies artifact_name(t) != n@ by {
                    lemma_artifact_name_parts(t);
                }
            }
            None
        },
    }
}

impl Timestamp {
    /// The key of the timestamp, as a number.
    pub fn sort_key(&self) -> (r: u64)
        requires
            self.wf(),
        ensures
            r == self.key(),
    {
        let y = self.year as u64;
        let mo = self.month as u64;
        let d = self.day as u64;
        let h = self.hour as u64;
        let mi = self.minute as u64;
        let s = self.second as u64;
        assert((y * 100 + mo) * 100 + d < 100_000_000) by (nonlinear_arith)
            requires
                y <= 9999,
                mo <= 99,
                d <= 99,
        ;
        assert(((y * 100 + mo) * 100 + d) * 100 + h < 10_000_000_000) by (nonlinear_arith)
            requires
                (y * 100 + mo) * 100 + d < 100_000_000,
                h <= 99,
        ;
        assert((((y * 100 + mo) * 100 + d) * 100 + h) * 100 + mi < 1_000_000_000_000)
            by (nonlinear_arith)
            requires
                ((y * 100 + mo) * 100 + d) * 100 + h < 10_000_000_000,
                mi <= 99,
        ;
        assert(((((y * 100 + mo) * 100 + d) * 100 + h) * 100 + mi) * 100 + s < 100_000_000_000_000)
            by (nonlinear_arith)
            requires
                (((y * 100 + mo) * 100 + d) * 100 + h) * 100 + mi < 1_000_000_000_000,
                s <= 99,
        ;
        ((((y * 100 + mo) * 100 + d) * 100 + h) * 100 + mi) * 100 + s
    }
}

/// The backups among `files`, newest first.
pub fn select_backups(files: Vec<ListedFile>) -> (r: Vec<BackupInfo>)
    ensures
        newest_first(r@),
        r@.to_multiset() == selected(files@).to_multiset(),
        forall|i: int| 0 <= i < r@.len() ==> #[trigger] r@[i].stamp.wf(),
{
    let ghost all = files@;
    let mut rest = files;
    let mut out: Vec<BackupInfo> = Vec::new();
    while rest.len() > 0
        invariant
            newest_first(out@),
            forall|i: int| 0 <= i < out@.len() ==> #[trigger] out@[i].stamp.wf(),
            out@.to_multiset().add(selected(rest@).to_multiset()) == selected(all).to_multiset(),
        decreases rest.len(),
    {
        let ghost before = rest@;
        let f = rest.pop().unwrap();
        assert(rest@ == before.drop_last());
        match parse_artifact_name(f.name.as_str()) {
            Some(t) => {
                let key = t.sort_key();
                let mut k: usize = 0;
                while k < out.len() && out[k].stamp.sort_key() >= key
                    invariant
                        k <= out@.len(),
                        key == t.key(),
                        forall|i: int| 0 <= i < out@.len() ==> #[trigger] out@[i].stamp.wf(),
                        forall|i: int| 0 <= i < k ==> #[trigger] out@[i].stamp.key() >= t.key(),
                    decreases out@.len() - k,
                {
                    k = k + 1;
                }
                let info = BackupInfo { name: f.name, stamp: t, size: f.size, created: f.created };
                assert(info == info_of(f));
                let ghost old_out = out@;
                out.insert(k, info);
                assert(out@ == old_out.insert(k as int, info));
                assert forall|i: int, j: int| 0 <= i < j < out@.len() implies #[trigger] out@[i].stamp.key()
                    >= #[trigger] out@[j].stamp.key() by {
                    if k < old_out.len() {
                        assert(old_out[k as int].stamp.key() < t.key());
                    }
                    if i < k && j > k {
                        assert(out@[j] == old_out[j - 1]);
                    } else if i == k && j > k {
                        assert(out@[j] == old_out[j - 1]);
                        assert(old_out[k as int].stamp.key() >= old_out[j - 1].stamp.key());
                    } else if i > k {
                        assert(out@[i] == old_out[i - 1]);
                        assert(out@[j] == old_out[j - 1]);
                    }
                }
                assert forall|i: int| 0 <= i < out@.len() implies #[trigger] out@[i].stamp.wf() by {
                    if i > k {
                        assert(out@[i] == old_out[i - 1]);
                    }
                }
                assert(selected(before) == selected(rest@).push(info_of(f)));
            },
            None => {
                assert(selected(before) == selected(rest@));
            },
        }
    }
    out
}

/// The files that the backup manager works on: the live database and the
/// folder of backups.
pub struct BackupManager {
    pub database: String,
    pub backups: String,
    pub separator: char,
}

impl BackupManager {
    pub open spec fn wf(&self) -> bool {
        valid_sep(self.separator)
    }

    /// Where the database is copied during a restore: its own path with
    /// `.pre-restore` added.
    pub open spec fn safety_copy(&self) -> Seq<char> {
        self.database@ + SAFETY_SUFFIX@
    }

    /// Where the backup taken at `t` is written.
    pub open spec fn artifact_path(&self, t: Timestamp) -> Seq<char> {
        joined(self.backups@, artifact_name(t), self.separator)
    }

    /// The manager of the database and backups kept under the user's
    /// documents folder.
    pub fn new(documents: &str, separator: char) -> (r: BackupManager)
        requires
            valid_sep(separator),
        ensures
            r.wf(),
            r.database@ == database_path(documents@, separator),
            r.backups@ == backups_root(documents@, separator),
            r.separator == separator,
    {
        BackupManager {
            database: database_path_of(documents, separator),
            backups: backups_root_of(documents, separator),
            separator,
        }
    }

    /// The path of the safety copy.
    pub fn safety_copy_path(&self) -> (r: String)
        ensures
            r@ == self.safety_copy(),
    {
        let mut out = self.database.clone();
        out.append(SAFETY_SUFFIX);
        out
    }

    /// Where to write the backup taken at `t`, given whether the database
    /// exists; a missing database cannot be backed up. `t` is read from the
    /// caller's clock, in local time where the caller knows its time zone.
    pub fn create_target(&self, database_exists: bool, t: &Timestamp) -> (r: Result<
        String,
        BackupError,
    >)
        requires
            self.wf(),
        ensures
            database_exists ==> (r matches Ok(p) && p@ == self.artifact_path(*t)),
            !database_exists ==> r == Err::<String, BackupError>(BackupError::SourceMissing),
    {
        if !database_exists {
            return Err(BackupError::SourceMissing);
        }
        let name = artifact_name_of(t);
        Ok(join(self.backups.as_str(), name.as_str(), self.separator))
    }

    /// Allows a restore from `path`, a file when `is_file`, only where its
    /// name ends with the extension of backups and it is neither the database
    /// nor the safety copy. The caller passes paths in one form (canonical,
    /// as the database's is) so that the same file is written the same way.
    pub fn check_restore_target(&self, path: &str, is_file: bool) -> (r: Result<(), BackupError>)
        ensures
            r is Ok <==> restorable(
                self.database@,
                self.safety_copy(),
                path@,
                is_file,
                self.separator,
            ),
            r is Err ==> r == Err::<(), BackupError>(BackupError::InvalidBackup),
    {
        let sep = self.separator;
        let database = self.database.as_str();
        if path_contains(path, database, sep) && path_contains(database, path, sep) {
            return Err(BackupError::InvalidBackup);
        }
        let safety = self.safety_copy_path();
        if path_contains(path, safety.as_str(), sep) && path_contains(safety.as_str(), path, sep) {
            return Err(BackupError::InvalidBackup);
        }
        is_backup_file(path, is_file, sep)
    }

    /// Allows the deletion of `path` only where it is a backup in the
    /// backups folder; otherwise access is denied and nothing is to be done.
    pub fn check_delete(&self, path: &str) -> (r: Result<(), BackupError>)
        ensures
            r is Ok <==> deletable(self.backups@, path@, self.separator),
            r is Err ==> r == Err::<(), BackupError>(BackupError::AccessDenied),
    {
        if !is_plain_path(path, self.separator) || !path_strictly_contains(
            self.backups.as_str(),
            path,
            self.separator,
        ) {
            return Err(BackupError::AccessDenied);
        }
        match file_name_of(path, self.separator) {
            Some(name) => match parse_artifact_name(name.as_str()) {
                Some(_) => Ok(()),
                None => Err(BackupError::AccessDenied),
            },
            None => Err(BackupError::AccessDenied),
        }
    }
}

/// Tells whether `path` is a file (`is_file`) whose name, read with `sep` as
/// the separator, ends with the extension of backups.
fn is_backup_file(path: &str, is_file: bool, sep: char) -> (r: Result<(), BackupError>)
    ensures
        r is Ok <==> backup_file(path@, is_file, sep),
        r is Err ==> r == Err::<(), BackupError>(BackupError::InvalidBackup),
{
    if !is_file {
        return Err(BackupError::InvalidBackup);
    }
    match file_name_of(path, sep) {
        Some(name) => {
            let len = name.as_str().unicode_len();
            let elen = ARTIFACT_EXT.unicode_len();
            if len < elen {
                return Err(BackupError::InvalidBackup);
            }
            let tail = String::from_str(name.as_str().substring_char(len - elen, len));
            let ext = String::from_str(ARTIFACT_EXT);
            if tail == ext {
                Ok(())
            } else {
                Err(BackupError::InvalidBackup)
            }
        },
        None => Err(BackupError::InvalidBackup),
    }
}

} // verus!
