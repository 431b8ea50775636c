use pbs_admin::backup::{
    artifact_name_of, parse_artifact_name, select_backups, BackupError,
    BackupManager, ListedFile,
};
use pbs_admin::stamp::Timestamp;

fn stamp_at(year: u16, month: u8, day: u8, hour: u8, minute: u8, second: u8) -> Timestamp {
    Timestamp { year, month, day, hour, minute, second }
}

fn file(name: &str, size: u64) -> ListedFile {
    ListedFile { name: name.to_string(), size, created: Some(size * 10) }
}

fn manager() -> BackupManager {
    BackupManager::new("/home/ann/Documents", '/')
}

#[test]
fn manager_paths() {
    let m = manager();
    assert_eq!(m.database, "/home/ann/Documents/PBS_Admin/data/pbs_admin.db");
    assert_eq!(m.backups, "/home/ann/Documents/PBS_Admin/Backups");
    assert_eq!(m.safety_copy_path(), "/home/ann/Documents/PBS_Admin/data/pbs_admin.db.pre-restore");
}

#[test]
fn artifact_names() {
    assert_eq!(artifact_name_of(&stamp_at(2024, 1, 1, 0, 0, 0)), "backup-2024-01-01-000000.db");
    assert_eq!(parse_artifact_name("backup-2024-06-01-101500.db"), Some(stamp_at(2024, 6, 1, 10, 15, 0)));
    assert_eq!(parse_artifact_name("backup-2024-06-01-101500.sqlite"), None);
    assert_eq!(parse_artifact_name("copy-2024-06-01-101500.db"), None);
    assert_eq!(parse_artifact_name("backup-2024-06-31-101500.db"), None);
    assert_eq!(parse_artifact_name("backup-2024-06-01-101500.db.bak"), None);
    assert_eq!(parse_artifact_name(""), None);
}

#[test]
fn create_target_names_the_artifact() {
    let m = manager();
    assert_eq!(
        m.create_target(true, &stamp_at(2024, 3, 9, 8, 7, 6)),
        Ok("/home/ann/Documents/PBS_Admin/Backups/backup-2024-03-09-080706.db".to_string())
    );
}

#[test]
fn create_without_database_is_source_missing() {
    let m = manager();
    assert_eq!(m.create_target(false, &stamp_at(2024, 3, 9, 8, 7, 6)), Err(BackupError::SourceMissing));
}

#[test]
fn listing_is_newest_first() {
    let files = vec![
        file("backup-2024-01-01-000000.db", 1),
        file("backup-2024-06-01-000000.db", 2),
    ];
    let listed = select_backups(files);
    assert_eq!(listed.len(), 2);
    assert_eq!(listed[0].name, "backup-2024-06-01-000000.db");
    assert_eq!(listed[0].stamp, stamp_at(2024, 6, 1, 0, 0, 0));
    assert_eq!(listed[0].size, 2);
    assert_eq!(listed[0].created, Some(20));
    assert_eq!(listed[1].name, "backup-2024-01-01-000000.db");
}

#[test]
fn listing_keeps_only_artifacts() {
    let files = vec![
        file("notes.txt", 1),
        file("backup-2023-12-31-235959.db", 2),
        file("backup-2024-01-01-000000.db", 3),
        file("backup-2024-01-01-000000.db.pre-restore", 4),
        file("backup-2022-05-05-050505.db", 5),
        file("backup-2024-02-30-000000.db", 6),
    ];
    let listed = select_backups(files);
    let names: Vec<&str> = listed.iter().map(|b| b.name.as_str()).collect();
    assert_eq!(
        names,
        vec![
            "backup-2024-01-01-000000.db",
            "backup-2023-12-31-235959.db",
            "backup-2022-05-05-050505.db",
        ]
    );
}

#[test]
fn empty_listing() {
    assert!(select_backups(Vec::new()).is_empty());
}

#[test]
fn delete_inside_backups_is_allowed() {
    let m = manager();
    let p = "/home/ann/Documents/PBS_Admin/Backups/backup-2024-01-01-000000.db";
    assert_eq!(m.check_delete(p), Ok(()));
}

#[test]
fn delete_outside_backups_is_denied() {
    let m = manager();
    let p = "/home/ann/Documents/PBS_Admin/data/backup-2024-01-01-000000.db";
    assert_eq!(m.check_delete(p), Err(BackupError::AccessDenied));
    assert_eq!(m.check_delete("/home/ann/Documents/PBS_Admin/data/pbs_admin.db"), Err(BackupError::AccessDenied));
    let sneaky = "/home/ann/Documents/PBS_Admin/Backups/../data/backup-2024-01-01-000000.db";
    assert_eq!(m.check_delete(sneaky), Err(BackupError::AccessDenied));
    let sibling = "/home/ann/Documents/PBS_Admin/Backups2/backup-2024-01-01-000000.db";
    assert_eq!(m.check_delete(sibling), Err(BackupError::AccessDenied));
    let beside = "/home/ann/Documents/PBS_Admin/Backups\\backup-2024-01-01-000000.db";
    assert_eq!(m.check_delete(beside), Err(BackupError::AccessDenied));
}

#[test]
fn windows_delete_inside_backups_is_allowed() {
    let m = BackupManager::new("C:\\Users\\ann\\Documents", '\\');
    assert_eq!(m.backups, "C:\\Users\\ann\\Documents\\PBS_Admin\\Backups");
    let p = "C:\\Users\\ann\\Documents\\PBS_Admin\\Backups\\backup-2024-01-01-000000.db";
    assert_eq!(m.check_delete(p), Ok(()));
}

#[test]
fn delete_of_non_artifact_is_denied() {
    let m = manager();
    assert_eq!(m.check_delete("/home/ann/Documents/PBS_Admin/Backups/notes.txt"), Err(BackupError::AccessDenied));
    assert_eq!(m.check_delete("/home/ann/Documents/PBS_Admin/Backups"), Err(BackupError::AccessDenied));
}

#[test]
fn restore_target_must_be_a_db_file() {
    let m = manager();
    assert_eq!(m.check_restore_target("/x/backup-2024-01-01-000000.db", true), Ok(()));
    assert_eq!(m.check_restore_target("/x/other.db", true), Ok(()));
    assert_eq!(m.check_restore_target("/x/backup-2024-01-01-000000.db", false), Err(BackupError::InvalidBackup));
    assert_eq!(m.check_restore_target("/x/notes.txt", true), Err(BackupError::InvalidBackup));
    assert_eq!(m.check_restore_target("/", true), Err(BackupError::InvalidBackup));
    assert_eq!(m.check_restore_target("/x/a.db\\notes.txt", true), Err(BackupError::InvalidBackup));
}

#[test]
fn restore_from_the_database_itself_is_refused() {
    let m = manager();
    assert_eq!(m.check_restore_target("/home/ann/Documents/PBS_Admin/data/pbs_admin.db", true), Err(BackupError::InvalidBackup));
    assert_eq!(m.check_restore_target("/home/ann/Documents//PBS_Admin/data/pbs_admin.db/", true), Err(BackupError::InvalidBackup));
    assert_eq!(
        m.check_restore_target("/home/ann/Documents/PBS_Admin/data/pbs_admin.db.pre-restore", true),
        Err(BackupError::InvalidBackup)
    );
    assert_eq!(m.check_restore_target("/home/ann/Documents/PBS_Admin/data/other.db", true), Ok(()));
}
