//! The backend of a desktop application for client records: a gatekeeper
//! that confines file access to the application's folders, and a manager of
//! backups of the application's database that never leaves the database
//! damaged or missing when a restore fails.
//!
//! The library decides; the caller performs the filesystem work and hands
//! back what it found.
pub mod backup;
pub mod gate;
pub mod layout;
pub mod path;
pub mod restore;
pub mod stamp;
pub mod tools;
