//! The error taxonomy of the storage coordination layer.

use vstd::prelude::*;

verus! {

/// Every failure the coordination layer can surface. Each variant names the
/// operation that failed; nothing is retried, so one variant per stage is
/// enough.
#[derive(Clone, Copy, Debug, PartialEq, Eq, Structural)]
pub enum Error {
    /// The platform could not supply directory conventions.
    DirectoryResolution,
    /// The configuration file could not be written.
    ConfigWrite,
    /// A configuration file exists but could not be decoded.
    ConfigCorrupt,
    /// A database file already exists or could not be created.
    DatabaseCreate,
    /// The database file is missing or unreadable.
    DatabaseOpen,
    /// A database file exists but could not be decoded.
    DatabaseCorrupt,
    /// An insertion used a name already present.
    DuplicateName,
    /// A removal named a record that is not present.
    RecordNotFound,
    /// The user cancelled an interactive removal.
    RemoveAborted,
    /// Flushing the in-memory collection to disk failed.
    DatabaseSync,
    /// The lock file already exists: another instance is running.
    AlreadyRunning,
    /// Creating the lock file failed for a reason other than its presence.
    LockAcquire,
    /// The lock file was gone when the run tried to release it.
    LockVanished,
    /// Removing the lock file failed for a reason other than its absence.
    LockRelease,
}

} // verus!
