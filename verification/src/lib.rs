//! A local, single-user credential manager: named login records persisted to a
//! private on-disk database, guarded by a configuration file and a
//! single-instance lock.
//!
//! This crate holds the storage coordination layer: the in-memory credential
//! store and its on-disk encoding, the configuration record, the model of the
//! instance lock, the resolution of platform directories, and the lifecycle
//! state machine that sequences a run. All file and terminal I/O is left to
//! the surrounding application, which drives the lifecycle machine.

use vstd::prelude::*;

pub mod codec;
pub mod config;
pub mod errors;
pub mod lifecycle;
pub mod locate;
pub mod lockfile;
pub mod store;

verus! {

/// Name of the database file inside the data directory.
pub const DATABASE_FILE_NAME: &'static str = "gondolin.db";

/// Name of the configuration file inside the configuration directory.
pub const CONFIG_FILE_NAME: &'static str = "gondolin.toml";

/// Name of the lock file inside the shared temporary directory.
pub const LOCK_FILE_NAME: &'static str = "gondolin.lck";

} // verus!
