//! The errors of a sync run.

use vstd::prelude::*;

verus! {

/// What can go wrong in a sync run. Paths and messages are carried as text.
pub enum SyncError {
    /// The source directory does not exist.
    SourceNotFound(String),
    /// The target directory is not writable.
    TargetNotWritable(String),
    /// A file is in use or access was denied.
    PermissionDenied(String),
    /// Walking a directory tree failed.
    WalkError(String),
    /// An I/O operation failed.
    IoError(String),
    /// The file watcher failed.
    WatchError(String),
    /// The sync logic failed.
    SyncLogicError(String),
    /// Deleting extra files failed.
    DeleteError(String),
}

} // verus!
