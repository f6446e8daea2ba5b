//! Directory synchronisation.

pub mod file_ops;
pub mod filter;
pub mod remote;
pub mod report;
pub mod run;
pub mod scanner;
pub mod sync_logic;
pub mod types;
pub mod watcher;

pub use file_ops::compute_blake3_hash;
pub use filter::{should_exclude, should_sync};
pub use remote::{parse_remote_target, RemoteFile, RemoteTarget};
pub use report::SyncReport;
pub use scanner::scan_directory;
pub use sync_logic::{plan_sync, SyncOptions};
pub use types::{FileInfo, SyncParameters};
