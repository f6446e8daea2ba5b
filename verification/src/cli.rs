//! The command line: what each subcommand carries.

use vstd::prelude::*;

verus! {

/// Parsed command-line arguments.
pub struct Args {
    /// Subcommand
    pub command: Command,
}

/// The three ways of running the tool.
pub enum Command {
    /// Synchronise two directories once.
    Sync {
        source: String,
        target: String,
        dry_run: bool,
        checksum: bool,
        delete: bool,
        exclude: Vec<String>,
        delete_exclude: Vec<String>,
        detail: bool,
    },
    /// Run a task of the configuration file once.
    Run { name: String, config: String, dry_run: bool, checksum: bool, detail: bool },
    /// Watch a task's source and synchronise after each burst of changes.
    Watch {
        name: String,
        config: String,
        delay: u64,
        dry_run: bool,
        checksum: bool,
        detail: bool,
    },
}

} // verus!
