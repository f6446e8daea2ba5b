//! Directory synchronisation: exclusion rules, sync planning, deletion
//! planning, reports, remote-target parsing and the watch loop's decisions.

pub mod cli;
pub mod config;
pub mod infra;
pub mod numbers;
pub mod paths;
pub mod sync;
pub mod text;
pub mod utils;
