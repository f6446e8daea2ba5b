//! Formatting helpers for reports.

pub mod format;
