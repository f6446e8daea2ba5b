//! Errors shared across the library.

pub mod error;
