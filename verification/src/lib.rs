//! A small key-value store: a mapping from string keys to string values,
//! persisted as one JSON object of string values.
//!
//! The library covers the whole load / mutate / persist cycle on plain
//! values; reading and writing the backing file is left to the program
//! around it.

use vstd::prelude::*;

pub mod command;
pub mod run;
pub mod store;

verus! {

/// The error conditions the store can report.
#[derive(Clone, Copy, Debug, PartialEq, Eq, Structural)]
pub enum KvError {
    /// Malformed or incomplete command-line input (a missing or empty operand).
    UsageError,
    /// A subcommand token outside the accepted set.
    InvalidCommand,
    /// Backing-file contents that are not a JSON object of string values.
    CorruptDatabase,
    /// A filesystem-level failure around the library.
    IoError,
    /// A lookup miss on a `get`.
    KeyNotFound,
}

} // verus!
