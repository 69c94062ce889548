//! The library's error type.

use vstd::prelude::*;

verus! {

/// Errors of the memory system.
#[derive(Debug, Clone, PartialEq, Eq)]
pub enum LocaiError {
    /// A storage backend failed.
    Storage(String),
    /// A memory operation failed.
    Memory(String),
    /// A connection to a remote server failed.
    Connection(String),
    /// The remote server sent something unexpected.
    Protocol(String),
    /// Authentication with a remote server failed.
    Authentication(String),
    /// An operation took too long.
    Timeout(String),
    /// Any other failure.
    Other(String),
}

} // verus!
