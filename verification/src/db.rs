//! Storage of registrations, operators and the sync state.

use vstd::prelude::*;

pub mod memory;
pub mod types;

verus! {

/// Why a storage operation failed.
#[derive(Clone, Copy, Debug, PartialEq, Eq)]
pub enum DbError {
    /// The connection to the store failed; the operation may be tried again.
    Connection,
    /// A stored address does not have 20 bytes.
    TryFromSlice,
    /// A stored endpoint is not a URL.
    ParseUrl,
    /// A stored key is not a public key.
    ParseBLSKey,
    /// A stored number does not fit; the text says which kind.
    ParseUint(&'static str),
    /// A query result lacks the named column.
    MissingField(&'static str),
}

impl DbError {
    /// Whether the failure is transient. Only a failed connection is: what is stored
    /// wrongly stays wrong.
    pub fn is_retryable(&self) -> (retry: bool)
        ensures
            retry == (*self is Connection),
    {
        match self {
            DbError::Connection => true,
            _ => false,
        }
    }
}

pub type DbResult<T> = Result<T, DbError>;

} // verus!
