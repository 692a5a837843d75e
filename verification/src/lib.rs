//! A storage access layer for typed domain records (users, nonprofits,
//! causes, items, accounts, affiliates) with two execution contexts: an
//! auto-committing on-demand store and a transactional store with explicit
//! commit/rollback, plus an opaque cursor-pagination protocol shared by
//! every listing operation.

use vstd::prelude::*;

pub mod clock;
pub mod config;
pub mod stores;
pub mod database;
pub mod models;
pub mod page_token;
pub mod paging;
pub mod status;

verus! {

/// Failure taxonomy of the storage layer.
///
/// Absence of a row is not an error at this layer: lookups return `Option`.
#[derive(Clone, Copy, Debug, PartialEq, Eq, Structural)]
pub enum Error {
    /// A uniqueness or other constraint was violated by a write.
    Conflict,
    /// The persistence machinery itself failed (driver failure, exhausted
    /// id space, statement issued against an already-failed transaction).
    PersistenceFailure,
    /// A pagination cursor was malformed; the request is rejected before
    /// any query runs.
    PaginationTokenInvalid,
    /// No connection could be acquired to serve the call. The in-process
    /// store never runs out of connections, so none of its operations
    /// produce this; it completes the taxonomy consumers map to status
    /// codes.
    ResourceExhausted,
}

} // verus!
