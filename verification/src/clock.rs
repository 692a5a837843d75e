//! The wall clock. Row timestamps are nanosecond counts; the operations
//! that stamp rows take the instant as an argument and are verified for
//! every value of it, so nothing here needs a contract.

use vstd::prelude::*;

verus! {

/// Relies on chrono::Utc::now for the current wall-clock instant, reduced
/// to nanoseconds since the epoch. The value depends on the environment;
/// callers state nothing about it.
#[verifier::external_body]
pub(crate) fn now_nanos() -> i64 {
    chrono::Utc::now().timestamp_nanos_opt().unwrap_or(0)
}

} // verus!
