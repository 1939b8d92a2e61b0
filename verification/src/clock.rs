//! The wall clock.

use vstd::prelude::*;

verus! {

/// Calls `std::time::UNIX_EPOCH.elapsed()` and takes the duration in whole
/// milliseconds. Trusted for nothing about the value, which is whatever the
/// machine's clock reads; the call fails when the clock stands before 1970,
/// and the error is carried as its message.
#[verifier::external_body]
pub(crate) fn unix_time_millis() -> (r: Result<u128, String>) {
    match std::time::UNIX_EPOCH.elapsed() {
        Ok(d) => Ok(d.as_millis()),
        Err(e) => Err(e.to_string()),
    }
}

} // verus!
