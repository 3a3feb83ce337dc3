//! The wall clock.

use vstd::prelude::*;

verus! {

/// The present moment, in seconds since the epoch.
///
/// Trusted: reads the system clock through `chrono::Utc::now` and takes its
/// `timestamp`. Nothing is claimed of the value. (`now` stops the process where the
/// clock stands before 1970.)
#[verifier::external_body]
pub(crate) fn unix_now() -> i64 {
    chrono::Utc::now().timestamp()
}

} // verus!
