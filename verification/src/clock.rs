//! The wall clock.

use vstd::prelude::*;

verus! {

/// Reads the clock with `chrono::Utc::now` and returns the Unix time in
/// seconds.
///
/// Trusted, and nothing is claimed of the value: two readings may differ.
/// `Utc::now` gives up on a clock that is set before 1970.
#[verifier::external_body]
pub(crate) fn unix_time() -> i64 {
    chrono::Utc::now().timestamp()
}

} // verus!
