//! Trusted access to the wall clock.

use vstd::prelude::*;

verus! {

/// Relies on chrono::Utc::now for the current wall-clock instant, converted
/// one for one to Unix seconds by chrono's DateTime::timestamp. Nothing can
/// be promised of a clock reading, so callers hand the value to functions
/// whose contracts hold for every reading.
#[verifier::external_body]
pub(crate) fn now_seconds() -> i64 {
    chrono::Utc::now().timestamp()
}

} // verus!
