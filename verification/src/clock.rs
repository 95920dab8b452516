//! The wall clock, read through the chrono crate.

use vstd::prelude::*;

verus! {

/// Relies on chrono's `Utc::now`: the current wall-clock time in milliseconds
/// since the Unix epoch, reported as zero for a reading before the epoch.
/// Nothing can be promised of a clock reading.
#[verifier::external_body]
pub(crate) fn now_millis() -> u64 {
    match u64::try_from(chrono::Utc::now().timestamp_millis()) {
        Ok(v) => v,
        Err(_) => 0,
    }
}

} // verus!
