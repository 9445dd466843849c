//! The one place the library reads the wall clock.

use vstd::prelude::*;

verus! {

/// Relies on chrono's `Utc::now` and `DateTime::timestamp_millis`: the
/// current time as milliseconds since the Unix epoch. Nothing can be promised
/// of a clock reading, so every caller must hold for any returned value.
/// `Utc::now` panics on a machine whose clock stands before the epoch.
#[verifier::external_body]
pub(crate) fn clock_now_millis() -> i64 {
    chrono::Utc::now().timestamp_millis()
}

} // verus!
