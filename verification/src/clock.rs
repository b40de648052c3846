//! The wall clock, behind a trusted wrapper.
//!
//! Timestamps stamped onto device records come from the system clock; the
//! clock's reading depends on when it is taken, so nothing is promised of
//! the value. Every function whose contract matters takes the reading as an
//! argument and is verified for every value of it.

use vstd::prelude::*;

verus! {

/// Relies on chrono's `Utc::now` and `DateTime::timestamp_millis`: the
/// current wall-clock time as milliseconds since the Unix epoch. The
/// reading depends on the moment of the call, so no clause constrains it.
#[verifier::external_body]
pub fn now_timestamp_ms() -> i64 {
    chrono::Utc::now().timestamp_millis()
}

} // verus!
