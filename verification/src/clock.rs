//! Access to the current time, and the bounds the library computes with.
//!
//! All timestamps in this crate are milliseconds since the Unix epoch,
//! held in an `i64`. Functions that derive new times from the clock first
//! clamp it into `0 ..= MAX_TS`, so window arithmetic cannot overflow.

use vstd::prelude::*;

verus! {

/// Upper bound on clamped timestamps (far future), in milliseconds.
pub const MAX_TS: i64 = 100_000_000_000_000;

/// Relies on chrono::Utc::now / timestamp_millis: the current time in
/// milliseconds since the Unix epoch. Nothing is promised of the value.
#[verifier::external_body]
pub(crate) fn now_millis() -> i64 {
    chrono::Utc::now().timestamp_millis()
}

/// Clamp a raw clock reading into the range the library computes with.
pub(crate) fn clamp_ts(t: i64) -> (r: i64)
    ensures
        0 <= r <= MAX_TS,
        0 <= t <= MAX_TS ==> r == t,
{
    if t < 0 {
        0
    } else if t > MAX_TS {
        MAX_TS
    } else {
        t
    }
}

} // verus!
