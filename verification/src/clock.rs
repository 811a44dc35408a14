//! The wall clock.

use vstd::prelude::*;

verus! {

/// The first second that the clock cannot show: `2^48`.
pub const CLOCK_END: i64 = 0x1_0000_0000_0000;

/// Calls `chrono::Utc::now` and takes `timestamp` of what it returns: the
/// seconds since the Unix epoch. `now` takes that count from the system
/// clock as a duration since the epoch, so it is not negative, and
/// `timestamp` builds it from a day number of 32 bits and the seconds of one
/// day, which keeps it under `2^48`. Two calls may differ.
#[verifier::external_body]
pub(crate) fn unix_time() -> (r: i64)
    ensures
        0 <= r < CLOCK_END,
{
    chrono::Utc::now().timestamp()
}

} // verus!
