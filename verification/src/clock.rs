//! The time of day.

use vstd::prelude::*;

verus! {

/// The last second that `chrono` can tell.
pub const LAST_SECOND: i64 = 8_210_266_876_799;

/// A Unix time that the clock can show.
pub open spec fn clock_time(now: i64) -> bool {
    0 <= now <= LAST_SECOND
}

/// Calls `chrono::Utc::now` and its `timestamp`: the seconds since the start of
/// 1970. `now` gives no time before that start nor beyond the last day of
/// `chrono`'s calendar; nothing more is claimed, since the time is not a function
/// of anything here.
#[verifier::external_body]
pub(crate) fn unix_now() -> (r: i64)
    ensures
        clock_time(r),
{
    chrono::Utc::now().timestamp()
}

} // verus!
