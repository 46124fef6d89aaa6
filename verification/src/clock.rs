//! Points in time, and the reading of the clock.

use vstd::prelude::*;

verus! {

/// A point in time, in nanoseconds since the UNIX epoch.
pub type Timestamp = i128;

/// One second, in nanoseconds.
pub const SECOND: i128 = 1_000_000_000;

/// One hour, in nanoseconds.
pub const HOUR: i128 = 3_600_000_000_000;

/// The first instant a date can name: the start of the year -9999.
pub const FIRST_TIMESTAMP: i128 = -377_705_116_800_000_000_000;

/// The last instant a date can name: the end of the year 9999.
pub const LAST_TIMESTAMP: i128 = 253_402_300_799_999_999_999;

/// The instants that a calendar date of at most four digits can name.
pub open spec fn is_datetime(at: int) -> bool {
    FIRST_TIMESTAMP <= at <= LAST_TIMESTAMP
}

/// The whole seconds since the epoch, rounded down.
pub open spec fn whole_seconds(at: int) -> int {
    at / (SECOND as int)
}

/// The present instant, from `time::OffsetDateTime::now_utc`. All that is claimed of it is the
/// range that an `OffsetDateTime` can hold.
#[verifier::external_body]
pub(crate) fn now_utc() -> (now: Timestamp)
    ensures
        is_datetime(now as int),
{
    time::OffsetDateTime::now_utc().unix_timestamp_nanos()
}

/// The UNIX timestamp of `at`, in whole seconds.
pub fn unix_timestamp(at: Timestamp) -> (seconds: i64)
    requires
        is_datetime(at as int),
    ensures
        seconds == whole_seconds(at as int),
{
    if at >= 0 {
        (at / SECOND) as i64
    } else {
        // Rust's division rounds toward zero; a negative time has to round down.
        let below: i128 = -((-at + (SECOND - 1)) / SECOND);
        assert(below == whole_seconds(at as int));
        below as i64
    }
}

} // verus!
