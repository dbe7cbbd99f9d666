//! The wall clock.
//!
//! A reading is taken with the `time` crate, whose calendar is bounded, so a
//! reading always lies within the calendar. That is all that is known of it.

use crate::models::PrimitiveDateTime;
use vstd::prelude::*;

verus! {

/// The first second of the widest calendar that the `time` crate has
/// (year -999999), in seconds since the Unix epoch.
pub const CLOCK_MIN: i64 = -31_619_087_596_800;

/// The last second of the widest calendar that the `time` crate has
/// (year 999999), in seconds since the Unix epoch.
pub const CLOCK_MAX: i64 = 31_494_784_780_799;

/// Whether `seconds` can be a reading of the clock.
pub open spec fn is_reading(seconds: i64) -> bool {
    CLOCK_MIN <= seconds <= CLOCK_MAX
}

/// The current date and time in UTC, read with
/// `time::OffsetDateTime::now_utc` and taken apart with `unix_timestamp` and
/// `nanosecond`. Two readings may differ in either direction. What the
/// contract claims is the range: `now_utc` makes its value by adding the
/// system time to the epoch inside the crate's calendar and does not return
/// where the sum leaves the calendar, which ends with year 9999, or with year
/// 999999 where the crate's large dates are switched on. The wider of the two
/// is stated, so that the claim holds either way.
#[verifier::external_body]
pub(crate) fn now_utc() -> (now: PrimitiveDateTime)
    ensures
        is_reading(now.seconds),
{
    let now = time::OffsetDateTime::now_utc();
    PrimitiveDateTime { seconds: now.unix_timestamp(), nanosecond: now.nanosecond() }
}

/// The current time in whole seconds since the Unix epoch: the seconds of a
/// reading of the clock, which lie within the calendar.
pub(crate) fn unix_now() -> (now: i64)
    ensures
        is_reading(now),
{
    now_utc().seconds
}

} // verus!
