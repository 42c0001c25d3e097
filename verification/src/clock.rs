//! The wall clock.

use vstd::prelude::*;

verus! {

/// The first millisecond that has a calendar date: the start of the year -262143.
pub const MIN_UTC_MILLIS: i64 = -8_334_601_228_800_000;

/// The last millisecond that has a calendar date: the end of the year 262142.
pub const MAX_UTC_MILLIS: i64 = 8_210_266_876_799_999;

/// Milliseconds since the start of 1970, by the clock of the machine.
///
/// Calls `chrono::Utc::now` and `DateTime::timestamp_millis`. The first fails on a
/// clock that stands before 1970 or beyond the calendar, so what it returns lies
/// between. Nothing else holds of every reading: not even that it is later than the
/// one before.
#[verifier::external_body]
pub(crate) fn now_millis() -> (now: i64)
    ensures
        0 <= now <= MAX_UTC_MILLIS,
{
    chrono::Utc::now().timestamp_millis()
}

/// The time `millis` milliseconds after the start of 1970, as a point in time that
/// has a calendar date.
///
/// Calls `chrono::DateTime::from_timestamp_millis`, which gives nothing outside the
/// calendar, and `DateTime::timestamp_millis`, which is its inverse.
#[verifier::external_body]
pub(crate) fn calendar_millis(millis: i64) -> (time: Option<i64>)
    ensures
        time == (if MIN_UTC_MILLIS <= millis <= MAX_UTC_MILLIS {
            Some(millis)
        } else {
            None
        }),
{
    chrono::DateTime::from_timestamp_millis(millis).map(|time| time.timestamp_millis())
}

} // verus!
