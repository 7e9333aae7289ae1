//! The Unix timestamp of a calendar moment.

use vstd::prelude::*;

verus! {

/// The Unix timestamp of the moment that the proleptic Gregorian calendar calls `year`,
/// `month`, `day`, `hour`:`minute`:`second` in UTC; `None` where it has no such moment.
pub uninterp spec fn utc_timestamp(
    year: i32,
    month: u8,
    day: u8,
    hour: u8,
    minute: u8,
    second: u8,
) -> Option<i64>;

/// The largest magnitude of a timestamp that [`calendar_timestamp`] returns.
pub const TIMESTAMP_LIMIT: i64 = 0x1_0000_0000_0000;

/// Asks the `time` crate for the Unix timestamp of a calendar moment in UTC:
/// `Month::try_from`, `Date::from_calendar_date`, `Date::with_hms`,
/// `PrimitiveDateTime::assume_utc` and `OffsetDateTime::unix_timestamp`, in this order.
///
/// Not proved: that the result depends on the six numbers alone, which the name
/// [`utc_timestamp`] stands for; and that a timestamp stays below 2^48 in magnitude, being
/// a day number of 32 bits times 86400 plus the second of the day.
#[verifier::external_body]
pub(crate) fn calendar_timestamp(
    year: i32,
    month: u8,
    day: u8,
    hour: u8,
    minute: u8,
    second: u8,
) -> (timestamp: Option<i64>)
    ensures
        timestamp == utc_timestamp(year, month, day, hour, minute, second),
        timestamp matches Some(t) ==> -TIMESTAMP_LIMIT <= t <= TIMESTAMP_LIMIT,
{
    let month = time::Month::try_from(month).ok()?;
    let date = time::Date::from_calendar_date(year, month, day).ok()?;
    let date_time = date.with_hms(hour, minute, second).ok()?;
    Some(date_time.assume_utc().unix_timestamp())
}

} // verus!
