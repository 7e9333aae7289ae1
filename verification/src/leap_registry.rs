//! The leap-second list that Windows keeps in its registry.
//!
//! The value is a run of records of twelve bytes: six numbers of sixteen bits, least
//! significant byte first, which give the year, the month, the day and the hour in whose
//! last second a leap second falls, whether it is a removed one, and a number that is not
//! used.

use crate::calendar::{calendar_timestamp, utc_timestamp};
use crate::supplementary::{is_retained, SupplementaryTable};
use crate::table::{LeapEvent, LAST_LEAP_SECONDS_DIFF};
use vstd::prelude::*;

verus! {

/// The number of bytes of one record.
pub const RECORD_SIZE: usize = 12;

/// One record of the list.
#[derive(Clone, Copy, Debug, PartialEq, Eq, Structural)]
pub struct LeapInfo {
    pub year: u16,
    pub month: u16,
    pub day: u16,
    pub hour: u16,
    pub negative: u16,
}

/// The number that the two bytes of `bytes` from `at` on write.
pub open spec fn word_at(bytes: Seq<u8>, at: int) -> u16 {
    (bytes[at] + 256 * bytes[at + 1]) as u16
}

/// The record with which `bytes` begins.
pub open spec fn first_record(bytes: Seq<u8>) -> LeapInfo {
    LeapInfo {
        year: word_at(bytes, 0),
        month: word_at(bytes, 2),
        day: word_at(bytes, 4),
        hour: word_at(bytes, 6),
        negative: word_at(bytes, 8),
    }
}

fn read_word(bytes: &[u8], at: usize) -> (word: u16)
    requires
        at + 1 < bytes@.len(),
    ensures
        word == word_at(bytes@, at as int),
{
    bytes[at] as u16 + 256 * (bytes[at + 1] as u16)
}

/// Reads the record with which `bytes` begins.
pub fn read_info(bytes: &[u8]) -> (info: LeapInfo)
    requires
        bytes@.len() >= RECORD_SIZE,
    ensures
        info == first_record(bytes@),
{
    LeapInfo {
        year: read_word(bytes, 0),
        month: read_word(bytes, 2),
        day: read_word(bytes, 4),
        hour: read_word(bytes, 6),
        negative: read_word(bytes, 8),
    }
}

/// The Unix timestamp of the last second of the hour that `info` names; `None` where the
/// month, the day or the hour does not fit in a byte, or the calendar has no such hour.
pub open spec fn info_moment(info: LeapInfo) -> Option<i64> {
    if info.month <= 255 && info.day <= 255 && info.hour <= 255 {
        utc_timestamp(info.year as i32, info.month as u8, info.day as u8, info.hour as u8, 59, 59)
    } else {
        None
    }
}

/// Finds the moment that a record names.
pub fn read_moment(info: LeapInfo) -> (moment: Option<i64>)
    ensures
        moment == info_moment(info),
        moment matches Some(t) ==> -crate::calendar::TIMESTAMP_LIMIT <= t
            <= crate::calendar::TIMESTAMP_LIMIT,
{
    if info.month <= 255 && info.day <= 255 && info.hour <= 255 {
        calendar_timestamp(
            info.year as i32,
            info.month as u8,
            info.day as u8,
            info.hour as u8,
            59,
            59,
        )
    } else {
        None
    }
}

/// The event that `info` announces, where the difference between TAI and UTC was `diff`
/// before it: it takes effect one second after the moment that the record names, and takes
/// one off the difference if the record is marked negative and adds one if not. `None`
/// where the record names no moment.
pub open spec fn info_event(info: LeapInfo, diff: int) -> Option<(int, int)> {
    match info_moment(info) {
        Some(moment) => Some(
            (
                moment + 1,
                if info.negative != 0 {
                    diff - 1
                } else {
                    diff + 1
                },
            ),
        ),
        None => None,
    }
}

/// The difference between TAI and UTC after `info`.
pub open spec fn diff_after(info: LeapInfo, diff: int) -> int {
    match info_event(info, diff) {
        Some((_, next)) => next,
        None => diff,
    }
}

/// What `info` adds to a supplementary table.
pub open spec fn retained_of(info: LeapInfo, diff: int) -> Seq<LeapEvent> {
    match info_event(info, diff) {
        Some((instant, next)) => if is_retained((instant as i64, next as i64)) {
            seq![(instant as i64, next as i64)]
        } else {
            Seq::empty()
        },
        None => Seq::empty(),
    }
}

/// The retained events of the whole records of `bytes`, where the difference between TAI
/// and UTC was `diff` before the first of them.
pub open spec fn retained_events(bytes: Seq<u8>, diff: int) -> Seq<LeapEvent>
    decreases bytes.len(),
{
    if bytes.len() >= RECORD_SIZE {
        let info = first_record(bytes);
        retained_of(info, diff) + retained_events(
            bytes.skip(RECORD_SIZE as int),
            diff_after(info, diff),
        )
    } else {
        Seq::empty()
    }
}

/// The supplementary table that the registry value `bytes` gives: none where the value
/// is empty or not a whole number of records; else the events of its records, counted on
/// from the difference with which the compiled-in table ends, of which those at or after
/// the expiration instant of that table are kept.
pub open spec fn leap_seconds_in(bytes: Seq<u8>) -> Option<Seq<LeapEvent>> {
    if bytes.len() == 0 || bytes.len() % (RECORD_SIZE as nat) != 0 {
        None
    } else {
        Some(retained_events(bytes, LAST_LEAP_SECONDS_DIFF as int))
    }
}

/// Reads the registry value `bytes`. Records that name no moment are passed over.
pub fn parse_leap_seconds(bytes: &[u8]) -> (table: Option<SupplementaryTable>)
    ensures
        table is Some == leap_seconds_in(bytes@) is Some,
        table matches Some(t) ==> leap_seconds_in(bytes@) == Some(t@),
{
    let length = bytes.len();
    if length == 0 || length % RECORD_SIZE != 0 {
        return None;
    }
    let mut table = SupplementaryTable::new();
    let mut diff: i64 = LAST_LEAP_SECONDS_DIFF;
    let mut rest: &[u8] = bytes;
    while rest.len() >= RECORD_SIZE
        invariant
            bytes@.len() == length,
            rest@.len() <= bytes@.len(),
            retained_events(bytes@, LAST_LEAP_SECONDS_DIFF as int) == table@ + retained_events(
                rest@,
                diff as int,
            ),
            12 * (diff - LAST_LEAP_SECONDS_DIFF) <= bytes@.len() - rest@.len(),
            12 * (LAST_LEAP_SECONDS_DIFF - diff) <= bytes@.len() - rest@.len(),
        decreases rest@.len(),
    {
        let info = read_info(rest);
        let ghost before_record = table@;
        let ghost diff_before = diff as int;
        match read_moment(info) {
            Some(moment) => {
                if info.negative != 0 {
                    diff = diff - 1;
                } else {
                    diff = diff + 1;
                }
                table = table.with_event((moment + 1, diff));
            },
            None => {},
        }
        assert(table@ == before_record + retained_of(info, diff_before));
        rest = &rest[RECORD_SIZE..rest.len()];
    }
    assert(retained_events(rest@, diff as int) == Seq::<LeapEvent>::empty());
    Some(table)
}

} // verus!
