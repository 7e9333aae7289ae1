//! The leap-second record file that POSIX-like systems keep with their time zone data.
//!
//! Each line that announces a leap second reads `Leap`, the year, the month by its
//! English abbreviation, the day, the time of day as `hh:mm:ss`, and `+` or `-`, with a tab
//! between the fields and after the sign. Any other line is passed over.

use crate::calendar::{calendar_timestamp, utc_timestamp};
use crate::supplementary::{is_retained, SupplementaryTable};
use crate::table::{LeapEvent, FIRST_LEAP_SECONDS_DIFF};
use crate::text::{after, before, cut, find_byte, holds, lemma_first_position, parse_integer, read_integer};
use vstd::prelude::*;

verus! {

pub const TAB: u8 = 9;

pub const NEWLINE: u8 = 10;

pub const COLON: u8 = 58;

pub const PLUS: u8 = 43;

pub const MINUS: u8 = 45;

/// The fields of a line that begins with `Leap` and a tab.
pub struct LeapLine<'a> {
    pub year: &'a [u8],
    pub month: &'a [u8],
    pub day: &'a [u8],
    pub hour: &'a [u8],
    pub minute: &'a [u8],
    pub second: &'a [u8],
    pub sign: &'a [u8],
}

/// What a [`LeapLine`] holds.
pub struct LeapFields {
    pub year: Seq<u8>,
    pub month: Seq<u8>,
    pub day: Seq<u8>,
    pub hour: Seq<u8>,
    pub minute: Seq<u8>,
    pub second: Seq<u8>,
    pub sign: Seq<u8>,
}

impl<'a> View for LeapLine<'a> {
    type V = LeapFields;

    open spec fn view(&self) -> LeapFields {
        LeapFields {
            year: self.year@,
            month: self.month@,
            day: self.day@,
            hour: self.hour@,
            minute: self.minute@,
            second: self.second@,
            sign: self.sign@,
        }
    }
}

/// Whether `line` begins with the word `Leap` and a tab.
pub open spec fn is_leap_line(line: Seq<u8>) -> bool {
    &&& line.len() >= 5
    &&& line[0] == 'L' as u8
    &&& line[1] == 'e' as u8
    &&& line[2] == 'a' as u8
    &&& line[3] == 'p' as u8
    &&& line[4] == TAB
}

/// The fields of `line`, where it announces a leap second: each field ends at the first
/// separator that follows it, and the sign is followed by a tab as well.
pub open spec fn leap_fields(line: Seq<u8>) -> Option<LeapFields> {
    let from_year = line.skip(5);
    let from_month = after(from_year, TAB);
    let from_day = after(from_month, TAB);
    let from_hour = after(from_day, TAB);
    let from_minute = after(from_hour, COLON);
    let from_second = after(from_minute, COLON);
    let from_sign = after(from_second, TAB);
    if is_leap_line(line) && holds(from_year, TAB) && holds(from_month, TAB) && holds(
        from_day,
        TAB,
    ) && holds(from_hour, COLON) && holds(from_minute, COLON) && holds(from_second, TAB)
        && holds(from_sign, TAB) {
        Some(
            LeapFields {
                year: before(from_year, TAB),
                month: before(from_month, TAB),
                day: before(from_day, TAB),
                hour: before(from_hour, COLON),
                minute: before(from_minute, COLON),
                second: before(from_second, TAB),
                sign: before(from_sign, TAB),
            },
        )
    } else {
        None
    }
}

/// Cuts `line` into its fields.
pub fn cut_line<'a>(line: &'a [u8]) -> (fields: Option<LeapLine<'a>>)
    ensures
        fields is Some == leap_fields(line@) is Some,
        fields matches Some(f) ==> leap_fields(line@) == Some(f@),
{
    if !(line.len() >= 5 && line[0] == 'L' as u8 && line[1] == 'e' as u8 && line[2] == 'a' as u8
        && line[3] == 'p' as u8 && line[4] == TAB) {
        return None;
    }
    let rest = &line[5..line.len()];
    assert(rest@ == line@.skip(5));
    let (year, rest) = match cut(rest, TAB) {
        Some(parts) => parts,
        None => { return None; },
    };
    let (month, rest) = match cut(rest, TAB) {
        Some(parts) => parts,
        None => { return None; },
    };
    let (day, rest) = match cut(rest, TAB) {
        Some(parts) => parts,
        None => { return None; },
    };
    let (hour, rest) = match cut(rest, COLON) {
        Some(parts) => parts,
        None => { return None; },
    };
    let (minute, rest) = match cut(rest, COLON) {
        Some(parts) => parts,
        None => { return None; },
    };
    let (second, rest) = match cut(rest, TAB) {
        Some(parts) => parts,
        None => { return None; },
    };
    let (sign, _) = match cut(rest, TAB) {
        Some(parts) => parts,
        None => { return None; },
    };
    Some(LeapLine { year, month, day, hour, minute, second, sign })
}

/// Whether `name` consists of the three bytes given.
pub open spec fn is_name(name: Seq<u8>, first: u8, second: u8, third: u8) -> bool {
    name.len() == 3 && name[0] == first && name[1] == second && name[2] == third
}

/// The number of the month that `name` abbreviates.
pub open spec fn month_number(name: Seq<u8>) -> Option<u8> {
    if is_name(name, 'J' as u8, 'a' as u8, 'n' as u8) {
        Some(1)
    } else if is_name(name, 'F' as u8, 'e' as u8, 'b' as u8) {
        Some(2)
    } else if is_name(name, 'M' as u8, 'a' as u8, 'r' as u8) {
        Some(3)
    } else if is_name(name, 'A' as u8, 'p' as u8, 'r' as u8) {
        Some(4)
    } else if is_name(name, 'M' as u8, 'a' as u8, 'y' as u8) {
        Some(5)
    } else if is_name(name, 'J' as u8, 'u' as u8, 'n' as u8) {
        Some(6)
    } else if is_name(name, 'J' as u8, 'u' as u8, 'l' as u8) {
        Some(7)
    } else if is_name(name, 'A' as u8, 'u' as u8, 'g' as u8) {
        Some(8)
    } else if is_name(name, 'S' as u8, 'e' as u8, 'p' as u8) {
        Some(9)
    } else if is_name(name, 'O' as u8, 'c' as u8, 't' as u8) {
        Some(10)
    } else if is_name(name, 'N' as u8, 'o' as u8, 'v' as u8) {
        Some(11)
    } else if is_name(name, 'D' as u8, 'e' as u8, 'c' as u8) {
        Some(12)
    } else {
        None
    }
}

fn has_name(name: &[u8], first: char, second: char, third: char) -> (r: bool)
    requires
        first as u32 <= 127,
        second as u32 <= 127,
        third as u32 <= 127,
    ensures
        r == is_name(name@, first as u8, second as u8, third as u8),
{
    name.len() == 3 && name[0] == first as u8 && name[1] == second as u8 && name[2] == third as u8
}

/// Reads the abbreviation of a month.
pub fn read_month(name: &[u8]) -> (month: Option<u8>)
    ensures
        month == month_number(name@),
{
    if has_name(name, 'J', 'a', 'n') {
        Some(1)
    } else if has_name(name, 'F', 'e', 'b') {
        Some(2)
    } else if has_name(name, 'M', 'a', 'r') {
        Some(3)
    } else if has_name(name, 'A', 'p', 'r') {
        Some(4)
    } else if has_name(name, 'M', 'a', 'y') {
        Some(5)
    } else if has_name(name, 'J', 'u', 'n') {
        Some(6)
    } else if has_name(name, 'J', 'u', 'l') {
        Some(7)
    } else if has_name(name, 'A', 'u', 'g') {
        Some(8)
    } else if has_name(name, 'S', 'e', 'p') {
        Some(9)
    } else if has_name(name, 'O', 'c', 't') {
        Some(10)
    } else if has_name(name, 'N', 'o', 'v') {
        Some(11)
    } else if has_name(name, 'D', 'e', 'c') {
        Some(12)
    } else {
        None
    }
}

/// A number of at most 255 in decimal digits.
pub open spec fn parse_u8(text: Seq<u8>) -> Option<u8> {
    match parse_integer(text, 0, 255) {
        Some(n) => Some(n as u8),
        None => None,
    }
}

/// A number of 32 bits with its sign in decimal digits.
pub open spec fn parse_i32(text: Seq<u8>) -> Option<i32> {
    match parse_integer(text, i32::MIN as int, i32::MAX as int) {
        Some(n) => Some(n as i32),
        None => None,
    }
}

fn read_u8(text: &[u8]) -> (number: Option<u8>)
    ensures
        number == parse_u8(text@),
{
    match read_integer(text, 0, 255) {
        Some(n) => Some(n as u8),
        None => None,
    }
}

fn read_i32(text: &[u8]) -> (number: Option<i32>)
    ensures
        number == parse_i32(text@),
{
    match read_integer(text, i32::MIN as i64, i32::MAX as i64) {
        Some(n) => Some(n as i32),
        None => None,
    }
}

/// Whether a second is inserted (`+`) or removed (`-`).
pub open spec fn sign_inserts(sign: Seq<u8>) -> Option<bool> {
    if sign.len() == 1 && sign[0] == PLUS {
        Some(true)
    } else if sign.len() == 1 && sign[0] == MINUS {
        Some(false)
    } else {
        None
    }
}

/// The seconds of the minute as the calendar takes them: a leap second is written as
/// second 60, which stands for the last ordinary second.
pub open spec fn clamp_second(second: u8) -> u8 {
    if second > 59 {
        59
    } else {
        second
    }
}

/// The Unix timestamp of the moment that `fields` names and whether a second is inserted
/// there; `None` where a field cannot be read or the calendar has no such moment.
pub open spec fn leap_record(fields: LeapFields) -> Option<(i64, bool)> {
    match (
        parse_i32(fields.year),
        month_number(fields.month),
        parse_u8(fields.day),
        parse_u8(fields.hour),
        parse_u8(fields.minute),
        parse_u8(fields.second),
        sign_inserts(fields.sign),
    ) {
        (Some(year), Some(month), Some(day), Some(hour), Some(minute), Some(second), Some(inserts)) => {
            match utc_timestamp(year, month, day, hour, minute, clamp_second(second)) {
                Some(moment) => Some((moment, inserts)),
                None => None,
            }
        },
        _ => None,
    }
}

/// Reads the fields of a line.
pub fn read_record(line: &LeapLine<'_>) -> (record: Option<(i64, bool)>)
    ensures
        record == leap_record(line@),
        record matches Some((moment, _)) ==> -crate::calendar::TIMESTAMP_LIMIT <= moment
            <= crate::calendar::TIMESTAMP_LIMIT,
{
    let year = match read_i32(line.year) {
        Some(n) => n,
        None => { return None; },
    };
    let month = match read_month(line.month) {
        Some(n) => n,
        None => { return None; },
    };
    let day = match read_u8(line.day) {
        Some(n) => n,
        None => { return None; },
    };
    let hour = match read_u8(line.hour) {
        Some(n) => n,
        None => { return None; },
    };
    let minute = match read_u8(line.minute) {
        Some(n) => n,
        None => { return None; },
    };
    let second = match read_u8(line.second) {
        Some(n) => n,
        None => { return None; },
    };
    let second = if second > 59 {
        59
    } else {
        second
    };
    let moment = match calendar_timestamp(year, month, day, hour, minute, second) {
        Some(t) => t,
        None => { return None; },
    };
    if line.sign.len() == 1 && line.sign[0] == PLUS {
        Some((moment, true))
    } else if line.sign.len() == 1 && line.sign[0] == MINUS {
        Some((moment, false))
    } else {
        None
    }
}

/// The event that `line` announces, where the difference between TAI and UTC was `diff`
/// before it: an inserted second takes effect one second after the moment that the line
/// names and adds one to the difference; a removed second takes effect at that moment and
/// takes one off. `None` where the line announces nothing.
pub open spec fn line_event(line: Seq<u8>, diff: int) -> Option<(int, int)> {
    match leap_fields(line) {
        Some(fields) => match leap_record(fields) {
            Some((moment, true)) => Some((moment + 1, diff + 1)),
            Some((moment, false)) => Some((moment as int, diff - 1)),
            None => None,
        },
        None => None,
    }
}

/// The difference between TAI and UTC after `line`.
pub open spec fn diff_after(line: Seq<u8>, diff: int) -> int {
    match line_event(line, diff) {
        Some((_, next)) => next,
        None => diff,
    }
}

/// What `line` adds to a supplementary table.
pub open spec fn retained_of(line: Seq<u8>, diff: int) -> Seq<LeapEvent> {
    match line_event(line, diff) {
        Some((instant, next)) => if is_retained((instant as i64, next as i64)) {
            seq![(instant as i64, next as i64)]
        } else {
            Seq::empty()
        },
        None => Seq::empty(),
    }
}

/// The retained events of the lines of `text`, where the difference between TAI and UTC
/// was `diff` before the first of them. A line ends at a line feed or with the text.
pub open spec fn retained_events(text: Seq<u8>, diff: int) -> Seq<LeapEvent>
    decreases text.len(),
{
    let line = before(text, NEWLINE);
    if holds(text, NEWLINE) {
        proof {
            lemma_first_position(text, NEWLINE);
        }
        retained_of(line, diff) + retained_events(after(text, NEWLINE), diff_after(line, diff))
    } else {
        retained_of(line, diff)
    }
}

/// The supplementary table that the record file `text` gives: the events of all its
/// lines, counted on from the difference that held before the first published leap second,
/// of which those at or after the expiration instant of the compiled-in table are kept.
pub open spec fn leap_seconds_in(text: Seq<u8>) -> Seq<LeapEvent> {
    retained_events(text, FIRST_LEAP_SECONDS_DIFF as int)
}

/// Reads the leap-second record file `text`. Lines that cannot be read are passed over.
pub fn parse_leap_seconds(text: &[u8]) -> (table: SupplementaryTable)
    ensures
        table@ == leap_seconds_in(text@),
{
    let mut table = SupplementaryTable::new();
    let mut diff: i64 = FIRST_LEAP_SECONDS_DIFF;
    let mut rest: &[u8] = text;
    let length = text.len();
    loop
        invariant
            text@.len() == length,
            leap_seconds_in(text@) == table@ + retained_events(rest@, diff as int),
            rest@.len() <= text@.len(),
            5 * (diff - FIRST_LEAP_SECONDS_DIFF) <= text@.len() - rest@.len(),
            5 * (FIRST_LEAP_SECONDS_DIFF - diff) <= text@.len() - rest@.len(),
        decreases rest@.len(),
    {
        let end = find_byte(rest, NEWLINE);
        let line = &rest[0..end];
        let ghost before_line = table@;
        let ghost diff_before = diff as int;
        proof {
            lemma_first_position(rest@, NEWLINE);
            assert(line@ == before(rest@, NEWLINE));
        }
        match cut_line(line) {
            Some(fields) => match read_record(&fields) {
                Some((moment, inserts)) => {
                    let instant = if inserts {
                        diff = diff + 1;
                        moment + 1
                    } else {
                        diff = diff - 1;
                        moment
                    };
                    table = table.with_event((instant, diff));
                },
                None => {},
            },
            None => {},
        }
        assert(table@ == before_line + retained_of(line@, diff_before));
        assert(diff == diff_after(line@, diff_before));
        if end == rest.len() {
            return table;
        }
        rest = &rest[end + 1..rest.len()];
    }
}

} // verus!
