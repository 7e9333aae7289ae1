//! What holds of the conversions between the two time scales.
//!
//! The laws speak of seconds first, and then of instants with their fraction of a second.
//! They hold for every supplementary table, sorted or not, that keeps to the expiration
//! instant of the compiled-in table.

use crate::duration::{lemma_whole_seconds, whole_seconds_of, NANOS_PER_SECOND};
use crate::instant::{TaiDateTime, UtcDateTime};
use crate::leap_seconds::{lemma_static_offset_bounds, resolved_offset, LeapSeconds, Step};
use crate::supplementary::all_retained;
use crate::table::{
    event_key, expires_at, last_event, last_event_index, lemma_last_event_index,
    lemma_last_event_index_is, lemma_static_table, static_offset, LeapEvent, TimeScale,
    EXPIRES_AT_TAI, EXPIRES_AT_UTC, FIRST_LEAP_SECONDS_DIFF, LAST_LEAP_SECONDS_DIFF, LEAP_SECONDS,
};
use vstd::prelude::*;

verus! {

/// The TAI second of the UTC second `utc`.
pub open spec fn tai_second(supplementary: Seq<LeapEvent>, utc: int) -> int {
    utc + resolved_offset(supplementary, TimeScale::Utc, utc)
}

/// The UTC second of the TAI second `tai`.
pub open spec fn utc_second(supplementary: Seq<LeapEvent>, tai: int) -> int {
    tai - resolved_offset(supplementary, TimeScale::Tai, tai)
}

/// The TAI instant of the UTC instant `utc`, both in nanoseconds since the epoch.
pub open spec fn tai_instant(supplementary: Seq<LeapEvent>, utc: int) -> int {
    utc + resolved_offset(supplementary, TimeScale::Utc, whole_seconds_of(utc))
        * NANOS_PER_SECOND
}

/// The UTC instant of the TAI instant `tai`, both in nanoseconds since the epoch.
pub open spec fn utc_instant(supplementary: Seq<LeapEvent>, tai: int) -> int {
    tai - resolved_offset(supplementary, TimeScale::Tai, whole_seconds_of(tai))
        * NANOS_PER_SECOND
}

/// All events that are known with `supplementary`: the compiled-in ones, then these.
pub open spec fn known_events(supplementary: Seq<LeapEvent>) -> Seq<LeapEvent> {
    LEAP_SECONDS@ + supplementary
}

/// Whether UTC has counted the second `utc`, and the lookup on the TAI scale reaches the
/// event that decided for it.
///
/// A supplementary event that takes seconds off the difference removes as many seconds
/// from UTC just before it: they lie before the event on the UTC scale, and their TAI
/// seconds at or after it. And where a supplementary event gives less than the 37 seconds
/// of the compiled-in table, the TAI seconds of the first UTC seconds after the expiration
/// instant lie before the expiration instant on the TAI scale, where the supplementary
/// events are not looked at.
pub open spec fn utc_second_is_counted(supplementary: Seq<LeapEvent>, utc: int) -> bool {
    &&& forall|i: int|
        0 <= i < supplementary.len() && (#[trigger] supplementary[i]).0 > utc ==> event_key(
            supplementary[i],
            TimeScale::Tai,
        ) > tai_second(supplementary, utc)
    &&& utc >= EXPIRES_AT_UTC ==> tai_second(supplementary, utc) >= EXPIRES_AT_TAI
}

/// Whether the TAI second `tai` is one that UTC has counted too: it is no inserted leap
/// second, which lies before its event on the TAI scale while its UTC second would lie at
/// or after the event.
pub open spec fn tai_second_is_counted(supplementary: Seq<LeapEvent>, tai: int) -> bool {
    forall|i: int|
        0 <= i < known_events(supplementary).len() && event_key(
            #[trigger] known_events(supplementary)[i],
            TimeScale::Tai,
        ) > tai ==> known_events(supplementary)[i].0 > utc_second(supplementary, tai)
}

/// Before the first tabulated event the difference is ten seconds, whatever the
/// supplementary events.
pub proof fn lemma_offset_before_first_event(supplementary: Seq<LeapEvent>, utc: int)
    requires
        utc < LEAP_SECONDS@[0].0,
    ensures
        resolved_offset(supplementary, TimeScale::Utc, utc) == FIRST_LEAP_SECONDS_DIFF,
{
    lemma_static_table();
    lemma_last_event_index_is(LEAP_SECONDS@, TimeScale::Utc, utc, -1);
}

/// At the very second of a compiled-in event the difference is that of the event, not
/// the one before.
pub proof fn lemma_offset_at_static_event(supplementary: Seq<LeapEvent>, i: int)
    requires
        0 <= i < LEAP_SECONDS@.len(),
    ensures
        resolved_offset(supplementary, TimeScale::Utc, LEAP_SECONDS@[i].0 as int)
            == LEAP_SECONDS@[i].1,
{
    lemma_static_table();
    lemma_last_event_index_is(LEAP_SECONDS@, TimeScale::Utc, LEAP_SECONDS@[i].0 as int, i);
}

/// At the very second of a supplementary event the difference is that of the event, if no
/// later event of the table lies at or before it.
pub proof fn lemma_offset_at_supplementary_event(supplementary: Seq<LeapEvent>, i: int)
    requires
        all_retained(supplementary),
        0 <= i < supplementary.len(),
        forall|j: int|
            i < j < supplementary.len() ==> (#[trigger] supplementary[j]).0 > supplementary[i].0,
    ensures
        resolved_offset(supplementary, TimeScale::Utc, supplementary[i].0 as int)
            == supplementary[i].1,
{
    lemma_last_event_index_is(supplementary, TimeScale::Utc, supplementary[i].0 as int, i);
}

/// From the expiration instant on, a supplementary event that has taken effect goes
/// before the compiled-in table.
pub proof fn lemma_supplementary_goes_first(
    supplementary: Seq<LeapEvent>,
    scale: TimeScale,
    instant: int,
    event: LeapEvent,
)
    requires
        instant >= expires_at(scale),
        last_event(supplementary, scale, instant) == Some(event),
    ensures
        resolved_offset(supplementary, scale, instant) == event.1,
{
}

/// Before the expiration instant the supplementary events play no part, and the live
/// source is not asked for them.
pub proof fn lemma_supplementary_unused_before_expiration(
    known: LeapSeconds,
    supplementary: Seq<LeapEvent>,
    scale: TimeScale,
    instant: int,
)
    requires
        instant < expires_at(scale),
    ensures
        resolved_offset(supplementary, scale, instant) == static_offset(scale, instant),
        known.offset_step(scale, instant) == Step::Done(static_offset(scale, instant)),
{
}

/// Once the live source has been asked, no lookup asks for it again, and every lookup
/// finds what the supplied events give.
pub proof fn lemma_asked_once(known: LeapSeconds, scale: TimeScale, instant: int)
    requires
        known.supplementary() is Some,
    ensures
        known.offset_step(scale, instant) == Step::Done(
            resolved_offset(known.supplementary()->0, scale, instant),
        ),
{
}

/// The conversions of [`LeapSeconds`], once the live source has been asked, are
/// [`tai_instant`] and [`utc_instant`].
pub proof fn lemma_conversions(known: LeapSeconds, utc: UtcDateTime, tai: TaiDateTime)
    requires
        known.supplementary() is Some,
        utc.since_epoch().is_normalized(),
        tai.since_epoch().is_normalized(),
    ensures
        known.to_tai_step(utc) == Step::Done(
            tai_instant(known.supplementary()->0, utc.since_epoch().total_nanoseconds()),
        ),
        known.to_utc_step(tai) == Step::Done(
            utc_instant(known.supplementary()->0, tai.since_epoch().total_nanoseconds()),
        ),
{
    lemma_whole_seconds(utc.since_epoch());
    lemma_whole_seconds(tai.since_epoch());
}

/// With the compiled-in table alone, a UTC second comes back from TAI as it went.
pub proof fn lemma_static_round_trip(utc: int)
    ensures
        static_offset(TimeScale::Tai, utc + static_offset(TimeScale::Utc, utc)) == static_offset(
            TimeScale::Utc,
            utc,
        ),
{
    lemma_static_table();
    lemma_last_event_index(LEAP_SECONDS@, TimeScale::Utc, utc);
    let k = last_event_index(LEAP_SECONDS@, TimeScale::Utc, utc);
    let offset = static_offset(TimeScale::Utc, utc);
    assert forall|j: int| k < j < LEAP_SECONDS@.len() implies event_key(
        #[trigger] LEAP_SECONDS@[j],
        TimeScale::Tai,
    ) > utc + offset by {
        assert(LEAP_SECONDS@[j].0 > utc);
        assert(LEAP_SECONDS@[j].1 == 11 + j);
    }
    lemma_last_event_index_is(LEAP_SECONDS@, TimeScale::Tai, utc + offset, k);
}

/// From the expiration instant on, the compiled-in table gives its last difference.
pub proof fn lemma_static_offset_after_expiration(scale: TimeScale, instant: int)
    requires
        instant >= expires_at(scale),
    ensures
        static_offset(scale, instant) == LAST_LEAP_SECONDS_DIFF,
{
    lemma_static_table();
    lemma_last_event_index_is(LEAP_SECONDS@, scale, instant, 26);
}

/// A UTC second that has been counted comes back from TAI as it went.
pub proof fn lemma_utc_second_round_trip(supplementary: Seq<LeapEvent>, utc: int)
    requires
        all_retained(supplementary),
        utc_second_is_counted(supplementary, utc),
    ensures
        utc_second(supplementary, tai_second(supplementary, utc)) == utc,
{
    lemma_static_table();
    lemma_static_round_trip(utc);
    lemma_static_offset_bounds(TimeScale::Utc, utc);
    let tai = tai_second(supplementary, utc);
    if utc >= EXPIRES_AT_UTC {
        lemma_last_event_index(supplementary, TimeScale::Utc, utc);
        let k = last_event_index(supplementary, TimeScale::Utc, utc);
        assert forall|j: int| k < j < supplementary.len() implies event_key(
            #[trigger] supplementary[j],
            TimeScale::Tai,
        ) > tai by {
            assert(supplementary[j].0 > utc);
        }
        lemma_last_event_index_is(supplementary, TimeScale::Tai, tai, k);
    }
}

/// A TAI second that UTC has counted comes back from UTC as it went.
pub proof fn lemma_tai_second_round_trip(supplementary: Seq<LeapEvent>, tai: int)
    requires
        all_retained(supplementary),
        tai_second_is_counted(supplementary, tai),
    ensures
        tai_second(supplementary, utc_second(supplementary, tai)) == tai,
{
    lemma_static_table();
    let known = known_events(supplementary);
    let utc = utc_second(supplementary, tai);
    lemma_last_event_index(LEAP_SECONDS@, TimeScale::Tai, tai);
    let k = last_event_index(LEAP_SECONDS@, TimeScale::Tai, tai);
    assert forall|i: int| k < i < LEAP_SECONDS@.len() && static_offset(TimeScale::Tai, tai)
        == resolved_offset(supplementary, TimeScale::Tai, tai) implies (
    #[trigger] LEAP_SECONDS@[i]).0 > utc by {
        assert(known[i] == LEAP_SECONDS@[i]);
    }
    if tai >= EXPIRES_AT_TAI {
        lemma_static_offset_after_expiration(TimeScale::Tai, tai);
        lemma_last_event_index(supplementary, TimeScale::Tai, tai);
        let j = last_event_index(supplementary, TimeScale::Tai, tai);
        assert forall|i: int| j < i < supplementary.len() implies (#[trigger] supplementary[i]).0
            > utc by {
            assert(known[27 + i] == supplementary[i]);
        }
        if j >= 0 {
            lemma_last_event_index_is(supplementary, TimeScale::Utc, utc, j);
        } else {
            lemma_static_offset_after_expiration(TimeScale::Utc, utc);
            lemma_last_event_index_is(supplementary, TimeScale::Utc, utc, -1);
        }
    } else {
        lemma_last_event_index_is(LEAP_SECONDS@, TimeScale::Utc, utc, k);
    }
}

/// The whole seconds of an instant moved by whole seconds, where the instant is not
/// negative before or after.
proof fn lemma_whole_seconds_moved(total: int, seconds: int)
    requires
        total >= 0,
        total + seconds * NANOS_PER_SECOND >= 0,
    ensures
        whole_seconds_of(total + seconds * NANOS_PER_SECOND) == whole_seconds_of(total) + seconds,
{
    let g = NANOS_PER_SECOND as int;
    assert((total + seconds * g) / g == total / g + seconds) by (nonlinear_arith)
        requires
            g > 0,
    ;
}

/// The whole seconds of an instant keep to its sign and to any bound in whole seconds.
proof fn lemma_whole_seconds_bounds(total: int, seconds: int)
    ensures
        total < 0 ==> whole_seconds_of(total) <= 0,
        total >= 0 ==> whole_seconds_of(total) >= 0,
        total < seconds * NANOS_PER_SECOND && (seconds > 0 || total >= 0) ==> whole_seconds_of(total)
            < seconds,
{
    let g = NANOS_PER_SECOND as int;
    if total >= 0 {
        assert(total / g >= 0 && (total < seconds * g ==> total / g < seconds))
            by (nonlinear_arith)
            requires
                g > 0,
                total >= 0,
        ;
    } else {
        assert((-total) / g >= 0) by (nonlinear_arith)
            requires
                g > 0,
                -total >= 0,
        ;
    }
}

/// A UTC instant whose second has been counted comes back from TAI as it went.
pub proof fn lemma_utc_round_trip(supplementary: Seq<LeapEvent>, utc: int)
    requires
        all_retained(supplementary),
        utc_second_is_counted(supplementary, whole_seconds_of(utc)),
    ensures
        utc_instant(supplementary, tai_instant(supplementary, utc)) == utc,
{
    lemma_static_table();
    let second = whole_seconds_of(utc);
    let offset = resolved_offset(supplementary, TimeScale::Utc, second);
    let tai = tai_instant(supplementary, utc);
    lemma_whole_seconds_bounds(utc, 0);
    lemma_static_offset_bounds(TimeScale::Utc, second);
    if utc >= 0 {
        assert(tai >= 0) by {
            if second >= EXPIRES_AT_UTC {
                assert(second + offset >= EXPIRES_AT_TAI);
                assert(utc >= second * NANOS_PER_SECOND) by (nonlinear_arith)
                    requires
                        utc >= 0,
                        second == utc / (NANOS_PER_SECOND as int),
                ;
                assert((second + offset) * NANOS_PER_SECOND >= 0) by (nonlinear_arith)
                    requires
                        second + offset >= 0,
                ;
                assert((second + offset) * NANOS_PER_SECOND == second * NANOS_PER_SECOND + offset
                    * NANOS_PER_SECOND) by (nonlinear_arith);
            } else {
                assert(offset * NANOS_PER_SECOND >= 0) by (nonlinear_arith)
                    requires
                        offset >= 0,
                ;
            }
        }
        lemma_whole_seconds_moved(utc, offset);
        lemma_utc_second_round_trip(supplementary, second);
    } else {
        lemma_offset_before_first_event(supplementary, second);
        lemma_whole_seconds_bounds(tai, 11);
        lemma_last_event_index_is(LEAP_SECONDS@, TimeScale::Tai, whole_seconds_of(tai), -1);
    }
}

/// A TAI instant whose second UTC has counted comes back from UTC as it went.
pub proof fn lemma_tai_round_trip(supplementary: Seq<LeapEvent>, tai: int)
    requires
        all_retained(supplementary),
        tai_second_is_counted(supplementary, whole_seconds_of(tai)),
    ensures
        tai_instant(supplementary, utc_instant(supplementary, tai)) == tai,
{
    lemma_static_table();
    let second = whole_seconds_of(tai);
    let offset = resolved_offset(supplementary, TimeScale::Tai, second);
    let utc = utc_instant(supplementary, tai);
    lemma_whole_seconds_bounds(tai, 0);
    lemma_whole_seconds_bounds(utc, 0);
    lemma_static_offset_bounds(TimeScale::Tai, second);
    if tai >= 0 && utc >= 0 {
        lemma_whole_seconds_moved(tai, -offset);
        assert(tai + (-offset) * NANOS_PER_SECOND == utc) by (nonlinear_arith)
            requires
                utc == tai - offset * NANOS_PER_SECOND,
        ;
        lemma_tai_second_round_trip(supplementary, second);
    } else {
        // The instant lies before the first event on either scale.
        lemma_last_event_index(LEAP_SECONDS@, TimeScale::Tai, second);
        lemma_last_event_index(supplementary, TimeScale::Tai, second);
        if tai >= 0 {
            assert(offset >= 0 ==> second < offset) by {
                if offset >= 0 {
                    lemma_whole_seconds_bounds(tai, offset);
                }
            }
            assert(offset * NANOS_PER_SECOND > 0 ==> offset > 0) by (nonlinear_arith);
        }
        assert(offset == FIRST_LEAP_SECONDS_DIFF);
        lemma_offset_before_first_event(supplementary, whole_seconds_of(utc));
    }
}

/// The time between two instants, measured on the TAI scale, is the difference of their
/// Unix times and the seconds by which the difference between TAI and UTC has grown from
/// the first to the second.
pub proof fn lemma_elapsed(supplementary: Seq<LeapEvent>, from: int, to: int)
    ensures
        tai_instant(supplementary, to) - tai_instant(supplementary, from) == (to - from) + (
        resolved_offset(supplementary, TimeScale::Utc, whole_seconds_of(to)) - resolved_offset(
            supplementary,
            TimeScale::Utc,
            whole_seconds_of(from),
        )) * NANOS_PER_SECOND,
{
    let g = NANOS_PER_SECOND as int;
    let a = resolved_offset(supplementary, TimeScale::Utc, whole_seconds_of(from));
    let b = resolved_offset(supplementary, TimeScale::Utc, whole_seconds_of(to));
    assert((b - a) * g == b * g - a * g) by (nonlinear_arith);
}

/// In the compiled-in table, the difference between TAI and UTC grows from one second to
/// a later one by the number of leap seconds inserted in between: the events after the
/// first second, up to the second one, are `count` in number, and stand in the table
/// from `first` on.
pub proof fn lemma_leap_seconds_between(from: int, to: int) -> (range: (int, int))
    requires
        from <= to,
    ensures
        0 <= range.0 <= range.1 <= LEAP_SECONDS@.len(),
        forall|i: int|
            0 <= i < LEAP_SECONDS@.len() ==> ((from < (#[trigger] LEAP_SECONDS@[i]).0 <= to) <==> (
            range.0 <= i < range.1)),
        static_offset(TimeScale::Utc, to) - static_offset(TimeScale::Utc, from) == range.1
            - range.0,
{
    lemma_static_table();
    lemma_last_event_index(LEAP_SECONDS@, TimeScale::Utc, from);
    lemma_last_event_index(LEAP_SECONDS@, TimeScale::Utc, to);
    let first = last_event_index(LEAP_SECONDS@, TimeScale::Utc, from) + 1;
    let end = last_event_index(LEAP_SECONDS@, TimeScale::Utc, to) + 1;
    assert(first <= end) by {
        if first > end {
            assert(LEAP_SECONDS@[first - 1].0 <= from);
            assert(LEAP_SECONDS@[first - 1].0 > to);
        }
    }
    assert forall|i: int| 0 <= i < LEAP_SECONDS@.len() implies ((from < (
    #[trigger] LEAP_SECONDS@[i]).0 <= to) <==> (first <= i < end)) by {
        if i < first && first > 0 {
            assert(LEAP_SECONDS@[i].0 <= LEAP_SECONDS@[first - 1].0);
        }
        if i < end && end > 0 {
            assert(LEAP_SECONDS@[i].0 <= LEAP_SECONDS@[end - 1].0);
        }
    }
    (first, end)
}

} // verus!
