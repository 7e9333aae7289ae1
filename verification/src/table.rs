//! The compiled-in table of leap-second events, and the lookup that both conversion
//! directions share.
//!
//! An event is a pair `(instant, offset)`: from `instant` on, in UTC seconds since
//! 1970-01-01, TAI is ahead of UTC by `offset` seconds. The same event read on the TAI
//! scale begins at `instant + offset`.

use vstd::prelude::*;

verus! {

/// One change of the difference between TAI and UTC: the UTC second at which it takes
/// effect, and the difference in seconds that holds from then on.
pub type LeapEvent = (i64, i64);

/// Seconds between 1900-01-01, from which the published list counts, and 1970-01-01.
pub const LEAP_BASE_OFFSET: i64 = 25567 * 24 * 60 * 60;

/// The difference between TAI and UTC that holds before the first tabulated event.
///
/// The ten seconds that had accumulated by 1972 mark the beginning of the distinction
/// between the two scales, so they apply to every earlier instant as well and never show
/// up in a duration.
pub const FIRST_LEAP_SECONDS_DIFF: i64 = 10;

/// The published leap seconds, oldest first.
pub const LEAP_SECONDS: [(i64, i64); 27] = [
    (2287785600 - LEAP_BASE_OFFSET, 11),  // 1 Jul 1972
    (2303683200 - LEAP_BASE_OFFSET, 12),  // 1 Jan 1973
    (2335219200 - LEAP_BASE_OFFSET, 13),  // 1 Jan 1974
    (2366755200 - LEAP_BASE_OFFSET, 14),  // 1 Jan 1975
    (2398291200 - LEAP_BASE_OFFSET, 15),  // 1 Jan 1976
    (2429913600 - LEAP_BASE_OFFSET, 16),  // 1 Jan 1977
    (2461449600 - LEAP_BASE_OFFSET, 17),  // 1 Jan 1978
    (2492985600 - LEAP_BASE_OFFSET, 18),  // 1 Jan 1979
    (2524521600 - LEAP_BASE_OFFSET, 19),  // 1 Jan 1980
    (2571782400 - LEAP_BASE_OFFSET, 20),  // 1 Jul 1981
    (2603318400 - LEAP_BASE_OFFSET, 21),  // 1 Jul 1982
    (2634854400 - LEAP_BASE_OFFSET, 22),  // 1 Jul 1983
    (2698012800 - LEAP_BASE_OFFSET, 23),  // 1 Jul 1985
    (2776982400 - LEAP_BASE_OFFSET, 24),  // 1 Jan 1988
    (2840140800 - LEAP_BASE_OFFSET, 25),  // 1 Jan 1990
    (2871676800 - LEAP_BASE_OFFSET, 26),  // 1 Jan 1991
    (2918937600 - LEAP_BASE_OFFSET, 27),  // 1 Jul 1992
    (2950473600 - LEAP_BASE_OFFSET, 28),  // 1 Jul 1993
    (2982009600 - LEAP_BASE_OFFSET, 29),  // 1 Jul 1994
    (3029443200 - LEAP_BASE_OFFSET, 30),  // 1 Jan 1996
    (3076704000 - LEAP_BASE_OFFSET, 31),  // 1 Jul 1997
    (3124137600 - LEAP_BASE_OFFSET, 32),  // 1 Jan 1999
    (3345062400 - LEAP_BASE_OFFSET, 33),  // 1 Jan 2006
    (3439756800 - LEAP_BASE_OFFSET, 34),  // 1 Jan 2009
    (3550089600 - LEAP_BASE_OFFSET, 35),  // 1 Jul 2012
    (3644697600 - LEAP_BASE_OFFSET, 36),  // 1 Jul 2015
    (3692217600 - LEAP_BASE_OFFSET, 37),  // 1 Jan 2017
];

/// The difference between TAI and UTC that the compiled-in table ends with.
pub const LAST_LEAP_SECONDS_DIFF: i64 = 37;

/// The UTC second from which on the compiled-in table may lack an announced event.
pub const EXPIRES_AT_UTC: i64 = 3896899200 - LEAP_BASE_OFFSET;

/// The same moment as [`EXPIRES_AT_UTC`], read on the TAI scale.
pub const EXPIRES_AT_TAI: i64 = EXPIRES_AT_UTC + LAST_LEAP_SECONDS_DIFF;

/// The scale on which an instant is given.
#[derive(Clone, Copy, Debug, PartialEq, Eq, Structural)]
pub enum TimeScale {
    Utc,
    Tai,
}

/// The second at which `event` takes effect, read on `scale`.
pub open spec fn event_key(event: LeapEvent, scale: TimeScale) -> int {
    match scale {
        TimeScale::Utc => event.0 as int,
        TimeScale::Tai => event.0 + event.1,
    }
}

/// The instant from which on the compiled-in table is no longer trusted, read on `scale`.
pub open spec fn expires_at(scale: TimeScale) -> int {
    match scale {
        TimeScale::Utc => EXPIRES_AT_UTC as int,
        TimeScale::Tai => EXPIRES_AT_TAI as int,
    }
}

/// The position of the last event of `events` that has taken effect by `instant`, read
/// on `scale`, or -1 where none has. The events are taken in the order given, whether or
/// not they are sorted.
pub open spec fn last_event_index(events: Seq<LeapEvent>, scale: TimeScale, instant: int) -> int
    decreases events.len(),
{
    if events.len() == 0 {
        -1
    } else if event_key(events.last(), scale) <= instant {
        events.len() - 1
    } else {
        last_event_index(events.drop_last(), scale, instant)
    }
}

/// The last event of `events` that has taken effect by `instant`, if there is one.
pub open spec fn last_event(events: Seq<LeapEvent>, scale: TimeScale, instant: int) -> Option<
    LeapEvent,
> {
    let i = last_event_index(events, scale, instant);
    if i >= 0 {
        Some(events[i])
    } else {
        None
    }
}

/// What [`last_event_index`] picks: an event in effect at `instant` after which no event
/// of the sequence is in effect.
pub proof fn lemma_last_event_index(events: Seq<LeapEvent>, scale: TimeScale, instant: int)
    ensures
        -1 <= last_event_index(events, scale, instant) < events.len(),
        last_event_index(events, scale, instant) >= 0 ==> event_key(
            events[last_event_index(events, scale, instant)],
            scale,
        ) <= instant,
        forall|j: int|
            last_event_index(events, scale, instant) < j < events.len() ==> event_key(
                #[trigger] events[j],
                scale,
            ) > instant,
    decreases events.len(),
{
    if events.len() > 0 && event_key(events.last(), scale) > instant {
        let front = events.drop_last();
        lemma_last_event_index(front, scale, instant);
        assert forall|j: int|
            last_event_index(events, scale, instant) < j < events.len() implies event_key(
            #[trigger] events[j],
            scale,
        ) > instant by {
            if j < front.len() {
                assert(events[j] == front[j]);
            }
        }
    }
}

/// The position that [`last_event_index`] picks is the only one of its kind.
pub proof fn lemma_last_event_index_is(
    events: Seq<LeapEvent>,
    scale: TimeScale,
    instant: int,
    i: int,
)
    requires
        -1 <= i < events.len(),
        i >= 0 ==> event_key(events[i], scale) <= instant,
        forall|j: int| i < j < events.len() ==> event_key(#[trigger] events[j], scale) > instant,
    ensures
        last_event_index(events, scale, instant) == i,
{
    lemma_last_event_index(events, scale, instant);
}

/// Whether `event` has taken effect by `instant`, read on `scale`.
fn in_effect(event: LeapEvent, scale: TimeScale, instant: i64) -> (r: bool)
    ensures
        r == (event_key(event, scale) <= instant),
{
    match scale {
        TimeScale::Utc => event.0 <= instant,
        TimeScale::Tai => event.0 as i128 + event.1 as i128 <= instant as i128,
    }
}

/// Searches `events` from the most recent to the oldest for the first event that has
/// taken effect by `instant`.
pub fn find_event(events: &[LeapEvent], scale: TimeScale, instant: i64) -> (found: Option<
    LeapEvent,
>)
    ensures
        found == last_event(events@, scale, instant as int),
{
    let mut i: usize = events.len();
    while i > 0
        invariant
            i <= events.len(),
            forall|j: int|
                i <= j < events.len() ==> event_key(#[trigger] events@[j], scale) > instant,
        decreases i,
    {
        i = i - 1;
        let event = events[i];
        if in_effect(event, scale, instant) {
            proof {
                lemma_last_event_index_is(events@, scale, instant as int, i as int);
            }
            return Some(event);
        }
    }
    proof {
        lemma_last_event_index_is(events@, scale, instant as int, -1);
    }
    None
}

/// The difference between TAI and UTC that the compiled-in table alone gives for
/// `instant`, read on `scale`.
pub open spec fn static_offset(scale: TimeScale, instant: int) -> int {
    match last_event(LEAP_SECONDS@, scale, instant) {
        Some(event) => event.1 as int,
        None => FIRST_LEAP_SECONDS_DIFF as int,
    }
}

/// Looks `instant` up in the compiled-in table.
pub fn find_static_offset(scale: TimeScale, instant: i64) -> (offset: i64)
    ensures
        offset == static_offset(scale, instant as int),
{
    match find_event(LEAP_SECONDS.as_slice(), scale, instant) {
        Some(event) => event.1,
        None => FIRST_LEAP_SECONDS_DIFF,
    }
}

/// The shape of the compiled-in table: each event adds one second to the difference,
/// which starts at 11 and ends at 37; the events are in strictly ascending order; and all
/// of them lie before the expiration instant on either scale.
pub proof fn lemma_static_table()
    ensures
        forall|i: int| 0 <= i < 27 ==> (#[trigger] LEAP_SECONDS@[i]).1 == 11 + i,
        forall|i: int, j: int|
            0 <= i < j < 27 ==> (#[trigger] LEAP_SECONDS@[i]).0 < (#[trigger] LEAP_SECONDS@[j]).0,
        forall|i: int|
            0 <= i < 27 ==> 78796800 <= (#[trigger] LEAP_SECONDS@[i]).0 <= 1483228800,
        LEAP_SECONDS@[0].0 == 78796800,
        LEAP_SECONDS@[26] == (1483228800i64, LAST_LEAP_SECONDS_DIFF),
        EXPIRES_AT_UTC == 1687910400,
        EXPIRES_AT_TAI == EXPIRES_AT_UTC + LEAP_SECONDS@[26].1,
{
}

} // verus!
