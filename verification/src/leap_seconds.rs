//! What a process knows of leap seconds, and the difference between TAI and UTC that
//! follows from it for any instant.
//!
//! The compiled-in table is complete up to its expiration instant. For a later instant
//! the operating system is asked, once, for the events that it knows; the answer, or the
//! lack of one, is kept for the rest of the process. Reading the live source is not done
//! here: a lookup that needs the answer says so, and goes on once it has been supplied.

use crate::duration::{Duration, NANOS_PER_SECOND};
use crate::instant::{TaiDateTime, UtcDateTime};
use crate::supplementary::{all_retained, SupplementaryTable, OFFSET_LIMIT};
use crate::table::{
    expires_at, find_event, find_static_offset, last_event, lemma_static_table, static_offset,
    LeapEvent, TimeScale, EXPIRES_AT_TAI, EXPIRES_AT_UTC, LEAP_SECONDS,
};
use vstd::prelude::*;

verus! {

/// How far a lookup or a conversion has come.
#[derive(Debug, PartialEq, Eq)]
pub enum Step<T> {
    /// It is done, with this result.
    Done(T),
    /// The live source has to be read first, and its answer supplied.
    ReadLiveSource,
}

/// The difference between TAI and UTC at `instant`, read on `scale`, as the compiled-in
/// table and the events of `supplementary` give it.
///
/// From the expiration instant on the supplementary events come first: the last of them
/// that has taken effect decides. Where none has, and before the expiration instant, the
/// compiled-in table decides.
pub open spec fn resolved_offset(
    supplementary: Seq<LeapEvent>,
    scale: TimeScale,
    instant: int,
) -> int {
    if instant >= expires_at(scale) {
        match last_event(supplementary, scale, instant) {
            Some(event) => event.1 as int,
            None => static_offset(scale, instant),
        }
    } else {
        static_offset(scale, instant)
    }
}

/// The leap seconds that a process knows: the compiled-in table and, once the live
/// source has been asked, what it supplied.
pub struct LeapSeconds {
    supplementary: Option<SupplementaryTable>,
}

impl LeapSeconds {
    /// The supplementary events; `None` as long as the live source has not been asked.
    pub closed spec fn supplementary(self) -> Option<Seq<LeapEvent>> {
        match self.supplementary {
            Some(table) => Some(table@),
            None => None,
        }
    }

    /// The supplementary events, once supplied, are such as a supplementary table holds.
    #[verifier::type_invariant]
    pub open spec fn holds_retained_only(self) -> bool {
        self.supplementary() matches Some(events) ==> all_retained(events)
    }

    /// What a lookup of `instant` comes to: before the expiration instant the compiled-in
    /// table answers; from then on the supplementary events are needed.
    pub open spec fn offset_step(self, scale: TimeScale, instant: int) -> Step<int> {
        if instant < expires_at(scale) {
            Step::Done(static_offset(scale, instant))
        } else {
            match self.supplementary() {
                Some(events) => Step::Done(resolved_offset(events, scale, instant)),
                None => Step::ReadLiveSource,
            }
        }
    }

    /// The knowledge of a process that has not asked the live source yet.
    pub fn new() -> (known: Self)
        ensures
            known.supplementary() is None,
    {
        LeapSeconds { supplementary: None }
    }

    /// Whether the live source has been asked.
    pub fn is_supplied(&self) -> (supplied: bool)
        ensures
            supplied == self.supplementary() is Some,
    {
        self.supplementary.is_some()
    }

    /// Takes the answer of the live source: its events, or `None` where it could not be
    /// read, which counts as no events. Only the first answer is kept.
    pub fn supply(&mut self, answer: Option<SupplementaryTable>)
        ensures
            final(self).supplementary() == Some(
                match old(self).supplementary() {
                    Some(events) => events,
                    None => match answer {
                        Some(table) => table@,
                        None => Seq::empty(),
                    },
                },
            ),
    {
        if self.supplementary.is_none() {
            let table = match answer {
                Some(table) => table,
                None => SupplementaryTable::new(),
            };
            let _ = table.as_slice();
            self.supplementary = Some(table);
        }
    }

    /// Looks up the difference between TAI and UTC at `instant`, read on `scale`.
    pub fn offset(&self, scale: TimeScale, instant: i64) -> (step: Step<i64>)
        ensures
            match step {
                Step::Done(offset) => self.offset_step(scale, instant as int) == Step::Done(
                    offset as int,
                ) && -OFFSET_LIMIT <= offset <= OFFSET_LIMIT,
                Step::ReadLiveSource => self.offset_step(scale, instant as int)
                    == Step::<int>::ReadLiveSource,
            },
    {
        let expires = match scale {
            TimeScale::Utc => EXPIRES_AT_UTC,
            TimeScale::Tai => EXPIRES_AT_TAI,
        };
        proof {
            lemma_static_offset_bounds(scale, instant as int);
        }
        if instant >= expires {
            match &self.supplementary {
                Some(table) => {
                    let events = table.as_slice();
                    match find_event(events, scale, instant) {
                        Some(event) => {
                            proof {
                                crate::table::lemma_last_event_index(
                                    events@,
                                    scale,
                                    instant as int,
                                );
                            }
                            Step::Done(event.1)
                        },
                        None => Step::Done(find_static_offset(scale, instant)),
                    }
                },
                None => Step::ReadLiveSource,
            }
        } else {
            Step::Done(find_static_offset(scale, instant))
        }
    }
}

impl LeapSeconds {
    /// What the conversion of `utc` to TAI comes to, the result in nanoseconds since the
    /// epoch: the instant moved on by the difference that holds at its whole second.
    pub open spec fn to_tai_step(self, utc: UtcDateTime) -> Step<int> {
        match self.offset_step(TimeScale::Utc, utc.since_epoch().whole_seconds() as int) {
            Step::Done(offset) => Step::Done(
                utc.since_epoch().total_nanoseconds() + offset * NANOS_PER_SECOND,
            ),
            Step::ReadLiveSource => Step::ReadLiveSource,
        }
    }

    /// What the conversion of `tai` to UTC comes to, the result in nanoseconds of Unix
    /// time: the instant moved back by the difference that holds at its whole second.
    pub open spec fn to_utc_step(self, tai: TaiDateTime) -> Step<int> {
        match self.offset_step(TimeScale::Tai, tai.since_epoch().whole_seconds() as int) {
            Step::Done(offset) => Step::Done(
                tai.since_epoch().total_nanoseconds() - offset * NANOS_PER_SECOND,
            ),
            Step::ReadLiveSource => Step::ReadLiveSource,
        }
    }

    /// Whether the whole seconds of `utc` with the difference added are a number of 64
    /// bits.
    pub open spec fn to_tai_fits(self, utc: UtcDateTime) -> bool {
        self.offset_step(
            TimeScale::Utc,
            utc.since_epoch().whole_seconds() as int,
        ) matches Step::Done(offset) ==> i64::MIN <= utc.since_epoch().whole_seconds() + offset
            <= i64::MAX
    }

    /// Whether the whole seconds of `tai` with the difference taken off are a number of
    /// 64 bits.
    pub open spec fn to_utc_fits(self, tai: TaiDateTime) -> bool {
        self.offset_step(
            TimeScale::Tai,
            tai.since_epoch().whole_seconds() as int,
        ) matches Step::Done(offset) ==> i64::MIN <= tai.since_epoch().whole_seconds() - offset
            <= i64::MAX
    }

    /// Converts a UTC instant to TAI. The fraction of the second passes through.
    pub fn to_tai(&self, utc: UtcDateTime) -> (step: Step<TaiDateTime>)
        requires
            self.to_tai_fits(utc),
        ensures
            match step {
                Step::Done(tai) => tai.since_epoch().is_normalized() && self.to_tai_step(utc)
                    == Step::Done(tai.since_epoch().total_nanoseconds()),
                Step::ReadLiveSource => self.to_tai_step(utc) == Step::<int>::ReadLiveSource,
            },
    {
        let unix_time = utc.since_epoch();
        match self.offset(TimeScale::Utc, unix_time.whole_seconds()) {
            Step::Done(offset) => {
                let since_epoch = unix_time.checked_add(Duration::seconds(offset)).unwrap();
                Step::Done(TaiDateTime::new(since_epoch))
            },
            Step::ReadLiveSource => Step::ReadLiveSource,
        }
    }

    /// Converts a TAI instant to UTC. The fraction of the second passes through.
    pub fn to_utc(&self, tai: TaiDateTime) -> (step: Step<UtcDateTime>)
        requires
            self.to_utc_fits(tai),
        ensures
            match step {
                Step::Done(utc) => utc.since_epoch().is_normalized() && self.to_utc_step(tai)
                    == Step::Done(utc.since_epoch().total_nanoseconds()),
                Step::ReadLiveSource => self.to_utc_step(tai) == Step::<int>::ReadLiveSource,
            },
    {
        let since_epoch = tai.since_epoch();
        match self.offset(TimeScale::Tai, since_epoch.whole_seconds()) {
            Step::Done(offset) => {
                let unix_time = since_epoch.checked_sub(Duration::seconds(offset)).unwrap();
                Step::Done(UtcDateTime::new(unix_time))
            },
            Step::ReadLiveSource => Step::ReadLiveSource,
        }
    }
}

/// Whatever is known, a difference that a lookup finds is at most [`OFFSET_LIMIT`].
pub proof fn lemma_offset_step_bounds(known: LeapSeconds, scale: TimeScale, instant: int)
    requires
        known.holds_retained_only(),
    ensures
        known.offset_step(scale, instant) matches Step::Done(offset) ==> -OFFSET_LIMIT <= offset
            <= OFFSET_LIMIT,
{
    lemma_static_offset_bounds(scale, instant);
    if let Some(events) = known.supplementary() {
        crate::table::lemma_last_event_index(events, scale, instant);
    }
}

/// The compiled-in table gives a difference between 10 and 37 seconds.
pub proof fn lemma_static_offset_bounds(scale: TimeScale, instant: int)
    ensures
        10 <= static_offset(scale, instant) <= 37,
{
    lemma_static_table();
    crate::table::lemma_last_event_index(LEAP_SECONDS@, scale, instant);
}

} // verus!
