//! The current instant, from the clocks of the system.

use crate::calendar::TIMESTAMP_LIMIT;
use crate::duration::{whole_seconds_of, Duration, NANOS_PER_SECOND};
use crate::instant::{TaiDateTime, UtcDateTime};
use crate::leap_seconds::{LeapSeconds, Step};
use crate::table::TimeScale;
use vstd::prelude::*;

verus! {

/// Reads the TAI clock of the system with `nix::time::clock_gettime` on
/// `ClockId::CLOCK_TAI`: the seconds and the nanoseconds of the reading, or `None` where
/// the system refuses. Nothing is claimed of the reading.
#[verifier::external_body]
fn read_tai_clock() -> (reading: Option<(i64, i32)>) {
    match nix::time::clock_gettime(nix::time::ClockId::CLOCK_TAI) {
        Ok(time) => Some((time.tv_sec() as i64, time.tv_nsec() as i32)),
        Err(_) => None,
    }
}

/// Reads the UTC clock with `time::OffsetDateTime::now_utc` and measures the reading
/// from `OffsetDateTime::UNIX_EPOCH`: the whole seconds and the nanoseconds of that span.
///
/// Not proved: that the seconds stay below 2^48 in magnitude, the span between two
/// dates being a difference of day numbers of 32 bits times 86400 and less than a day more.
#[verifier::external_body]
fn read_utc_clock() -> (reading: (i64, i32))
    ensures
        -TIMESTAMP_LIMIT <= reading.0 <= TIMESTAMP_LIMIT,
{
    let elapsed = time::OffsetDateTime::now_utc() - time::OffsetDateTime::UNIX_EPOCH;
    (elapsed.whole_seconds(), elapsed.subsec_nanoseconds())
}

impl TaiDateTime {
    /// The instant that a TAI clock gives as `seconds` and `nanoseconds` since the epoch;
    /// `None` where the two together are beyond what a span of time holds.
    pub fn from_clock(seconds: i64, nanoseconds: i32) -> (instant: Option<TaiDateTime>)
        ensures
            instant is Some == Duration::new_fits(seconds, nanoseconds),
            instant matches Some(tai) ==> tai.since_epoch().is_normalized()
                && tai.since_epoch().total_nanoseconds() == seconds * NANOS_PER_SECOND
                + nanoseconds,
    {
        let carry: i64 = (nanoseconds / 1_000_000_000) as i64;
        assert(carry == whole_seconds_of(nanoseconds as int));
        match seconds.checked_add(carry) {
            Some(_) => Some(TaiDateTime::new(Duration::new(seconds, nanoseconds))),
            None => None,
        }
    }

    /// Whether `step` is what the reading `utc` of the UTC clock comes to on the TAI scale.
    pub open spec fn converted_clock(
        utc: (i64, i32),
        known: &LeapSeconds,
        step: Step<TaiDateTime>,
    ) -> bool {
        let total = utc.0 * NANOS_PER_SECOND + utc.1;
        match known.offset_step(TimeScale::Utc, whole_seconds_of(total)) {
            Step::Done(offset) => step matches Step::Done(instant)
                && instant.since_epoch().is_normalized()
                && instant.since_epoch().total_nanoseconds() == total + offset
                * NANOS_PER_SECOND,
            Step::ReadLiveSource => step is ReadLiveSource,
        }
    }

    /// Converts a reading of the UTC clock to TAI.
    pub fn from_utc_clock(utc: (i64, i32), known: &LeapSeconds) -> (step: Step<TaiDateTime>)
        requires
            -TIMESTAMP_LIMIT <= utc.0 <= TIMESTAMP_LIMIT,
        ensures
            Self::converted_clock(utc, known, step),
    {
        let carry: i64 = (utc.1 / 1_000_000_000) as i64;
        assert(carry == whole_seconds_of(utc.1 as int));
        let unix_time = Duration::new(utc.0, utc.1);
        proof {
            use_type_invariant(known);
            crate::duration::lemma_whole_seconds(unix_time);
            crate::duration::lemma_whole_seconds_near(unix_time.total_nanoseconds(), utc.0 as int, utc.1 as int);
            crate::leap_seconds::lemma_offset_step_bounds(
                *known,
                TimeScale::Utc,
                unix_time.whole_seconds() as int,
            );
        }
        known.to_tai(UtcDateTime::new(unix_time))
    }

    /// The current instant: from the TAI clock of the system where it has one whose
    /// reading a span of time can hold, and else from its UTC clock, converted with what is
    /// `known` of leap seconds. [`TaiDateTime::from_clock`] and
    /// [`TaiDateTime::from_utc_clock`] say what becomes of either reading.
    ///
    /// Comes to [`Step::ReadLiveSource`] only where the UTC clock had to serve and the
    /// live source has not been asked yet.
    pub fn now(known: &LeapSeconds) -> (step: Step<TaiDateTime>)
        ensures
            step is ReadLiveSource ==> known.supplementary() is None,
            step matches Step::Done(instant) ==> instant.since_epoch().is_normalized(),
    {
        match read_tai_clock() {
            Some((seconds, nanoseconds)) => {
                match TaiDateTime::from_clock(seconds, nanoseconds) {
                    Some(instant) => Step::Done(instant),
                    None => TaiDateTime::from_utc_clock(read_utc_clock(), known),
                }
            },
            None => TaiDateTime::from_utc_clock(read_utc_clock(), known),
        }
    }
}

} // verus!
