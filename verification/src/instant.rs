//! Instants on the two time scales.

use crate::duration::{lemma_of_nanoseconds, lemma_total_decides, Duration};
use core::ops::{Add, Sub};
use vstd::prelude::*;
use vstd::std_specs::ops::{AddSpecImpl, SubSpecImpl};

verus! {

/// An instant of International Atomic Time, as the time that has passed on that scale
/// since 1970-01-01 00:00:00.
#[derive(Clone, Copy, Debug, PartialEq, Eq, Structural)]
pub struct TaiDateTime(Duration);

/// An instant of Coordinated Universal Time, as its Unix time: the seconds that UTC has
/// counted since 1970-01-01 00:00:00, which leaves out the leap seconds.
#[derive(Clone, Copy, Debug, PartialEq, Eq, Structural)]
pub struct UtcDateTime(Duration);

impl TaiDateTime {
    pub closed spec fn spec_since_epoch(self) -> Duration {
        self.0
    }

    /// The instant that lies `since_epoch` after the epoch.
    pub fn new(since_epoch: Duration) -> (instant: TaiDateTime)
        ensures
            instant.since_epoch() == since_epoch,
    {
        TaiDateTime(since_epoch)
    }

    /// The time from the epoch to the instant.
    #[verifier::when_used_as_spec(spec_since_epoch)]
    pub fn since_epoch(self) -> (span: Duration)
        ensures
            span == self.since_epoch(),
            span.is_normalized(),
    {
        proof {
            use_type_invariant(self.0);
        }
        self.0
    }
}

impl UtcDateTime {
    pub closed spec fn spec_since_epoch(self) -> Duration {
        self.0
    }

    /// The instant whose Unix time is `since_epoch`.
    pub fn new(since_epoch: Duration) -> (instant: UtcDateTime)
        ensures
            instant.since_epoch() == since_epoch,
    {
        UtcDateTime(since_epoch)
    }

    /// The Unix time of the instant.
    #[verifier::when_used_as_spec(spec_since_epoch)]
    pub fn since_epoch(self) -> (span: Duration)
        ensures
            span == self.since_epoch(),
            span.is_normalized(),
    {
        proof {
            use_type_invariant(self.0);
        }
        self.0
    }
}

impl SubSpecImpl for TaiDateTime {
    open spec fn obeys_sub_spec() -> bool {
        true
    }

    open spec fn sub_req(self, rhs: TaiDateTime) -> bool {
        self.since_epoch().sub_fits(rhs.since_epoch())
    }

    open spec fn sub_spec(self, rhs: TaiDateTime) -> Duration {
        Duration::of_nanoseconds(
            self.since_epoch().total_nanoseconds() - rhs.since_epoch().total_nanoseconds(),
        )
    }
}

/// The time that has passed from `rhs` to `self`, every leap second counted.
impl Sub for TaiDateTime {
    type Output = Duration;

    fn sub(self, rhs: TaiDateTime) -> (elapsed: Duration) {
        let elapsed = self.0.checked_sub(rhs.0).unwrap();
        proof {
            let total = self.since_epoch().total_nanoseconds()
                - rhs.since_epoch().total_nanoseconds();
            lemma_of_nanoseconds(total);
            lemma_total_decides(elapsed, Duration::of_nanoseconds(total));
        }
        elapsed
    }
}

impl AddSpecImpl<Duration> for TaiDateTime {
    open spec fn obeys_add_spec() -> bool {
        true
    }

    open spec fn add_req(self, rhs: Duration) -> bool {
        self.since_epoch().add_fits(rhs)
    }

    open spec fn add_spec(self, rhs: Duration) -> TaiDateTime {
        TaiDateTime::at(self.since_epoch().total_nanoseconds() + rhs.total_nanoseconds())
    }
}

/// The instant that lies `rhs` after `self`.
impl Add<Duration> for TaiDateTime {
    type Output = TaiDateTime;

    fn add(self, rhs: Duration) -> (later: TaiDateTime) {
        let since_epoch = self.0.checked_add(rhs).unwrap();
        proof {
            let total = self.since_epoch().total_nanoseconds() + rhs.total_nanoseconds();
            lemma_of_nanoseconds(total);
            lemma_total_decides(since_epoch, Duration::of_nanoseconds(total));
        }
        TaiDateTime(since_epoch)
    }
}

impl TaiDateTime {
    /// The instant that lies `total` nanoseconds after the epoch.
    pub closed spec fn at(total: int) -> TaiDateTime {
        TaiDateTime(Duration::of_nanoseconds(total))
    }

    /// What [`TaiDateTime::at`] is.
    pub proof fn lemma_at(total: int)
        ensures
            TaiDateTime::at(total).since_epoch() == Duration::of_nanoseconds(total),
    {
    }
}

} // verus!
