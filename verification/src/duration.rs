//! A signed span of time with nanosecond precision.

use vstd::prelude::*;

verus! {

/// The number of nanoseconds in a second.
pub const NANOS_PER_SECOND: i64 = 1_000_000_000;

/// Whether whole seconds and nanoseconds make up a span in the one way in which a
/// [`Duration`] holds it: less than a second of nanoseconds, of the sign of the seconds.
pub open spec fn normalized(seconds: int, nanoseconds: int) -> bool {
    &&& -NANOS_PER_SECOND < nanoseconds < NANOS_PER_SECOND
    &&& seconds > 0 ==> nanoseconds >= 0
    &&& seconds < 0 ==> nanoseconds <= 0
}

/// Whether a [`Duration`] can hold a span of `total` nanoseconds.
pub open spec fn fits(total: int) -> bool {
    i64::MIN * NANOS_PER_SECOND - (NANOS_PER_SECOND - 1) <= total <= i64::MAX * NANOS_PER_SECOND
        + (NANOS_PER_SECOND - 1)
}

/// The whole seconds of a number of nanoseconds, rounded towards zero.
pub open spec fn whole_seconds_of(total: int) -> int {
    if total >= 0 {
        total / (NANOS_PER_SECOND as int)
    } else {
        -((-total) / (NANOS_PER_SECOND as int))
    }
}

/// A span of time: a whole number of seconds and a fraction of a second in nanoseconds,
/// both of the same sign.
#[derive(Clone, Copy, Debug, PartialEq, Eq, Structural)]
pub struct Duration {
    seconds: i64,
    nanoseconds: i32,
}

impl Duration {
    pub closed spec fn spec_whole_seconds(self) -> i64 {
        self.seconds
    }

    pub closed spec fn spec_subsec_nanoseconds(self) -> i32 {
        self.nanoseconds
    }

    /// Every `Duration` is normalized.
    #[verifier::type_invariant]
    pub open spec fn is_normalized(self) -> bool {
        normalized(self.whole_seconds() as int, self.subsec_nanoseconds() as int)
    }

    /// The span in nanoseconds.
    pub open spec fn total_nanoseconds(self) -> int {
        self.whole_seconds() * NANOS_PER_SECOND + self.subsec_nanoseconds()
    }

    /// The span of `total` nanoseconds.
    pub closed spec fn of_nanoseconds(total: int) -> Duration {
        Duration {
            seconds: whole_seconds_of(total) as i64,
            nanoseconds: (total - whole_seconds_of(total) * NANOS_PER_SECOND) as i32,
        }
    }

    /// Whether [`Duration::new`] can make a span of these parts: the seconds, with the
    /// whole seconds that the nanoseconds hold, are a number of 64 bits.
    pub open spec fn new_fits(seconds: i64, nanoseconds: i32) -> bool {
        i64::MIN <= seconds + whole_seconds_of(nanoseconds as int) <= i64::MAX
    }

    /// Whether the sum of two spans can be computed: the sum of their whole seconds is a
    /// number of 64 bits, and a `Duration` can hold the sum.
    pub open spec fn add_fits(self, rhs: Duration) -> bool {
        &&& i64::MIN <= self.whole_seconds() + rhs.whole_seconds() <= i64::MAX
        &&& fits(self.total_nanoseconds() + rhs.total_nanoseconds())
    }

    /// Whether the difference of two spans can be computed: the difference of their whole
    /// seconds is a number of 64 bits, and a `Duration` can hold the difference.
    pub open spec fn sub_fits(self, rhs: Duration) -> bool {
        &&& i64::MIN <= self.whole_seconds() - rhs.whole_seconds() <= i64::MAX
        &&& fits(self.total_nanoseconds() - rhs.total_nanoseconds())
    }

    /// The whole seconds of the span.
    #[verifier::when_used_as_spec(spec_whole_seconds)]
    pub fn whole_seconds(self) -> (seconds: i64)
        ensures
            seconds == self.whole_seconds(),
    {
        self.seconds
    }

    /// The nanoseconds of the span beyond its whole seconds.
    #[verifier::when_used_as_spec(spec_subsec_nanoseconds)]
    pub fn subsec_nanoseconds(self) -> (nanoseconds: i32)
        ensures
            nanoseconds == self.subsec_nanoseconds(),
    {
        self.nanoseconds
    }

    /// The span of `seconds` and `nanoseconds` together. Nanoseconds of a second or more
    /// go to the seconds.
    pub fn new(seconds: i64, nanoseconds: i32) -> (span: Duration)
        requires
            Duration::new_fits(seconds, nanoseconds),
        ensures
            span.is_normalized(),
            span.total_nanoseconds() == seconds * NANOS_PER_SECOND + nanoseconds,
    {
        duration_new(seconds, nanoseconds)
    }

    /// The span of `seconds` whole seconds.
    pub fn seconds(seconds: i64) -> (span: Duration)
        ensures
            span.is_normalized(),
            span.whole_seconds() == seconds,
            span.subsec_nanoseconds() == 0,
    {
        duration_new(seconds, 0)
    }

    /// The sum of two spans, or `None` where it cannot be computed.
    pub fn checked_add(self, rhs: Duration) -> (sum: Option<Duration>)
        ensures
            sum is Some == self.add_fits(rhs),
            sum matches Some(d) ==> d.is_normalized() && d.total_nanoseconds()
                == self.total_nanoseconds() + rhs.total_nanoseconds(),
    {
        proof {
            use_type_invariant(self);
            use_type_invariant(rhs);
        }
        duration_checked_add(self, rhs)
    }

    /// The difference of two spans, or `None` where it cannot be computed.
    pub fn checked_sub(self, rhs: Duration) -> (difference: Option<Duration>)
        ensures
            difference is Some == self.sub_fits(rhs),
            difference matches Some(d) ==> d.is_normalized() && d.total_nanoseconds()
                == self.total_nanoseconds() - rhs.total_nanoseconds(),
    {
        proof {
            use_type_invariant(self);
            use_type_invariant(rhs);
        }
        duration_checked_sub(self, rhs)
    }
}

/// A normalized span is known by its total: no two of them have the same.
pub proof fn lemma_total_decides(a: Duration, b: Duration)
    requires
        a.is_normalized(),
        b.is_normalized(),
        a.total_nanoseconds() == b.total_nanoseconds(),
    ensures
        a == b,
{
}

/// [`Duration::of_nanoseconds`] gives the normalized span of the total asked for.
pub proof fn lemma_of_nanoseconds(total: int)
    requires
        fits(total),
    ensures
        Duration::of_nanoseconds(total).is_normalized(),
        Duration::of_nanoseconds(total).total_nanoseconds() == total,
{
    let g = NANOS_PER_SECOND as int;
    let w = whole_seconds_of(total);
    if total >= 0 {
        assert(0 <= total - (total / g) * g < g && total / g <= i64::MAX) by (nonlinear_arith)
            requires
                0 <= total <= i64::MAX * g + (g - 1),
                g == 1_000_000_000,
        ;
    } else {
        let m = -total;
        assert(0 <= m - (m / g) * g < g && m / g <= -i64::MIN) by (nonlinear_arith)
            requires
                0 < m <= -i64::MIN * g + (g - 1),
                g == 1_000_000_000,
        ;
    }
}

/// The whole seconds of a normalized span are those of its total, rounded towards zero.
pub proof fn lemma_whole_seconds(a: Duration)
    requires
        a.is_normalized(),
    ensures
        a.whole_seconds() == whole_seconds_of(a.total_nanoseconds()),
{
    let s = a.whole_seconds() as int;
    let n = a.subsec_nanoseconds() as int;
    let g = NANOS_PER_SECOND as int;
    if s * g + n >= 0 {
        assert((s * g + n) / g == s) by (nonlinear_arith)
            requires
                0 <= n < g,
                g > 0,
        ;
    } else {
        assert((-s * g - n) / g == -s) by (nonlinear_arith)
            requires
                0 <= -n < g,
                g > 0,
        ;
        assert(-(s * g + n) == -s * g - n);
    }
}

/// The whole seconds of `seconds` and `nanoseconds` together lie within two seconds of
/// `seconds`.
pub proof fn lemma_whole_seconds_near(total: int, seconds: int, nanoseconds: int)
    requires
        total == seconds * NANOS_PER_SECOND + nanoseconds,
        i32::MIN <= nanoseconds <= i32::MAX,
    ensures
        seconds - 3 <= whole_seconds_of(total) <= seconds + 3,
{
    let g = NANOS_PER_SECOND as int;
    if total >= 0 {
        assert(seconds - 3 <= total / g <= seconds + 3) by (nonlinear_arith)
            requires
                total == seconds * g + nanoseconds,
                -3 * g < nanoseconds < 3 * g,
                g > 0,
                total >= 0,
        ;
    } else {
        let m = -total;
        assert(-seconds - 3 <= m / g <= -seconds + 3) by (nonlinear_arith)
            requires
                m == -seconds * g - nanoseconds,
                -3 * g < nanoseconds < 3 * g,
                g > 0,
                m >= 0,
        ;
    }
}

/// Makes a span with `time::Duration::new` and takes its parts with `whole_seconds` and
/// `subsec_nanoseconds`.
///
/// Not proved: that the span is normalized and holds as many nanoseconds as the two
/// arguments together. The outside function adds the whole seconds of the nanoseconds,
/// rounded towards zero, to the seconds, and does not return where that sum is no number
/// of 64 bits.
#[verifier::external_body]
fn duration_new(seconds: i64, nanoseconds: i32) -> (span: Duration)
    requires
        Duration::new_fits(seconds, nanoseconds),
    ensures
        span.is_normalized(),
        span.total_nanoseconds() == seconds * NANOS_PER_SECOND + nanoseconds,
{
    let span = time::Duration::new(seconds, nanoseconds);
    Duration { seconds: span.whole_seconds(), nanoseconds: span.subsec_nanoseconds() }
}

/// Adds two spans with `time::Duration::checked_add`.
///
/// Not proved: that the outside function gives up exactly where the sum of the whole
/// seconds is no number of 64 bits or the sum of the spans is beyond what a span holds, and
/// that it returns the normalized sum otherwise.
#[verifier::external_body]
fn duration_checked_add(a: Duration, b: Duration) -> (sum: Option<Duration>)
    requires
        a.is_normalized(),
        b.is_normalized(),
    ensures
        sum is Some == a.add_fits(b),
        sum matches Some(d) ==> d.is_normalized() && d.total_nanoseconds() == a.total_nanoseconds()
            + b.total_nanoseconds(),
{
    let a = time::Duration::new(a.seconds, a.nanoseconds);
    let b = time::Duration::new(b.seconds, b.nanoseconds);
    match a.checked_add(b) {
        Some(d) => Some(Duration { seconds: d.whole_seconds(), nanoseconds: d.subsec_nanoseconds() }),
        None => None,
    }
}

/// Subtracts a span from another with `time::Duration::checked_sub`.
///
/// Not proved: that the outside function gives up exactly where the difference of the
/// whole seconds is no number of 64 bits or the difference of the spans is beyond what a
/// span holds, and that it returns the normalized difference otherwise.
#[verifier::external_body]
fn duration_checked_sub(a: Duration, b: Duration) -> (difference: Option<Duration>)
    requires
        a.is_normalized(),
        b.is_normalized(),
    ensures
        difference is Some == a.sub_fits(b),
        difference matches Some(d) ==> d.is_normalized() && d.total_nanoseconds()
            == a.total_nanoseconds() - b.total_nanoseconds(),
{
    let a = time::Duration::new(a.seconds, a.nanoseconds);
    let b = time::Duration::new(b.seconds, b.nanoseconds);
    match a.checked_sub(b) {
        Some(d) => Some(Duration { seconds: d.whole_seconds(), nanoseconds: d.subsec_nanoseconds() }),
        None => None,
    }
}

} // verus!
