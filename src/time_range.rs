use vstd::prelude::*;
use crate::rational_time::{earlier, lemma_round_div_bounds, rescale_wide, round_div, RationalTime};

verus! {

/// A span of time: where it starts and how long it lasts.
#[derive(Debug, Clone, Copy, PartialEq, Eq, Hash, Structural)]
pub struct TimeRange {
    pub start: RationalTime,
    pub duration: RationalTime,
}

impl TimeRange {
    /// The range `Default` gives: starting at zero, lasting zero, at 24 ticks per second.
    pub open spec fn zero() -> TimeRange {
        TimeRange {
            start: RationalTime { value: 0, rate: 24 },
            duration: RationalTime { value: 0, rate: 24 },
        }
    }

    /// The tick count of the end, at the duration's rate.
    pub open spec fn end_value(&self) -> int {
        self.start.sum_value(self.duration)
    }

    /// The end of the range as a time.
    pub open spec fn end_spec(&self) -> RationalTime {
        RationalTime { value: self.end_value() as i64, rate: self.duration.rate }
    }

    /// Both rates are positive and the end is representable.
    pub open spec fn valid(&self) -> bool {
        &&& self.start.valid()
        &&& self.duration.valid()
        &&& i64::MIN <= self.end_value() <= i64::MAX
    }

    /// `value / rate` seconds lies in the half-open range `[start, end)`.
    pub open spec fn contains_at(&self, value: int, rate: int) -> bool {
        &&& !earlier(value, rate, self.start.value as int, self.start.rate as int)
        &&& earlier(value, rate, self.end_value(), self.duration.rate as int)
    }

    /// Each range starts strictly before the other one ends.
    pub open spec fn overlaps_spec(&self, other: TimeRange) -> bool {
        &&& earlier(
            self.start.value as int,
            self.start.rate as int,
            other.end_value(),
            other.duration.rate as int,
        )
        &&& earlier(
            other.start.value as int,
            other.start.rate as int,
            self.end_value(),
            self.duration.rate as int,
        )
    }

    pub fn new(start: RationalTime, duration: RationalTime) -> (r: TimeRange)
        ensures
            r.start == start,
            r.duration == duration,
    {
        TimeRange { start, duration }
    }

    /// Whether both rates are positive and the end is representable.
    pub fn is_valid(&self) -> (r: bool)
        ensures
            r == self.valid(),
    {
        if self.start.rate == 0 || self.duration.rate == 0 {
            return false;
        }
        let end: i128 = if self.start.rate == self.duration.rate {
            self.start.value as i128 + self.duration.value as i128
        } else {
            rescale_wide(self.start.value, self.start.rate, self.duration.rate)
                + self.duration.value as i128
        };
        i64::MIN as i128 <= end && end <= i64::MAX as i128
    }

    /// `start + duration`, at the duration's rate.
    pub fn end(&self) -> (r: RationalTime)
        requires
            self.valid(),
        ensures
            r == self.end_spec(),
            r.value == self.end_value(),
    {
        self.start.add(&self.duration)
    }

    /// Whether `time` lies in `[start, end)`, compared exactly in seconds.
    pub fn contains(&self, time: &RationalTime) -> (r: bool)
        requires
            self.valid(),
            time.valid(),
        ensures
            r == self.contains_at(time.value as int, time.rate as int),
    {
        let end = self.end();
        !is_earlier(time, &self.start) && is_earlier(time, &end)
    }

    /// Whether the two ranges share an instant: each starts before the other ends.
    pub fn overlaps(&self, other: &TimeRange) -> (r: bool)
        requires
            self.valid(),
            other.valid(),
        ensures
            r == self.overlaps_spec(*other),
    {
        let self_end = self.end();
        let other_end = other.end();
        is_earlier(&self.start, &other_end) && is_earlier(&other.start, &self_end)
    }
}

impl Default for TimeRange {
    fn default() -> (r: TimeRange)
        ensures
            r == TimeRange::zero(),
    {
        TimeRange { start: RationalTime::default(), duration: RationalTime::new(0, 24) }
    }
}

/// Exact comparison of two times in seconds, by cross-multiplying.
pub(crate) fn is_earlier(a: &RationalTime, b: &RationalTime) -> (r: bool)
    ensures
        r == a.is_before(*b),
{
    proof {
        let (av, ar, bv, br) = (a.value as int, a.rate as int, b.value as int, b.rate as int);
        assert(-0x8000_0000_0000_0000_0000_0000 < av * br < 0x8000_0000_0000_0000_0000_0000)
            by (nonlinear_arith)
            requires
                -0x8000_0000_0000_0000 <= av < 0x8000_0000_0000_0000,
                0 <= br < 0x1_0000_0000,
        ;
        assert(-0x8000_0000_0000_0000_0000_0000 < bv * ar < 0x8000_0000_0000_0000_0000_0000)
            by (nonlinear_arith)
            requires
                -0x8000_0000_0000_0000 <= bv < 0x8000_0000_0000_0000,
                0 <= ar < 0x1_0000_0000,
        ;
    }
    let lhs = a.value as i128 * b.rate as i128;
    let rhs = b.value as i128 * a.rate as i128;
    lhs < rhs
}

/// Overlap does not depend on the order of the two ranges.
pub proof fn lemma_overlaps_symmetric(a: TimeRange, b: TimeRange)
    ensures
        a.overlaps_spec(b) == b.overlaps_spec(a),
{
}

/// Ranges that only touch, the first ending where the second starts, do not overlap.
pub proof fn lemma_adjacent_do_not_overlap(a: TimeRange, b: TimeRange)
    requires
        a.end_value() * b.start.rate == b.start.value * a.duration.rate,
    ensures
        !a.overlaps_spec(b),
        !b.overlaps_spec(a),
{
}

/// A range of positive length holds its start and never its end.
pub proof fn lemma_contains_bounds(r: TimeRange)
    requires
        r.start.valid(),
        r.duration.valid(),
    ensures
        r.duration.value > 0 ==> r.contains_at(r.start.value as int, r.start.rate as int),
        !r.contains_at(r.end_value(), r.duration.rate as int),
{
    let sv = r.start.value as int;
    let sr = r.start.rate as int;
    let dv = r.duration.value as int;
    let dr = r.duration.rate as int;
    let e = r.end_value();
    if dv > 0 {
        if sr == dr {
            assert(sv * dr < (sv + dv) * sr) by (nonlinear_arith)
                requires
                    sr == dr,
                    dr > 0,
                    dv > 0,
            ;
        } else {
            let w = round_div(sv * dr, sr);
            lemma_round_div_bounds(sv * dr, sr);
            assert(e == w + dv);
            assert(sv * dr < (w + dv) * sr) by (nonlinear_arith)
                requires
                    -sr <= 2 * (w * sr - sv * dr),
                    sr > 0,
                    dv > 0,
            ;
        }
    }
}

} // verus!
