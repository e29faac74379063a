use vstd::arithmetic::div_mod::{lemma_fundamental_div_mod, lemma_mod_bound};
use vstd::prelude::*;

verus! {

/// Nearest integer to `n / d` (for `d > 0`), halves rounded away from zero.
pub open spec fn round_div(n: int, d: int) -> int {
    if n >= 0 {
        (2 * n + d) / (2 * d)
    } else {
        -((-2 * n + d) / (2 * d))
    }
}

/// The tick count that `value` ticks at `rate` become at `new_rate`.
pub open spec fn rescale_value(value: int, rate: int, new_rate: int) -> int {
    round_div(value * new_rate, rate)
}

/// The instant `av / ar` seconds lies strictly before `bv / br` seconds
/// (both rates positive).
pub open spec fn earlier(av: int, ar: int, bv: int, br: int) -> bool {
    av * br < bv * ar
}

/// The rounded quotient lies within half a unit of the exact one.
pub proof fn lemma_round_div_bounds(n: int, d: int)
    requires
        d > 0,
    ensures
        -d <= 2 * (round_div(n, d) * d - n) <= d,
{
    let m = if n >= 0 { 2 * n + d } else { -2 * n + d };
    lemma_fundamental_div_mod(m, 2 * d);
    lemma_mod_bound(m, 2 * d);
    let q = m / (2 * d);
    assert(m == 2 * d * q + m % (2 * d));
    if n >= 0 {
        assert(round_div(n, d) == q);
        assert(-d <= 2 * (q * d - n) <= d) by (nonlinear_arith)
            requires
                m == 2 * d * q + m % (2 * d),
                0 <= m % (2 * d) < 2 * d,
                m == 2 * n + d,
        ;
    } else {
        assert(round_div(n, d) == -q);
        assert(-d <= 2 * ((-q) * d - n) <= d) by (nonlinear_arith)
            requires
                m == 2 * d * q + m % (2 * d),
                0 <= m % (2 * d) < 2 * d,
                m == -2 * n + d,
        ;
    }
}

/// An integer strictly within half a unit of `n / d` (for `d > 0`) is its rounding.
proof fn lemma_round_div_unique(n: int, d: int, k: int)
    requires
        d > 0,
        -d < 2 * (k * d - n) < d,
    ensures
        round_div(n, d) == k,
{
    lemma_round_div_bounds(n, d);
    let q = round_div(n, d);
    assert(q == k) by (nonlinear_arith)
        requires
            d > 0,
            -d < 2 * (k * d - n) < d,
            -d <= 2 * (q * d - n) <= d,
    ;
}

/// Rescaling to a rate and back again moves a tick count by at most one tick
/// when the intermediate rate is at least the original one, and not at all
/// when it is a whole multiple of it.
pub proof fn lemma_rescale_round_trip(value: int, rate: int, new_rate: int)
    requires
        rate > 0,
        new_rate > 0,
    ensures
        rate <= new_rate ==> {
            let back = rescale_value(rescale_value(value, rate, new_rate), new_rate, rate);
            value - 1 <= back <= value + 1
        },
        new_rate % rate == 0 ==> rescale_value(rescale_value(value, rate, new_rate), new_rate, rate)
            == value,
{
    let w = rescale_value(value, rate, new_rate);
    let u = rescale_value(w, new_rate, rate);
    lemma_round_div_bounds(value * new_rate, rate);
    lemma_round_div_bounds(w * rate, new_rate);
    if rate <= new_rate {
        assert(value - 1 <= u <= value + 1) by (nonlinear_arith)
            requires
                0 < rate <= new_rate,
                -rate <= 2 * (w * rate - value * new_rate) <= rate,
                -new_rate <= 2 * (u * new_rate - w * rate) <= new_rate,
        ;
    }
    if new_rate % rate == 0 {
        lemma_fundamental_div_mod(new_rate, rate);
        let k = new_rate / rate;
        assert(new_rate == rate * k);
        assert(k > 0) by (nonlinear_arith)
            requires
                new_rate == rate * k,
                rate > 0,
                new_rate > 0,
        ;
        assert(-rate < 2 * ((value * k) * rate - value * new_rate) < rate) by (nonlinear_arith)
            requires
                new_rate == rate * k,
                rate > 0,
        ;
        lemma_round_div_unique(value * new_rate, rate, value * k);
        assert(w == value * k);
        assert(-new_rate < 2 * (value * new_rate - w * rate) < new_rate) by (nonlinear_arith)
            requires
                new_rate == rate * k,
                w == value * k,
                new_rate > 0,
        ;
        lemma_round_div_unique(w * rate, new_rate, value);
    }
}

/// A representable tick count.
pub open spec fn fits_i64(x: int) -> bool {
    i64::MIN <= x <= i64::MAX
}

/// `round_div` on wide integers.
pub(crate) fn round_div_wide(n: i128, d: i128) -> (r: i128)
    requires
        0 < d < 0x8000_0000_0000_0000,
        -0x3FFF_FFFF_FFFF_FFFF_0000_0000_0000_0000 <= n <= 0x3FFF_FFFF_FFFF_FFFF_0000_0000_0000_0000,
    ensures
        r == round_div(n as int, d as int),
        -0x3FFF_FFFF_FFFF_FFFF_0000_0000_0000_0001 <= r <= 0x3FFF_FFFF_FFFF_FFFF_0000_0000_0000_0001,
{
    let q: i128 = if n >= 0 {
        (2 * n + d) / (2 * d)
    } else {
        let m: i128 = -n;
        -((2 * m + d) / (2 * d))
    };
    proof {
        lemma_round_div_bounds(n as int, d as int);
        assert(-0x3FFF_FFFF_FFFF_FFFF_0000_0000_0000_0001 <= q <= 0x3FFF_FFFF_FFFF_FFFF_0000_0000_0000_0001)
            by (nonlinear_arith)
            requires
                -d <= 2 * (q * d - n) <= d,
                d >= 1,
                -0x3FFF_FFFF_FFFF_FFFF_0000_0000_0000_0000 <= n <= 0x3FFF_FFFF_FFFF_FFFF_0000_0000_0000_0000,
        ;
    }
    q
}

/// The exact rescaling of `value` from `rate` to `new_rate`, in a wide integer.
pub(crate) fn rescale_wide(value: i64, rate: u32, new_rate: u32) -> (r: i128)
    requires
        rate > 0,
    ensures
        r == rescale_value(value as int, rate as int, new_rate as int),
        -0x8000_0000_0000_0000_0000_0001 <= r <= 0x8000_0000_0000_0000_0000_0001,
{
    let v = value as i128;
    let nr = new_rate as i128;
    assert(-0x8000_0000_0000_0000_0000_0000 <= v * nr <= 0x8000_0000_0000_0000_0000_0000)
        by (nonlinear_arith)
        requires
            -0x8000_0000_0000_0000 <= v < 0x8000_0000_0000_0000,
            0 <= nr < 0x1_0000_0000,
    ;
    let r = round_div_wide(v * nr, rate as i128);
    proof {
        lemma_round_div_bounds(v * nr, rate as int);
        assert(-0x8000_0000_0000_0000_0000_0001 <= r <= 0x8000_0000_0000_0000_0000_0001)
            by (nonlinear_arith)
            requires
                -(rate as int) <= 2 * (r * rate - v * nr) <= rate,
                rate >= 1,
                -0x8000_0000_0000_0000_0000_0000 <= v * nr <= 0x8000_0000_0000_0000_0000_0000,
        ;
    }
    r
}

/// The latest of the present times, scanning in order; a later time equal in
/// seconds to the latest so far replaces it. `None` when no time is present.
pub open spec fn latest_max(ts: Seq<Option<RationalTime>>) -> Option<RationalTime>
    decreases ts.len(),
{
    if ts.len() == 0 {
        None
    } else {
        let prev = latest_max(ts.drop_last());
        match ts.last() {
            None => prev,
            Some(t) => match prev {
                None => Some(t),
                Some(m) => if t.is_before(m) {
                    Some(m)
                } else {
                    Some(t)
                },
            },
        }
    }
}

/// "Not later than" is transitive on times with positive rates.
proof fn lemma_not_later_transitive(a: RationalTime, b: RationalTime, c: RationalTime)
    requires
        a.valid(),
        b.valid(),
        c.valid(),
        !b.is_before(a),
        !c.is_before(b),
    ensures
        !c.is_before(a),
{
    let (av, ar, bv, br, cv, cr) = (
        a.value as int,
        a.rate as int,
        b.value as int,
        b.rate as int,
        c.value as int,
        c.rate as int,
    );
    assert(av * cr <= cv * ar) by (nonlinear_arith)
        requires
            ar > 0,
            br > 0,
            cr > 0,
            av * br <= bv * ar,
            bv * cr <= cv * br,
    ;
}

/// `latest_max` is a greatest present time, and is absent only when no time is.
pub proof fn lemma_latest_max_bounds(ts: Seq<Option<RationalTime>>)
    requires
        forall|i: int| 0 <= i < ts.len() && ts[i] is Some ==> (#[trigger] ts[i]).unwrap().valid(),
    ensures
        latest_max(ts) is None <==> forall|i: int| 0 <= i < ts.len() ==> (#[trigger] ts[i]) is None,
        latest_max(ts) matches Some(m) ==> {
            &&& exists|i: int| 0 <= i < ts.len() && ts[i] == Some(m)
            &&& forall|i: int|
                0 <= i < ts.len() && ts[i] is Some ==> !m.is_before((#[trigger] ts[i]).unwrap())
        },
    decreases ts.len(),
{
    if ts.len() > 0 {
        let prev = ts.drop_last();
        let n = ts.len() - 1;
        assert(forall|i: int| 0 <= i < prev.len() ==> prev[i] == ts[i]);
        lemma_latest_max_bounds(prev);
        match latest_max(prev) {
            None => {},
            Some(m) => {
                let wm = choose|i: int| 0 <= i < prev.len() && prev[i] == Some(m);
                assert(ts[wm] == Some(m));
                match ts.last() {
                    None => {},
                    Some(t) => {
                        if !t.is_before(m) {
                            assert forall|i: int|
                                0 <= i < ts.len() && ts[i] is Some implies !t.is_before(
                                (#[trigger] ts[i]).unwrap(),
                            ) by {
                                if i < n {
                                    lemma_not_later_transitive(ts[i].unwrap(), m, t);
                                }
                            }
                        }
                    },
                }
            },
        }
    }
}

/// An instant or a length of time: `value` ticks at `rate` ticks per second.
#[derive(Debug, Clone, Copy, PartialEq, Eq, Hash, Structural)]
pub struct RationalTime {
    pub value: i64,
    pub rate: u32,
}

impl RationalTime {
    /// A positive rate: the time then stands for `value / rate` seconds.
    pub open spec fn valid(&self) -> bool {
        self.rate > 0
    }

    /// The tick count of this time at `new_rate`.
    pub open spec fn rescaled_value(&self, new_rate: int) -> int {
        rescale_value(self.value as int, self.rate as int, new_rate)
    }

    /// The tick count of `self.add(other)`, at `other`'s rate.
    pub open spec fn sum_value(&self, other: RationalTime) -> int {
        if self.rate == other.rate {
            self.value + other.value
        } else {
            self.rescaled_value(other.rate as int) + other.value
        }
    }

    /// The tick count of `self.subtract(other)`, at `other`'s rate.
    pub open spec fn difference_value(&self, other: RationalTime) -> int {
        if self.rate == other.rate {
            self.value - other.value
        } else {
            self.rescaled_value(other.rate as int) - other.value
        }
    }

    /// This time lies strictly before `other`, in seconds.
    pub open spec fn is_before(&self, other: RationalTime) -> bool {
        earlier(self.value as int, self.rate as int, other.value as int, other.rate as int)
    }

    pub fn new(value: i64, rate: u32) -> (r: RationalTime)
        ensures
            r.value == value,
            r.rate == rate,
    {
        RationalTime { value, rate }
    }

    /// The tick count.
    pub fn to_frames(&self) -> (r: i64)
        ensures
            r == self.value,
    {
        self.value
    }

    /// This time at `new_rate`, rounded to the nearest tick, halves away from zero.
    pub fn rescaled(&self, new_rate: u32) -> (r: RationalTime)
        requires
            self.valid(),
            fits_i64(self.rescaled_value(new_rate as int)),
        ensures
            r.value == self.rescaled_value(new_rate as int),
            r.rate == new_rate,
    {
        let v = rescale_wide(self.value, self.rate, new_rate);
        RationalTime { value: v as i64, rate: new_rate }
    }

    /// The sum; where the rates differ, `self` is first rescaled to `other`'s rate.
    pub fn add(&self, other: &RationalTime) -> (r: RationalTime)
        requires
            self.valid(),
            other.valid(),
            fits_i64(self.sum_value(*other)),
        ensures
            r.value == self.sum_value(*other),
            r.rate == other.rate,
    {
        if self.rate == other.rate {
            RationalTime { value: self.value + other.value, rate: self.rate }
        } else {
            let v = rescale_wide(self.value, self.rate, other.rate);
            RationalTime { value: (v + other.value as i128) as i64, rate: other.rate }
        }
    }

    /// The difference; where the rates differ, `self` is first rescaled to
    /// `other`'s rate.
    pub fn subtract(&self, other: &RationalTime) -> (r: RationalTime)
        requires
            self.valid(),
            other.valid(),
            fits_i64(self.difference_value(*other)),
        ensures
            r.value == self.difference_value(*other),
            r.rate == other.rate,
    {
        if self.rate == other.rate {
            RationalTime { value: self.value - other.value, rate: self.rate }
        } else {
            let v = rescale_wide(self.value, self.rate, other.rate);
            RationalTime { value: (v - other.value as i128) as i64, rate: other.rate }
        }
    }
}

impl Default for RationalTime {
    fn default() -> (r: RationalTime)
        ensures
            r.value == 0,
            r.rate == 24,
    {
        RationalTime { value: 0, rate: 24 }
    }
}

} // verus!
