//! Non-negative rationals, as far as the sizers need them: a scale factor is
//! a fraction of two integers, compared by cross-multiplication, and applied
//! to an extent with a single rounding step.
use vstd::prelude::*;

verus! {

/// The rational `num / den`. A scale factor has `num >= 0` and `den > 0`.
pub struct Ratio {
    pub num: int,
    pub den: int,
}

impl Ratio {
    /// A usable scale factor: non-negative, with a positive denominator.
    pub open spec fn valid(self) -> bool {
        self.num >= 0 && self.den > 0
    }

    /// The factor 1, which leaves an extent as it is.
    pub open spec fn one() -> Ratio {
        Ratio { num: 1, den: 1 }
    }

    /// The factor that takes `original` to `target`.
    pub open spec fn of(target: u32, original: u32) -> Ratio {
        Ratio { num: target as int, den: original as int }
    }

    /// `self <= other` as rationals.
    pub open spec fn le(self, other: Ratio) -> bool {
        self.num * other.den <= other.num * self.den
    }

    /// The smaller of two factors; `self` where they are equal.
    pub open spec fn min(self, other: Ratio) -> Ratio {
        if self.le(other) {
            self
        } else {
            other
        }
    }

    /// The larger of two factors; `self` where they are equal.
    pub open spec fn max(self, other: Ratio) -> Ratio {
        if other.le(self) {
            self
        } else {
            other
        }
    }

    /// `floor(x * self)`.
    pub open spec fn floor_times(self, x: int) -> int {
        (x * self.num) / self.den
    }

    /// `round(x * self)`, halves rounded up.
    pub open spec fn round_times(self, x: int) -> int {
        (2 * x * self.num + self.den) / (2 * self.den)
    }
}

/// A scale factor as the sizers hold it: the fraction of two extents.
#[derive(Clone, Copy, Debug)]
pub(crate) struct Scale {
    pub num: u32,
    pub den: u32,
}

impl View for Scale {
    type V = Ratio;

    closed spec fn view(&self) -> Ratio {
        Ratio { num: self.num as int, den: self.den as int }
    }
}

impl Scale {
    /// The factor 1.
    pub(crate) fn one() -> (s: Scale)
        ensures
            s@ == Ratio::one(),
    {
        Scale { num: 1, den: 1 }
    }

    /// The factor that takes `original` to `target`.
    pub(crate) fn of(target: u32, original: u32) -> (s: Scale)
        ensures
            s@ == Ratio::of(target, original),
    {
        Scale { num: target, den: original }
    }

    /// `self <= other` as rationals.
    pub(crate) fn le(self, other: Scale) -> (b: bool)
        ensures
            b == self@.le(other@),
    {
        assert(self.num * other.den <= u64::MAX && other.num * self.den <= u64::MAX)
            by (nonlinear_arith);
        (self.num as u64) * (other.den as u64) <= (other.num as u64) * (self.den as u64)
    }

    /// The smaller of two factors; `self` where they are equal.
    pub(crate) fn min(self, other: Scale) -> (s: Scale)
        ensures
            s@ == self@.min(other@),
    {
        if self.le(other) {
            self
        } else {
            other
        }
    }

    /// The larger of two factors; `self` where they are equal.
    pub(crate) fn max(self, other: Scale) -> (s: Scale)
        ensures
            s@ == self@.max(other@),
    {
        if other.le(self) {
            self
        } else {
            other
        }
    }

    /// `floor(x * self)`.
    pub(crate) fn floor_times(self, x: u32) -> (r: u64)
        requires
            self@.den > 0,
        ensures
            r == self@.floor_times(x as int),
    {
        assert(x * self.num <= u64::MAX) by (nonlinear_arith);
        (x as u64) * (self.num as u64) / (self.den as u64)
    }

    /// `round(x * self)`, halves rounded up.
    pub(crate) fn round_times(self, x: u32) -> (r: u64)
        requires
            self@.den > 0,
        ensures
            r == self@.round_times(x as int),
    {
        assert(x * self.num <= 0xFFFF_FFFE_0000_0001 && 2 * x * self.num == 2 * (x * self.num))
            by (nonlinear_arith);
        let twice: u128 = 2 * ((x as u128) * (self.num as u128)) + (self.den as u128);
        let rounded: u128 = twice / (2 * (self.den as u128));
        assert(rounded <= u64::MAX) by (nonlinear_arith)
            requires
                rounded == (twice as int) / (2 * self.den),
                twice <= 0x1_FFFF_FFFD_0000_0001,
                self.den > 0,
        ;
        rounded as u64
    }
}

/// Comparing with 1 compares numerator and denominator.
pub proof fn lemma_compare_with_one(r: Ratio)
    ensures
        r.le(Ratio::one()) <==> r.num <= r.den,
        Ratio::one().le(r) <==> r.den <= r.num,
{
    let (n, d) = (r.num, r.den);
    assert(n * 1 == n && 1 * d == d && 1 * n == n && d * 1 == d) by (nonlinear_arith);
    assert(Ratio::one().num == 1 && Ratio::one().den == 1);
}

/// `<=` on valid ratios is transitive.
pub proof fn lemma_le_transitive(a: Ratio, b: Ratio, c: Ratio)
    requires
        a.valid(),
        b.valid(),
        c.valid(),
        a.le(b),
        b.le(c),
    ensures
        a.le(c),
{
    let (an, ad, bn, bd, cn, cd) = (a.num, a.den, b.num, b.den, c.num, c.den);
    assert(an * cd <= cn * ad) by (nonlinear_arith)
        requires
            an >= 0,
            ad > 0,
            bn >= 0,
            bd > 0,
            cn >= 0,
            cd > 0,
            an * bd <= bn * ad,
            bn * cd <= cn * bd,
    {
        assert((an * bd) * cd <= (bn * ad) * cd);
        assert((bn * cd) * ad <= (cn * bd) * ad);
        assert((an * cd) * bd <= (cn * ad) * bd);
    }
}

/// Flooring never exceeds a bound that the exact product meets:
/// if `self <= bound / x` then `floor(x * self) <= bound`.
pub proof fn lemma_floor_times_upper(r: Ratio, x: int, bound: int)
    requires
        r.valid(),
        x >= 0,
        x * r.num <= bound * r.den,
    ensures
        0 <= r.floor_times(x) <= bound,
{
    let (n, d) = (r.num, r.den);
    assert(0 <= (x * n) / d <= bound) by (nonlinear_arith)
        requires
            n >= 0,
            d > 0,
            x >= 0,
            x * n <= bound * d,
    ;
}

/// A factor that takes `x` to the integer `t` exactly gives `t` under both
/// roundings.
pub proof fn lemma_times_exact(r: Ratio, x: int, t: int)
    requires
        r.valid(),
        x * r.num == t * r.den,
    ensures
        r.floor_times(x) == t,
        r.round_times(x) == t,
{
    let (n, d) = (r.num, r.den);
    assert((x * n) / d == t && (2 * x * n + d) / (2 * d) == t) by (nonlinear_arith)
        requires
            d > 0,
            x * n == t * d,
    {
        assert((t * d) / d == t);
        assert(2 * x * n + d == (2 * t) * d + d);
        assert((t * (2 * d) + d) / (2 * d) == t);
    }
}

/// Rounding stays between a lower bound that the exact product meets and an
/// upper bound that it meets: if `lower / x <= self <= upper / x` then
/// `lower <= round(x * self) <= upper`.
pub proof fn lemma_round_times_between(r: Ratio, x: int, lower: int, upper: int)
    requires
        r.valid(),
        lower * r.den <= x * r.num <= upper * r.den,
    ensures
        lower <= r.round_times(x) <= upper,
{
    let (n, d) = (r.num, r.den);
    assert(lower <= (2 * x * n + d) / (2 * d) <= upper) by (nonlinear_arith)
        requires
            d > 0,
            lower * d <= x * n <= upper * d,
    {
        assert(lower * (2 * d) <= 2 * x * n + d);
        assert(2 * x * n + d < (upper + 1) * (2 * d));
    }
}

} // verus!
