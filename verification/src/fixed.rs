//! Fixed-point scalars: the number type of every coordinate in the engine.

use vstd::prelude::*;

verus! {

/// Raw units per whole cell: a [`Fixed`] with raw value `r` stands for `r / SCALE`.
pub const SCALE: i64 = 2_500_000_000_000;

/// `n` brought into the range of `i64`.
pub open spec fn clamp(n: int) -> int {
    if n < i64::MIN {
        i64::MIN as int
    } else if n > i64::MAX {
        i64::MAX as int
    } else {
        n
    }
}

/// The integer nearest to `n / d`, ties going away from zero.
pub open spec fn round_div(n: int, d: int) -> int
    recommends
        d > 0,
{
    if n >= 0 {
        (2 * n + d) / (2 * d)
    } else {
        -((2 * (-n) + d) / (2 * d))
    }
}

/// A fixed-point number: `raw / SCALE` cells.
///
/// Arithmetic saturates at the ends of the `i64` range instead of wrapping,
/// and every product is rounded once, to the nearest raw unit.
#[derive(Clone, Copy, Debug, PartialEq, Eq, Structural)]
pub struct Fixed {
    pub raw: i64,
}

/// `round_div(n, d)` is within half a divisor of the exact quotient.
pub proof fn lemma_round_div_bounds(n: int, d: int)
    requires
        d > 0,
    ensures
        2 * n - d <= 2 * d * round_div(n, d) <= 2 * n + d,
{
    let m = if n >= 0 { n } else { -n };
    let q = (2 * m + d) / (2 * d);
    assert(2 * m + d == (2 * d) * q + (2 * m + d) % (2 * d)) by {
        vstd::arithmetic::div_mod::lemma_fundamental_div_mod(2 * m + d, 2 * d);
    }
    assert(0 <= (2 * m + d) % (2 * d) < 2 * d) by {
        vstd::arithmetic::div_mod::lemma_mod_pos_bound(2 * m + d, 2 * d);
    }
    assert(2 * d * (-q) == -(2 * d * q)) by (nonlinear_arith);
}

/// Rounded division never reverses an order.
pub proof fn lemma_round_div_monotone(n1: int, n2: int, d: int)
    requires
        d > 0,
        n1 <= n2,
    ensures
        round_div(n1, d) <= round_div(n2, d),
{
    if n1 < n2 {
        lemma_round_div_bounds(n1, d);
        lemma_round_div_bounds(n2, d);
        let r1 = round_div(n1, d);
        let r2 = round_div(n2, d);
        assert(r1 <= r2) by (nonlinear_arith)
            requires
                d > 0,
                2 * d * r1 <= 2 * n1 + d,
                2 * n2 - d <= 2 * d * r2,
                n1 < n2,
        ;
    }
}

/// A multiple of the divisor is divided exactly.
pub proof fn lemma_round_div_exact(q: int, d: int)
    requires
        d > 0,
    ensures
        round_div(q * d, d) == q,
{
    lemma_round_div_bounds(q * d, d);
    let r = round_div(q * d, d);
    assert(r == q) by (nonlinear_arith)
        requires
            d > 0,
            2 * (q * d) - d <= 2 * d * r <= 2 * (q * d) + d,
    ;
}

/// Saturates a wide intermediate to `i64`.
pub(crate) fn clamp_wide(n: i128) -> (r: i64)
    ensures
        r == clamp(n as int),
{
    if n < i64::MIN as i128 {
        i64::MIN
    } else if n > i64::MAX as i128 {
        i64::MAX
    } else {
        n as i64
    }
}

/// Rounded division of a wide intermediate by a positive divisor.
pub(crate) fn round_div_wide(n: i128, d: i128) -> (r: i128)
    requires
        d > 0,
        n > i128::MIN,
    ensures
        r == round_div(n as int, d as int),
{
    let m: i128 = if n >= 0 { n } else { -n };
    let q: i128 = m / d;
    let rem: i128 = m % d;
    proof {
        let (mi, di, qi, ri) = (m as int, d as int, q as int, rem as int);
        vstd::arithmetic::div_mod::lemma_fundamental_div_mod(mi, di);
        vstd::arithmetic::div_mod::lemma_mod_pos_bound(mi, di);
        vstd::arithmetic::div_mod::lemma_div_pos_is_pos(mi, di);
        assert(qi <= mi) by {
            vstd::arithmetic::div_mod::lemma_div_is_ordered_by_denominator(mi, 1, di);
        }
        if ri >= di - ri {
            assert(2 * qi <= mi) by (nonlinear_arith)
                requires
                    mi == di * qi + ri,
                    di >= 2,
                    qi >= 0,
                    ri >= 0,
            ;
            assert(2 * mi + di == (2 * di) * (qi + 1) + (2 * ri - di)) by (nonlinear_arith)
                requires
                    mi == di * qi + ri,
            ;
            vstd::arithmetic::div_mod::lemma_fundamental_div_mod_converse(
                2 * mi + di,
                2 * di,
                qi + 1,
                2 * ri - di,
            );
        } else {
            assert(2 * mi + di == (2 * di) * qi + (2 * ri + di)) by (nonlinear_arith)
                requires
                    mi == di * qi + ri,
            ;
            vstd::arithmetic::div_mod::lemma_fundamental_div_mod_converse(
                2 * mi + di,
                2 * di,
                qi,
                2 * ri + di,
            );
        }
    }
    let up: i128 = if rem >= d - rem { q + 1 } else { q };
    if n >= 0 {
        up
    } else {
        -up
    }
}

/// Brings an exact product (in units of `1 / SCALE^2`) back to raw units.
pub(crate) fn narrow(n: i128) -> (r: i64)
    ensures
        r == clamp(round_div(n as int, SCALE as int)),
{
    proof {
        lemma_round_div_bounds(n as int, SCALE as int);
    }
    if n == i128::MIN {
        i64::MIN
    } else {
        clamp_wide(round_div_wide(n, SCALE as i128))
    }
}

/// The exact product of two raw values.
pub(crate) fn wide_product(a: i64, b: i64) -> (p: i128)
    ensures
        p == a * b,
        -0x4000_0000_0000_0000_0000_0000_0000_0000 <= p <= 0x4000_0000_0000_0000_0000_0000_0000_0000,
{
    assert(-0x4000_0000_0000_0000_0000_0000_0000_0000 <= a * b
        <= 0x4000_0000_0000_0000_0000_0000_0000_0000) by (nonlinear_arith)
        requires
            -0x8000_0000_0000_0000 <= a <= 0x7fff_ffff_ffff_ffff,
            -0x8000_0000_0000_0000 <= b <= 0x7fff_ffff_ffff_ffff,
    ;
    (a as i128) * (b as i128)
}

impl Fixed {
    /// The sum, saturated.
    pub open spec fn spec_plus(self, other: Fixed) -> Fixed {
        Fixed { raw: clamp(self.raw + other.raw) as i64 }
    }

    /// The difference, saturated.
    pub open spec fn spec_minus(self, other: Fixed) -> Fixed {
        Fixed { raw: clamp(self.raw - other.raw) as i64 }
    }

    /// The negation, saturated (only `i64::MIN` is affected).
    pub open spec fn spec_negated(self) -> Fixed {
        Fixed { raw: clamp(-self.raw) as i64 }
    }

    /// The product, rounded to the nearest raw unit and saturated.
    pub open spec fn spec_times(self, other: Fixed) -> Fixed {
        Fixed { raw: clamp(round_div(self.raw * other.raw, SCALE as int)) as i64 }
    }

    /// The nearest whole cell, ties going away from zero.
    pub open spec fn spec_round(self) -> int {
        round_div(self.raw as int, SCALE as int)
    }

    /// This number times `num / den`, rounded once and saturated.
    pub open spec fn spec_scaled(self, num: i64, den: i64) -> Fixed
        recommends
            den > 0,
    {
        Fixed { raw: clamp(round_div(self.raw * num, den as int)) as i64 }
    }

    /// Half of `n` whole cells, saturated: `n / 2` as a number, not as a count.
    pub open spec fn spec_half_of(n: usize) -> Fixed {
        Fixed { raw: clamp(round_div(n * SCALE, 2)) as i64 }
    }

    /// `n` whole cells, saturated.
    pub open spec fn spec_from_int(n: i64) -> Fixed {
        Fixed { raw: clamp(n * SCALE) as i64 }
    }

    /// `num / den`, rounded to the nearest raw unit and saturated.
    pub open spec fn spec_from_ratio(num: i64, den: i64) -> Fixed
        recommends
            den > 0,
    {
        Fixed { raw: clamp(round_div(num * SCALE, den as int)) as i64 }
    }

    pub fn from_raw(raw: i64) -> (r: Fixed)
        ensures
            r.raw == raw,
    {
        Fixed { raw }
    }

    pub fn from_int(n: i64) -> (r: Fixed)
        ensures
            r == Self::spec_from_int(n),
    {
        Fixed { raw: clamp_wide(wide_product(n, SCALE)) }
    }

    pub fn half_of(n: usize) -> (r: Fixed)
        ensures
            r == Self::spec_half_of(n),
    {
        assert(0 <= n * SCALE <= 0xffff_ffff_ffff_ffff * 2_500_000_000_000) by (nonlinear_arith)
            requires
                0 <= n <= 0xffff_ffff_ffff_ffff,
                SCALE == 2_500_000_000_000,
        ;
        Fixed { raw: clamp_wide(round_div_wide((n as i128) * (SCALE as i128), 2)) }
    }

    pub fn from_ratio(num: i64, den: i64) -> (r: Fixed)
        requires
            den > 0,
        ensures
            r == Self::spec_from_ratio(num, den),
    {
        Fixed { raw: clamp_wide(round_div_wide(wide_product(num, SCALE), den as i128)) }
    }

    pub fn scaled(self, num: i64, den: i64) -> (r: Fixed)
        requires
            den > 0,
        ensures
            r == self.spec_scaled(num, den),
    {
        Fixed { raw: clamp_wide(round_div_wide(wide_product(self.raw, num), den as i128)) }
    }

    pub fn plus(self, other: Fixed) -> (r: Fixed)
        ensures
            r == self.spec_plus(other),
    {
        Fixed { raw: clamp_wide(self.raw as i128 + other.raw as i128) }
    }

    pub fn minus(self, other: Fixed) -> (r: Fixed)
        ensures
            r == self.spec_minus(other),
    {
        Fixed { raw: clamp_wide(self.raw as i128 - other.raw as i128) }
    }

    pub fn negated(self) -> (r: Fixed)
        ensures
            r == self.spec_negated(),
    {
        Fixed { raw: clamp_wide(-(self.raw as i128)) }
    }

    pub fn times(self, other: Fixed) -> (r: Fixed)
        ensures
            r == self.spec_times(other),
    {
        Fixed { raw: narrow(wide_product(self.raw, other.raw)) }
    }

    pub fn round(self) -> (r: i64)
        ensures
            r == self.spec_round(),
    {
        proof {
            lemma_round_div_bounds(self.raw as int, SCALE as int);
        }
        round_div_wide(self.raw as i128, SCALE as i128) as i64
    }
}

} // verus!
