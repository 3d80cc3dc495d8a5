//! Rotation angles, held as the sine and cosine that a rotation multiplies by.
//!
//! Sines and cosines are kept much finer than coordinates, and every angle
//! is brought onto the unit circle when it is made: a turn then loses no
//! more than the rounding of the coordinates that it gives.

use vstd::prelude::*;
use crate::fixed::{
    clamp, clamp_wide, lemma_round_div_bounds, round_div, round_div_wide, wide_product, Fixed,
    SCALE,
};
use crate::vector::Vector;

verus! {

/// Units per one for sines and cosines: a sine of raw value `s` stands for `s / TURN`.
pub const TURN: i64 = 1_000_000_000_000_000_000;

/// How many units of a sine go into one raw unit of a [`Fixed`]: `TURN / SCALE`.
pub const FINER: i64 = 400_000;

/// An angle of rotation, given by its sine and cosine in units of `1 / TURN`.
///
/// The pair lies on the unit circle: the larger of the two is the square
/// root of what the smaller leaves of one, rounded down.
#[derive(Clone, Copy, Debug)]
pub struct Angle {
    sin: i64,
    cos: i64,
}

/// First coordinate of the pair `(u, v)` after the turn: `u·cos − v·sin`.
pub open spec fn turn_first(u: Fixed, v: Fixed, sin: int, cos: int) -> Fixed {
    Fixed { raw: clamp(round_div(u.raw * cos - v.raw * sin, TURN as int)) as i64 }
}

/// Second coordinate of the pair `(u, v)` after the turn: `u·sin + v·cos`.
pub open spec fn turn_second(u: Fixed, v: Fixed, sin: int, cos: int) -> Fixed {
    Fixed { raw: clamp(round_div(u.raw * sin + v.raw * cos, TURN as int)) as i64 }
}

/// The distance of `n` from zero.
pub open spec fn magnitude(n: int) -> int {
    if n >= 0 {
        n
    } else {
        -n
    }
}

/// `r` is the square root of `n`, rounded down.
pub open spec fn is_root(r: int, n: int) -> bool {
    0 <= r && r * r <= n < (r + 1) * (r + 1)
}

/// The square root of `n`, rounded down.
pub open spec fn root(n: int) -> int {
    choose|r: int| is_root(r, n)
}

/// Only one number is the rounded-down square root of `n`.
pub proof fn lemma_root_unique(r: int, n: int)
    requires
        is_root(r, n),
    ensures
        root(n) == r,
{
    let q = root(n);
    assert(is_root(q, n));
    assert(q == r) by (nonlinear_arith)
        requires
            0 <= r,
            0 <= q,
            r * r <= n < (r + 1) * (r + 1),
            q * q <= n < (q + 1) * (q + 1),
    ;
}

/// The square root of `n`, rounded down, by bisection.
fn isqrt(n: i128) -> (r: i64)
    requires
        0 <= n <= TURN * TURN,
    ensures
        r == root(n as int),
        is_root(r as int, n as int),
        0 <= r <= TURN,
{
    let mut lo: i128 = 0;
    let mut hi: i128 = TURN as i128 + 1;
    assert(n < (TURN + 1) * (TURN + 1)) by (nonlinear_arith)
        requires
            n <= TURN * TURN,
            TURN > 0,
    ;
    while hi - lo > 1
        invariant
            0 <= lo < hi <= TURN + 1,
            lo * lo <= n < hi * hi,
        decreases hi - lo,
    {
        let mid: i128 = lo + (hi - lo) / 2;
        assert(0 <= mid * mid <= (TURN + 1) * (TURN + 1) <= 1_000_000_000_000_000_002_000_000_000_000_000_001)
            by (nonlinear_arith)
            requires
                0 <= mid <= TURN + 1,
                TURN == 1_000_000_000_000_000_000,
        ;
        if mid * mid <= n {
            lo = mid;
        } else {
            hi = mid;
        }
    }
    proof {
        lemma_root_unique(lo as int, n as int);
    }
    lo as i64
}

impl Angle {
    /// Whether `sin² + cos²` is one, up to a thousand millionth.
    pub open spec fn is_unit(sin: Fixed, cos: Fixed) -> bool {
        &&& -SCALE <= sin.raw <= SCALE
        &&& -SCALE <= cos.raw <= SCALE
        &&& 1_000_000_000 * magnitude(sin.raw * sin.raw + cos.raw * cos.raw - SCALE * SCALE)
            <= SCALE * SCALE
    }

    /// The sine, in units of `1 / TURN`.
    pub closed spec fn spec_sin(self) -> int {
        self.sin as int
    }

    /// The cosine, in units of `1 / TURN`.
    pub closed spec fn spec_cos(self) -> int {
        self.cos as int
    }

    /// Validity of an angle: its sine and cosine lie on the unit circle, as
    /// nearly as whole units allow. Every `Angle` is valid.
    #[verifier::type_invariant]
    pub open spec fn wf(self) -> bool {
        &&& -TURN <= self.spec_sin() <= TURN
        &&& -TURN <= self.spec_cos() <= TURN
        &&& -2 * TURN <= self.spec_sin() * self.spec_sin() + self.spec_cos() * self.spec_cos()
            - TURN * TURN <= 0
    }

    /// The sine and cosine of the angle that `new` makes of an approximate
    /// sine and cosine: the smaller of the two is kept, in finer units, and
    /// the other is what it leaves of one, with the sign that was given.
    pub open spec fn spec_new(sin: Fixed, cos: Fixed) -> (int, int) {
        let s = sin.raw * FINER;
        let c = cos.raw * FINER;
        if magnitude(sin.raw as int) <= magnitude(cos.raw as int) {
            let r = root(TURN * TURN - s * s);
            (s, if cos.raw >= 0 { r } else { -r })
        } else {
            let r = root(TURN * TURN - c * c);
            (if sin.raw >= 0 { r } else { -r }, c)
        }
    }

    /// The opposite angle: same cosine, negated sine.
    pub open spec fn is_inverse_of(self, other: Angle) -> bool {
        self.spec_sin() == -other.spec_sin() && self.spec_cos() == other.spec_cos()
    }

    /// The angle whose sine and cosine are about `sin` and `cos`, if the two
    /// can be the sine and cosine of one angle.
    pub fn new(sin: Fixed, cos: Fixed) -> (r: Option<Angle>)
        ensures
            r is Some <==> Self::is_unit(sin, cos),
            r matches Some(a) ==> (a.spec_sin(), a.spec_cos()) == Self::spec_new(sin, cos) && a.wf(),
    {
        if sin.raw < -SCALE || sin.raw > SCALE || cos.raw < -SCALE || cos.raw > SCALE {
            return None;
        }
        assert(0 <= sin.raw * sin.raw + cos.raw * cos.raw <= 2 * (SCALE * SCALE)) by (nonlinear_arith)
            requires
                -SCALE <= sin.raw <= SCALE,
                -SCALE <= cos.raw <= SCALE,
        ;
        assert(SCALE * SCALE == 6_250_000_000_000_000_000_000_000) by (nonlinear_arith)
            requires
                SCALE == 2_500_000_000_000,
        ;
        let norm: i128 = wide_product(sin.raw, sin.raw) + wide_product(cos.raw, cos.raw);
        let one: i128 = wide_product(SCALE, SCALE);
        let miss: i128 = if norm >= one { norm - one } else { one - norm };
        if 1_000_000_000 * miss > one {
            return None;
        }
        let sin_abs: i64 = if sin.raw >= 0 { sin.raw } else { -sin.raw };
        let cos_abs: i64 = if cos.raw >= 0 { cos.raw } else { -cos.raw };
        if sin_abs <= cos_abs {
            let s: i64 = sin.raw * FINER;
            let other = Self::other_part(s);
            Some(Angle { sin: s, cos: if cos.raw >= 0 { other } else { -other } })
        } else {
            let c: i64 = cos.raw * FINER;
            let other = Self::other_part(c);
            Some(Angle { sin: if sin.raw >= 0 { other } else { -other }, cos: c })
        }
    }

    /// What `kept` leaves of one: the root of `TURN² − kept²`.
    fn other_part(kept: i64) -> (other: i64)
        requires
            -TURN <= kept <= TURN,
        ensures
            other == root(TURN * TURN - kept * kept),
            0 <= other <= TURN,
            -2 * TURN <= kept * kept + other * other - TURN * TURN <= 0,
            -2 * TURN <= kept * kept + (-other) * (-other) - TURN * TURN <= 0,
    {
        assert(0 <= kept * kept <= TURN * TURN == 1_000_000_000_000_000_000_000_000_000_000_000_000)
            by (nonlinear_arith)
            requires
                -TURN <= kept <= TURN,
                TURN == 1_000_000_000_000_000_000,
        ;
        let n: i128 = (TURN as i128) * (TURN as i128) - (kept as i128) * (kept as i128);
        let other = isqrt(n);
        assert(-2 * TURN <= kept * kept + other * other - TURN * TURN <= 0
            && (-other) * (-other) == other * other) by (nonlinear_arith)
            requires
                n == TURN * TURN - kept * kept,
                0 <= other <= TURN,
                other * other <= n < (other + 1) * (other + 1),
        ;
        other
    }

    /// The angle zero: turning by it changes nothing.
    pub fn zero() -> (a: Angle)
        ensures
            a.wf(),
            a.spec_sin() == 0,
            a.spec_cos() == TURN,
    {
        assert(0 * 0 + TURN * TURN - TURN * TURN == 0) by (nonlinear_arith);
        Angle { sin: 0, cos: TURN }
    }

    /// The opposite angle: turning by it undoes a turn by this one.
    pub fn inverse(self) -> (a: Angle)
        ensures
            a.is_inverse_of(self),
            a.wf(),
    {
        proof {
            use_type_invariant(&self);
            assert((-self.sin) * (-self.sin) == self.sin * self.sin) by (nonlinear_arith);
        }
        Angle { sin: -self.sin, cos: self.cos }
    }

    pub fn sin(&self) -> (s: i64)
        ensures
            s == self.spec_sin(),
    {
        self.sin
    }

    pub fn cos(&self) -> (c: i64)
        ensures
            c == self.spec_cos(),
    {
        self.cos
    }

    /// Turns the coordinate pair `(u, v)` by this angle.
    pub fn turn(&self, u: Fixed, v: Fixed) -> (r: (Fixed, Fixed))
        ensures
            self.wf(),
            r.0 == turn_first(u, v, self.spec_sin(), self.spec_cos()),
            r.1 == turn_second(u, v, self.spec_sin(), self.spec_cos()),
    {
        proof {
            use_type_invariant(self);
            lemma_turn_term_bound(u.raw as int, self.cos as int);
            lemma_turn_term_bound(v.raw as int, self.sin as int);
            lemma_turn_term_bound(u.raw as int, self.sin as int);
            lemma_turn_term_bound(v.raw as int, self.cos as int);
        }
        let uc = wide_product(u.raw, self.cos);
        let vs = wide_product(v.raw, self.sin);
        let us = wide_product(u.raw, self.sin);
        let vc = wide_product(v.raw, self.cos);
        (
            Fixed { raw: clamp_wide(round_div_wide(uc - vs, TURN as i128)) },
            Fixed { raw: clamp_wide(round_div_wide(us + vc, TURN as i128)) },
        )
    }
}

impl Vector {
    /// This vector turned about the x axis: `y' = y·cos − z·sin`, `z' = y·sin + z·cos`.
    pub open spec fn spec_rotated_x(self, alpha: Angle) -> Vector {
        Vector {
            x: self.x,
            y: turn_first(self.y, self.z, alpha.spec_sin(), alpha.spec_cos()),
            z: turn_second(self.y, self.z, alpha.spec_sin(), alpha.spec_cos()),
        }
    }

    /// This vector turned about the y axis: `x' = x·cos − z·sin`, `z' = x·sin + z·cos`.
    pub open spec fn spec_rotated_y(self, alpha: Angle) -> Vector {
        Vector {
            x: turn_first(self.x, self.z, alpha.spec_sin(), alpha.spec_cos()),
            y: self.y,
            z: turn_second(self.x, self.z, alpha.spec_sin(), alpha.spec_cos()),
        }
    }

    /// This vector turned about the z axis: `x' = x·cos − y·sin`, `y' = x·sin + y·cos`.
    pub open spec fn spec_rotated_z(self, alpha: Angle) -> Vector {
        Vector {
            x: turn_first(self.x, self.y, alpha.spec_sin(), alpha.spec_cos()),
            y: turn_second(self.x, self.y, alpha.spec_sin(), alpha.spec_cos()),
            z: self.z,
        }
    }

    pub fn rotated_x(self, alpha: Angle) -> (r: Vector)
        ensures
            r == self.spec_rotated_x(alpha),
    {
        let (y, z) = alpha.turn(self.y, self.z);
        Vector { x: self.x, y, z }
    }

    pub fn rotated_y(self, alpha: Angle) -> (r: Vector)
        ensures
            r == self.spec_rotated_y(alpha),
    {
        let (x, z) = alpha.turn(self.x, self.z);
        Vector { x, y: self.y, z }
    }

    pub fn rotated_z(self, alpha: Angle) -> (r: Vector)
        ensures
            r == self.spec_rotated_z(alpha),
    {
        let (x, y) = alpha.turn(self.x, self.y);
        Vector { x, y, z: self.z }
    }
}

/// A thousand cells, in raw units: the largest coordinate for which a
/// rotation is stated to keep the scalar product to a thousand millionth.
pub open spec fn reach() -> int {
    1000 * SCALE
}

/// Every coordinate of `p` is within a thousand cells of zero.
pub open spec fn within_reach(p: Vector) -> bool {
    &&& magnitude(p.x.raw as int) <= reach()
    &&& magnitude(p.y.raw as int) <= reach()
    &&& magnitude(p.z.raw as int) <= reach()
}

/// The coordinates of `p` are small enough, taken together, for two turns
/// in a row to stay clear of saturation.
pub open spec fn clear_of_saturation(p: Vector) -> bool {
    magnitude(p.x.raw as int) + magnitude(p.y.raw as int) + magnitude(p.z.raw as int)
        <= 0x3fff_ffff_ffff_ffff
}

/// `a` is `b` up to one and a half raw units and two parts in `TURN` of `b`.
pub open spec fn near(a: Fixed, b: Fixed) -> bool {
    2 * (TURN * magnitude(a.raw - b.raw)) <= 4 * magnitude(b.raw as int) + 3 * TURN
}

/// Each coordinate of `q` is near that of `p`.
pub open spec fn near_point(q: Vector, p: Vector) -> bool {
    near(q.x, p.x) && near(q.y, p.y) && near(q.z, p.z)
}

/// `a` is `b` up to a thousand millionth of a cell, and up to one raw unit
/// where `b` is at most a hundred thousand cells.
pub open spec fn close(a: Fixed, b: Fixed) -> bool {
    &&& 1_000_000_000 * magnitude(a.raw - b.raw) <= SCALE
    &&& 4 * magnitude(b.raw as int) < TURN ==> magnitude(a.raw - b.raw) <= 1
}

/// Each coordinate of `q` is close to that of `p`.
pub open spec fn close_point(q: Vector, p: Vector) -> bool {
    close(q.x, p.x) && close(q.y, p.y) && close(q.z, p.z)
}

/// What is near is close, whatever the coordinate.
pub proof fn lemma_near_is_close(a: Fixed, b: Fixed)
    requires
        near(a, b),
    ensures
        close(a, b),
{
    let d = magnitude(a.raw - b.raw);
    assert(TURN * d == 1_000_000_000_000_000_000 * d);
    assert(d <= 19);
}

/// The angle made of a negated sine and the same cosine is the opposite of
/// the angle made of the sine and cosine themselves.
pub proof fn lemma_new_of_opposite(sin: Fixed, cos: Fixed)
    requires
        Angle::is_unit(sin, cos),
    ensures
        Angle::is_unit(Fixed { raw: (-sin.raw) as i64 }, cos),
        Angle::spec_new(Fixed { raw: (-sin.raw) as i64 }, cos) == (
            -Angle::spec_new(sin, cos).0,
            Angle::spec_new(sin, cos).1,
        ),
{
    let s = sin.raw * FINER;
    let c = cos.raw * FINER;
    assert((-sin.raw) * (-sin.raw) == sin.raw * sin.raw) by (nonlinear_arith);
    assert((-sin.raw) * FINER == -s) by (nonlinear_arith)
        requires
            s == sin.raw * FINER,
    ;
    assert((-s) * (-s) == s * s) by (nonlinear_arith);
    if magnitude(sin.raw as int) > magnitude(cos.raw as int) {
        assert(sin.raw != 0);
    }
}

/// The scalar product of `q` with itself is that of `p` with itself up to
/// a thousand millionth.
pub open spec fn same_length(q: Vector, p: Vector) -> bool {
    1_000_000_000 * magnitude(q.spec_scalar_prod(q).raw - p.spec_scalar_prod(p).raw) <= SCALE
}

/// What a turn of `(u, v)` by sine `s` and cosine `c` gives before rounding, in
/// units of `1 / TURN` of a raw unit: first and second coordinate.
pub open spec fn turn_wide(u: int, v: int, s: int, c: int) -> (int, int) {
    (u * c - v * s, u * s + v * c)
}

/// Turning back the exact result of a turn gives the pair it started from,
/// times `s² + c²`; and the squared length of the exact result is that of
/// the pair, times `s² + c²`.
pub proof fn lemma_turn_wide_algebra(u: int, v: int, s: int, c: int)
    ensures
        ({
            let (x, z) = turn_wide(u, v, s, c);
            let (x2, z2) = turn_wide(x, z, -s, c);
            &&& x2 == u * (s * s + c * c)
            &&& z2 == v * (s * s + c * c)
            &&& x * x + z * z == (u * u + v * v) * (s * s + c * c)
        }),
{
    let (x, z) = turn_wide(u, v, s, c);
    assert(x * c - z * (-s) == u * (s * s + c * c)) by (nonlinear_arith)
        requires
            x == u * c - v * s,
            z == u * s + v * c,
    ;
    assert(x * (-s) + z * c == v * (s * s + c * c)) by (nonlinear_arith)
        requires
            x == u * c - v * s,
            z == u * s + v * c,
    ;
    let (uc, vs, us, vc) = (u * c, v * s, u * s, v * c);
    assert(x * x == uc * uc - 2 * (uc * vs) + vs * vs) by (nonlinear_arith)
        requires
            x == uc - vs,
    ;
    assert(z * z == us * us + 2 * (us * vc) + vc * vc) by (nonlinear_arith)
        requires
            z == us + vc,
    ;
    assert(uc * vs == us * vc) by (nonlinear_arith)
        requires
            uc == u * c,
            vs == v * s,
            us == u * s,
            vc == v * c,
    ;
    lemma_square_of_product(u, c);
    lemma_square_of_product(v, s);
    lemma_square_of_product(u, s);
    lemma_square_of_product(v, c);
    let (uu, vv, ss, cc) = (u * u, v * v, s * s, c * c);
    assert((uu + vv) * (ss + cc) == uu * cc + vv * ss + uu * ss + vv * cc) by (nonlinear_arith);
}

/// The square of a product is the product of the squares.
proof fn lemma_square_of_product(a: int, b: int)
    by (nonlinear_arith)
    ensures
        (a * b) * (a * b) == (a * a) * (b * b),
{
}

/// A product is at most the product of the bounds of its factors.
proof fn lemma_product_bound(a: int, b: int, ba: int, bb: int)
    by (nonlinear_arith)
    requires
        -ba <= a <= ba,
        -bb <= b <= bb,
    ensures
        -(ba * bb) <= a * b <= ba * bb,
{
}

/// Of two numbers that are not negative, the one with the smaller square is the smaller.
proof fn lemma_square_order(a: int, b: int)
    by (nonlinear_arith)
    requires
        0 <= a,
        0 <= b,
        a * a <= b * b,
    ensures
        a <= b,
{
}

/// One turn of a pair: the rounded coordinates are within half a raw unit
/// of the exact ones, and as long as the magnitudes of the pair sum to at
/// most `m`, so does each of them.
proof fn lemma_turn_rounds(u: int, v: int, s: int, c: int, m: int)
    requires
        -TURN <= s <= TURN,
        -TURN <= c <= TURN,
        magnitude(u) + magnitude(v) <= m,
    ensures
        ({
            let (x, z) = turn_wide(u, v, s, c);
            let r1 = round_div(x, TURN as int);
            let r2 = round_div(z, TURN as int);
            &&& -(m * TURN) <= x <= m * TURN
            &&& -(m * TURN) <= z <= m * TURN
            &&& -m <= r1 <= m
            &&& -m <= r2 <= m
            &&& -TURN <= 2 * (TURN * r1 - x) <= TURN
            &&& -TURN <= 2 * (TURN * r2 - z) <= TURN
        }),
{
    let (x, z) = turn_wide(u, v, s, c);
    let r1 = round_div(x, TURN as int);
    let r2 = round_div(z, TURN as int);
    let (mu, mv) = (magnitude(u), magnitude(v));
    lemma_product_bound(u, c, mu, TURN as int);
    lemma_product_bound(v, s, mv, TURN as int);
    lemma_product_bound(u, s, mu, TURN as int);
    lemma_product_bound(v, c, mv, TURN as int);
    assert(mu * TURN + mv * TURN <= m * TURN) by (nonlinear_arith)
        requires
            mu + mv <= m,
    ;
    lemma_round_div_bounds(x, TURN as int);
    lemma_round_div_bounds(z, TURN as int);
    assert(2 * TURN * r1 == 2 * (TURN * r1) && 2 * TURN * r2 == 2 * (TURN * r2))
        by (nonlinear_arith);
    assert(-m <= r1 <= m) by (nonlinear_arith)
        requires
            TURN > 0,
            -(m * TURN) <= x <= m * TURN,
            2 * x - TURN <= 2 * (TURN * r1) <= 2 * x + TURN,
    ;
    assert(-m <= r2 <= m) by (nonlinear_arith)
        requires
            TURN > 0,
            -(m * TURN) <= z <= m * TURN,
            2 * z - TURN <= 2 * (TURN * r2) <= 2 * z + TURN,
    ;
}

/// One coordinate of a pair turned and turned back, against what it was:
/// `r` is the coordinate after both turns, `w` the exact second turn of
/// the rounded first one.
proof fn lemma_back_near(u: int, r: int, w: int, x: int, z: int, r1: int, r2: int, a: int, b: int)
    requires
        // the sine and cosine, up to sign and order: `a`, `b`
        -TURN <= a <= TURN,
        -TURN <= b <= TURN,
        -2 * TURN <= a * a + b * b - TURN * TURN <= 0,
        // the first turn, exact (`x`, `z`) and rounded (`r1`, `r2`)
        -TURN <= 2 * (TURN * r1 - x) <= TURN,
        -TURN <= 2 * (TURN * r2 - z) <= TURN,
        // the second turn of the rounded pair, exact (`w`) and rounded (`r`)
        w == r1 * a + r2 * b,
        -TURN <= 2 * (TURN * r - w) <= TURN,
        // turned back exactly, the pair is itself times `a² + b²`
        x * a + z * b == u * (a * a + b * b),
    ensures
        2 * (TURN * magnitude(r - u)) <= 4 * magnitude(u) + 3 * TURN,
{
    let e1 = 2 * (TURN * r1 - x);
    let e2 = 2 * (TURN * r2 - z);
    let e3 = 2 * (TURN * r - w);
    let delta = a * a + b * b - TURN * TURN;
    assert(2 * (TURN * w) == 2 * (x * a + z * b) + e1 * a + e2 * b) by (nonlinear_arith)
        requires
            w == r1 * a + r2 * b,
            e1 == 2 * (TURN * r1 - x),
            e2 == 2 * (TURN * r2 - z),
    ;
    assert(u * (a * a + b * b) == u * (TURN * TURN) + u * delta) by (nonlinear_arith)
        requires
            delta == a * a + b * b - TURN * TURN,
    ;
    let d = r - u;
    assert(2 * (TURN * (TURN * d)) == 2 * (u * delta) + e1 * a + e2 * b + TURN * e3)
        by (nonlinear_arith)
        requires
            d == r - u,
            e3 == 2 * (TURN * r - w),
            2 * (TURN * w) == 2 * (x * a + z * b) + e1 * a + e2 * b,
            x * a + z * b == u * (TURN * TURN) + u * delta,
    ;
    let mu = magnitude(u);
    lemma_product_bound(u, delta, mu, 2 * TURN);
    lemma_product_bound(e1, a, TURN as int, TURN as int);
    lemma_product_bound(e2, b, TURN as int, TURN as int);
    let t = TURN * d;
    assert(mu * (2 * TURN) == TURN * (2 * mu)) by (nonlinear_arith);
    assert(-(4 * mu + 3 * TURN) <= 2 * t <= 4 * mu + 3 * TURN) by (nonlinear_arith)
        requires
            TURN > 0,
            -(TURN * (4 * mu) + 3 * (TURN * TURN)) <= 2 * (TURN * t) <= TURN * (4 * mu) + 3 * (
                TURN * TURN),
    ;
    assert(TURN * magnitude(d) == magnitude(t)) by (nonlinear_arith)
        requires
            t == TURN * d,
            TURN > 0,
    ;
}

/// A pair turned by an angle and then by the opposite angle is, in each
/// coordinate, near what it was: the rounding of the two turns is all that
/// is lost.
pub proof fn lemma_turn_and_back(u: Fixed, v: Fixed, alpha: Angle, back: Angle)
    requires
        alpha.wf(),
        back.is_inverse_of(alpha),
        magnitude(u.raw as int) + magnitude(v.raw as int) <= 0x3fff_ffff_ffff_ffff,
    ensures
        ({
            let u1 = turn_first(u, v, alpha.spec_sin(), alpha.spec_cos());
            let v1 = turn_second(u, v, alpha.spec_sin(), alpha.spec_cos());
            &&& near(turn_first(u1, v1, back.spec_sin(), back.spec_cos()), u)
            &&& near(turn_second(u1, v1, back.spec_sin(), back.spec_cos()), v)
        }),
{
    let (s, c) = (alpha.spec_sin(), alpha.spec_cos());
    let (ui, vi) = (u.raw as int, v.raw as int);
    let m = magnitude(ui) + magnitude(vi);
    let (x, z) = turn_wide(ui, vi, s, c);
    let r1 = round_div(x, TURN as int);
    let r2 = round_div(z, TURN as int);
    lemma_turn_rounds(ui, vi, s, c, m);
    let (x2, z2) = turn_wide(r1, r2, -s, c);
    let q1 = round_div(x2, TURN as int);
    let q2 = round_div(z2, TURN as int);
    lemma_turn_rounds(r1, r2, -s, c, 2 * m);
    lemma_turn_wide_algebra(ui, vi, s, c);
    assert((-s) * (-s) == s * s) by (nonlinear_arith);
    assert(x2 == r1 * c + r2 * s) by (nonlinear_arith)
        requires
            x2 == r1 * c - r2 * (-s),
    ;
    assert(x * c + z * s == ui * (c * c + s * s)) by (nonlinear_arith)
        requires
            x * c - z * (-s) == ui * (s * s + c * c),
    ;
    lemma_back_near(ui, q1, x2, x, z, r1, r2, c, s);
    assert(z2 == r2 * c + r1 * (-s));
    assert(z * c + x * (-s) == vi * (c * c + (-s) * (-s))) by (nonlinear_arith)
        requires
            x * (-s) + z * c == vi * (s * s + c * c),
    ;
    lemma_back_near(vi, q2, z2, z, x, r2, r1, c, -s);
}

/// A vector turned about an axis and back is near what it was in every
/// coordinate — about each of the three axes, and as long as no
/// coordinate saturates on the way.
pub proof fn lemma_rotation_reversible(p: Vector, alpha: Angle, back: Angle)
    requires
        alpha.wf(),
        back.is_inverse_of(alpha),
        clear_of_saturation(p),
    ensures
        near_point(p.spec_rotated_x(alpha).spec_rotated_x(back), p),
        near_point(p.spec_rotated_y(alpha).spec_rotated_y(back), p),
        near_point(p.spec_rotated_z(alpha).spec_rotated_z(back), p),
        close_point(p.spec_rotated_x(alpha).spec_rotated_x(back), p),
        close_point(p.spec_rotated_y(alpha).spec_rotated_y(back), p),
        close_point(p.spec_rotated_z(alpha).spec_rotated_z(back), p),
{
    lemma_turn_and_back(p.y, p.z, alpha, back);
    lemma_turn_and_back(p.x, p.z, alpha, back);
    lemma_turn_and_back(p.x, p.y, alpha, back);
    let qx = p.spec_rotated_x(alpha).spec_rotated_x(back);
    let qy = p.spec_rotated_y(alpha).spec_rotated_y(back);
    let qz = p.spec_rotated_z(alpha).spec_rotated_z(back);
    assert(near(qx.x, p.x) && near(qy.y, p.y) && near(qz.z, p.z));
    lemma_near_is_close(qx.x, p.x);
    lemma_near_is_close(qx.y, p.y);
    lemma_near_is_close(qx.z, p.z);
    lemma_near_is_close(qy.x, p.x);
    lemma_near_is_close(qy.y, p.y);
    lemma_near_is_close(qy.z, p.z);
    lemma_near_is_close(qz.x, p.x);
    lemma_near_is_close(qz.y, p.y);
    lemma_near_is_close(qz.z, p.z);
}

/// Twice a rounded coordinate, squared, against twice the exact one, squared.
proof fn lemma_square_rounds(r: int, x: int)
    requires
        -TURN <= 2 * (TURN * r - x) <= TURN,
    ensures
        -(4 * (TURN * magnitude(x))) <= 4 * ((TURN * r) * (TURN * r)) - 4 * (x * x) <= 4 * (TURN
            * magnitude(x)) + TURN * TURN,
{
    let f = 2 * (TURN * r - x);
    assert(4 * ((TURN * r) * (TURN * r)) == 4 * (x * x) + 2 * (x * f) + 2 * (x * f) + f * f)
        by (nonlinear_arith)
        requires
            2 * (TURN * r) == 2 * x + f,
    ;
    lemma_product_bound(x, f, magnitude(x), TURN as int);
    lemma_product_bound(f, f, TURN as int, TURN as int);
    assert(f * f >= 0) by (nonlinear_arith);
    assert(magnitude(x) * TURN == TURN * magnitude(x)) by (nonlinear_arith);
}

/// The exact coordinates of a turned pair, taken together, are at most
/// `2·l·TURN` when neither coordinate of the pair exceeds `l`.
proof fn lemma_turn_wide_sum(u: int, v: int, s: int, c: int, l: int)
    requires
        -l <= u <= l,
        -l <= v <= l,
        -2 * TURN <= s * s + c * c - TURN * TURN <= 0,
    ensures
        ({
            let (x, z) = turn_wide(u, v, s, c);
            magnitude(x) + magnitude(z) <= 2 * (l * TURN)
        }),
{
    let (x, z) = turn_wide(u, v, s, c);
    lemma_turn_wide_algebra(u, v, s, c);
    let n = u * u + v * v;
    let (mx, mz) = (magnitude(x), magnitude(z));
    lemma_product_bound(u, u, l, l);
    lemma_product_bound(v, v, l, l);
    assert(n >= 0) by (nonlinear_arith)
        requires
            n == u * u + v * v,
    ;
    assert((mx + mz) * (mx + mz) <= 2 * (x * x + z * z)) by (nonlinear_arith)
        requires
            mx == x || mx == -x,
            mz == z || mz == -z,
    ;
    assert(n * (s * s + c * c) <= n * (TURN * TURN)) by (nonlinear_arith)
        requires
            n >= 0,
            s * s + c * c <= TURN * TURN,
    ;
    assert(n * (TURN * TURN) <= (2 * (l * l)) * (TURN * TURN)) by (nonlinear_arith)
        requires
            n <= 2 * (l * l),
            TURN * TURN >= 0,
    ;
    let bound = 2 * (l * TURN);
    assert(2 * ((2 * (l * l)) * (TURN * TURN)) == bound * bound) by (nonlinear_arith)
        requires
            bound == 2 * (l * TURN),
    ;
    assert(l >= 0);
    assert(bound >= 0) by (nonlinear_arith)
        requires
            bound == 2 * (l * TURN),
            l >= 0,
            TURN > 0,
    ;
    lemma_square_order(mx + mz, bound);
}

/// A turn keeps the squared length of a pair, up to rounding: with neither
/// coordinate above `l`, the squared length moves by at most `2·l + 1`
/// raw units squared and two parts in `TURN` of itself.
pub proof fn lemma_turn_keeps_length(u: Fixed, v: Fixed, alpha: Angle, l: int)
    requires
        alpha.wf(),
        magnitude(u.raw as int) <= l <= 0x3fff_ffff_ffff_ffff,
        magnitude(v.raw as int) <= l,
    ensures
        ({
            let u1 = turn_first(u, v, alpha.spec_sin(), alpha.spec_cos());
            let v1 = turn_second(u, v, alpha.spec_sin(), alpha.spec_cos());
            let before = u.raw * u.raw + v.raw * v.raw;
            let after = u1.raw * u1.raw + v1.raw * v1.raw;
            &&& 0 <= before <= 2 * (l * l)
            &&& TURN * magnitude(after - before) <= 2 * before + TURN * (2 * l + 1)
        }),
{
    let (s, c) = (alpha.spec_sin(), alpha.spec_cos());
    let (ui, vi) = (u.raw as int, v.raw as int);
    let m = magnitude(ui) + magnitude(vi);
    let (x, z) = turn_wide(ui, vi, s, c);
    let r1 = round_div(x, TURN as int);
    let r2 = round_div(z, TURN as int);
    lemma_turn_rounds(ui, vi, s, c, m);
    lemma_turn_wide_algebra(ui, vi, s, c);
    lemma_turn_wide_sum(ui, vi, s, c, l);
    lemma_square_rounds(r1, x);
    lemma_square_rounds(r2, z);
    let before = ui * ui + vi * vi;
    let after = r1 * r1 + r2 * r2;
    let delta = s * s + c * c - TURN * TURN;
    let tt = TURN * TURN;
    lemma_product_bound(ui, ui, l, l);
    lemma_product_bound(vi, vi, l, l);
    assert(before >= 0) by (nonlinear_arith)
        requires
            before == ui * ui + vi * vi,
    ;
    assert((TURN * r1) * (TURN * r1) == tt * (r1 * r1)) by {
        lemma_square_of_product(TURN as int, r1);
    }
    assert((TURN * r2) * (TURN * r2) == tt * (r2 * r2)) by {
        lemma_square_of_product(TURN as int, r2);
    }
    assert(x * x + z * z == before * tt + before * delta) by (nonlinear_arith)
        requires
            x * x + z * z == before * (s * s + c * c),
            delta == s * s + c * c - tt,
    ;
    lemma_product_bound(before, delta, before, 2 * TURN);
    let d = after - before;
    assert(4 * (tt * d) == 4 * (tt * (r1 * r1)) + 4 * (tt * (r2 * r2)) - 4 * (before * tt))
        by (nonlinear_arith)
        requires
            d == r1 * r1 + r2 * r2 - before,
    ;
    let t = TURN * d;
    assert(tt * d == TURN * t) by (nonlinear_arith)
        requires
            tt == TURN * TURN,
            t == TURN * d,
    ;
    assert(before * (2 * TURN) == TURN * (2 * before)) by (nonlinear_arith);
    let w = magnitude(x) + magnitude(z);
    assert(TURN * w <= TURN * (2 * (l * TURN))) by (nonlinear_arith)
        requires
            w <= 2 * (l * TURN),
            TURN > 0,
    ;
    assert(TURN * (2 * (l * TURN)) == TURN * (TURN * (2 * l))) by (nonlinear_arith);
    assert(TURN * w == TURN * magnitude(x) + TURN * magnitude(z)) by (nonlinear_arith)
        requires
            w == magnitude(x) + magnitude(z),
    ;
    assert(-(8 * before + 4 * (TURN * (2 * l)) + 2 * TURN) <= 4 * t <= 8 * before + 4 * (TURN * (2
        * l)) + 2 * TURN) by (nonlinear_arith)
        requires
            TURN > 0,
            -(TURN * (8 * before) + 4 * (TURN * (TURN * (2 * l))) + 2 * (TURN * TURN)) <= 4 * (TURN
                * t) <= TURN * (8 * before) + 4 * (TURN * (TURN * (2 * l))) + 2 * (TURN * TURN),
    ;
    assert(TURN * magnitude(d) == magnitude(t)) by (nonlinear_arith)
        requires
            t == TURN * d,
            TURN > 0,
    ;
    assert(TURN * (2 * l) == 2 * (TURN * l) && TURN * (2 * l + 1) == 2 * (TURN * l) + TURN)
        by (nonlinear_arith);
}

/// The scalar products with themselves of two vectors that agree in one
/// coordinate `w` and whose other two have the squared lengths `a` and `b`.
proof fn lemma_products_close(a: int, b: int, w: int)
    requires
        0 <= a <= 2 * (reach() * reach()),
        -reach() <= w <= reach(),
        TURN * magnitude(b - a) <= 2 * a + TURN * (2 * reach() + 1),
    ensures
        ({
            let pa = clamp(round_div(a + w * w, SCALE as int));
            let pb = clamp(round_div(b + w * w, SCALE as int));
            1_000_000_000 * magnitude(pb - pa) <= SCALE
        }),
{
    let l = reach();
    let ww = w * w;
    lemma_product_bound(w, w, l, l);
    assert(ww >= 0) by (nonlinear_arith)
        requires
            ww == w * w,
    ;
    assert(l * l == 6_250_000_000_000_000_000_000_000_000_000) by (nonlinear_arith)
        requires
            l == 2_500_000_000_000_000,
    ;
    let d = b - a;
    // TURN·|d| <= 4·l² + TURN·(2·l + 1): |d| <= 2·l + 1 + 4·l²/TURN
    assert(-5_025_000_000_000_001 <= d <= 5_025_000_000_000_001) by (nonlinear_arith)
        requires
            TURN == 1_000_000_000_000_000_000,
            TURN * magnitude(d) <= 25_000_000_000_000_000_000_000_000_000_000 + TURN
                * 5_000_000_000_000_001,
            magnitude(d) == d || magnitude(d) == -d,
    ;
    lemma_round_div_bounds(a + ww, SCALE as int);
    lemma_round_div_bounds(b + ww, SCALE as int);
}

/// A rotation about any of the three axes keeps the scalar product of a
/// vector with itself to a thousand millionth, for a vector of up to a
/// thousand cells in each coordinate.
pub proof fn lemma_rotation_keeps_length(p: Vector, alpha: Angle)
    requires
        alpha.wf(),
        within_reach(p),
    ensures
        same_length(p.spec_rotated_x(alpha), p),
        same_length(p.spec_rotated_y(alpha), p),
        same_length(p.spec_rotated_z(alpha), p),
{
    let l = reach();
    let (x, y, z) = (p.x.raw as int, p.y.raw as int, p.z.raw as int);
    lemma_turn_keeps_length(p.y, p.z, alpha, l);
    lemma_turn_keeps_length(p.x, p.z, alpha, l);
    lemma_turn_keeps_length(p.x, p.y, alpha, l);
    let qx = p.spec_rotated_x(alpha);
    let qy = p.spec_rotated_y(alpha);
    let qz = p.spec_rotated_z(alpha);
    lemma_products_close(y * y + z * z, qx.y.raw * qx.y.raw + qx.z.raw * qx.z.raw, x);
    lemma_products_close(x * x + z * z, qy.x.raw * qy.x.raw + qy.z.raw * qy.z.raw, y);
    lemma_products_close(x * x + y * y, qz.x.raw * qz.x.raw + qz.y.raw * qz.y.raw, z);
}

/// A coordinate times a sine or cosine stays well inside the wide range.
proof fn lemma_turn_term_bound(u: int, c: int)
    by (nonlinear_arith)
    requires
        -0x8000_0000_0000_0000 <= u <= 0x7fff_ffff_ffff_ffff,
        -1_000_000_000_000_000_000 <= c <= 1_000_000_000_000_000_000,
    ensures
        -0x8000_0000_0000_0000 * 1_000_000_000_000_000_000 <= u * c <= 0x8000_0000_0000_0000
            * 1_000_000_000_000_000_000,
{
}

} // verus!
