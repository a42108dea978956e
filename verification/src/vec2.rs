//! Two-dimensional fixed-point vectors.
//!
//! A coordinate of `SCALE` steps is one simulation unit, so `Vec2 { x: 1500,
//! y: 0 }` is the point (1.5, 0). Scalar factors passed to `mul` use the
//! same scale; `div` divides by a plain (unscaled) positive count. The
//! magnitude is the flooring square root of the squared length, and
//! normalising a vector shorter than `NORM_EPSILON` steps yields the zero
//! vector rather than blowing up.
use vstd::prelude::*;
use crate::num::{
    iabs, isqrt_int, isqrt_u128, lemma_isqrt_below, lemma_isqrt_char, lemma_sq_le_isqrt,
    lemma_isqrt_above, lemma_tdiv_abs, lemma_tdiv_abs_le, tdiv,
};
use crate::SCALE;

verus! {

/// Vectors shorter than this many steps (one thousandth of a unit)
/// normalise to zero.
pub const NORM_EPSILON: i64 = 1;

/// Largest coordinate magnitude accepted by `mag` and `norm`: squares of
/// coordinates this size still sum within the square-root routine's range.
pub const MAG_LIMIT: i64 = 6_000_000_000_000_000_000;

/// Largest coordinate magnitude accepted by `add`, `sub` and `neg`.
pub const ADD_LIMIT: i64 = 4_000_000_000_000_000_000;

/// Largest coordinate magnitude accepted by `mul`.
pub const MUL_VEC_LIMIT: i64 = 3_000_000_000_000;

/// Largest scalar magnitude accepted by `mul`.
pub const MUL_SCALAR_LIMIT: i64 = 3_000_000;

#[derive(Clone, Copy, PartialEq, Eq, Structural, Debug)]
pub struct Vec2 {
    pub x: i64,
    pub y: i64,
}

impl View for Vec2 {
    type V = (int, int);

    open spec fn view(&self) -> (int, int) {
        (self.x as int, self.y as int)
    }
}

/// Componentwise sum.
pub open spec fn vadd(a: (int, int), b: (int, int)) -> (int, int) {
    (a.0 + b.0, a.1 + b.1)
}

/// Componentwise difference.
pub open spec fn vsub(a: (int, int), b: (int, int)) -> (int, int) {
    (a.0 - b.0, a.1 - b.1)
}

/// Componentwise negation.
pub open spec fn vneg(a: (int, int)) -> (int, int) {
    (-a.0, -a.1)
}

/// Scaling by a fixed-point factor of `k` steps per unit.
pub open spec fn vscale(a: (int, int), k: int) -> (int, int) {
    (tdiv(a.0 * k, SCALE as int), tdiv(a.1 * k, SCALE as int))
}

/// Componentwise truncating division by a plain count.
pub open spec fn vdivn(a: (int, int), n: int) -> (int, int) {
    (tdiv(a.0, n), tdiv(a.1, n))
}

/// Squared length.
pub open spec fn mag_sq(a: (int, int)) -> int {
    a.0 * a.0 + a.1 * a.1
}

/// Length: the flooring square root of the squared length.
pub open spec fn vmag(a: (int, int)) -> int {
    isqrt_int(mag_sq(a))
}

/// Normalisation: zero for vectors shorter than `NORM_EPSILON`, otherwise
/// each coordinate is scaled to a length of about one unit.
pub open spec fn vnorm(a: (int, int)) -> (int, int) {
    if vmag(a) < NORM_EPSILON {
        (0, 0)
    } else {
        (tdiv(a.0 * (SCALE as int), vmag(a)), tdiv(a.1 * (SCALE as int), vmag(a)))
    }
}

impl Vec2 {
    pub fn new(x: i64, y: i64) -> (r: Self)
        ensures
            r.x == x,
            r.y == y,
    {
        Self { x, y }
    }

    pub fn zero() -> (r: Self)
        ensures
            r.x == 0,
            r.y == 0,
    {
        Self::new(0, 0)
    }

    pub fn mag(self) -> (r: i64)
        requires
            -MAG_LIMIT <= self.x <= MAG_LIMIT,
            -MAG_LIMIT <= self.y <= MAG_LIMIT,
        ensures
            r == vmag(self@),
            0 <= r,
            -r <= self.x <= r,
            -r <= self.y <= r,
    {
        let ax: i64 = if self.x >= 0 { self.x } else { -self.x };
        let ay: i64 = if self.y >= 0 { self.y } else { -self.y };
        proof {
            assert((ax as int) * (ax as int) == (self.x as int) * (self.x as int)
                && (ax as int) * (ax as int) <= 36_000_000_000_000_000_000_000_000_000_000_000_000)
                by (nonlinear_arith)
                requires
                    ax == iabs(self.x as int),
                    0 <= ax <= 6_000_000_000_000_000_000,
            ;
            assert((ay as int) * (ay as int) == (self.y as int) * (self.y as int)
                && (ay as int) * (ay as int) <= 36_000_000_000_000_000_000_000_000_000_000_000_000)
                by (nonlinear_arith)
                requires
                    ay == iabs(self.y as int),
                    0 <= ay <= 6_000_000_000_000_000_000,
            ;
        }
        let sx: u128 = (ax as u128) * (ax as u128);
        let sy: u128 = (ay as u128) * (ay as u128);
        let s: u128 = sx + sy;
        let r64: u64 = isqrt_u128(s);
        proof {
            lemma_isqrt_below(s as int, 9_000_000_000_000_000_000);
            assert(9_000_000_000_000_000_001 * 9_000_000_000_000_000_001
                > 72_000_000_000_000_000_000_000_000_000_000_000_000) by (nonlinear_arith);
            lemma_sq_le_isqrt(self.x as int, s as int);
            lemma_sq_le_isqrt(self.y as int, s as int);
            lemma_isqrt_char(s as int);
        }
        r64 as i64
    }

    pub fn norm(self) -> (r: Self)
        requires
            -MAG_LIMIT <= self.x <= MAG_LIMIT,
            -MAG_LIMIT <= self.y <= MAG_LIMIT,
        ensures
            r@ == vnorm(self@),
            -SCALE <= r.x <= SCALE,
            -SCALE <= r.y <= SCALE,
    {
        let m = self.mag();
        if m < NORM_EPSILON {
            return Self::zero();
        }
        proof {
            assert(iabs((self.x as int) * (SCALE as int)) == iabs(self.x as int) * (SCALE as int)
                && iabs((self.y as int) * (SCALE as int)) == iabs(self.y as int) * (SCALE as int))
                by (nonlinear_arith);
            assert(iabs(self.x as int) * (SCALE as int) <= (SCALE as int) * (m as int));
            assert(iabs(self.y as int) * (SCALE as int) <= (SCALE as int) * (m as int));
            lemma_tdiv_abs_le((self.x as int) * (SCALE as int), m as int, SCALE as int);
            lemma_tdiv_abs_le((self.y as int) * (SCALE as int), m as int, SCALE as int);
        }
        let qx: i128 = ((self.x as i128) * 1000) / (m as i128);
        let qy: i128 = ((self.y as i128) * 1000) / (m as i128);
        Self { x: qx as i64, y: qy as i64 }
    }

    pub fn neg(self) -> (r: Self)
        requires
            -ADD_LIMIT <= self.x <= ADD_LIMIT,
            -ADD_LIMIT <= self.y <= ADD_LIMIT,
        ensures
            r@ == vneg(self@),
    {
        Self { x: -self.x, y: -self.y }
    }

    pub fn add(self, rhs: Self) -> (r: Self)
        requires
            -ADD_LIMIT <= self.x <= ADD_LIMIT,
            -ADD_LIMIT <= self.y <= ADD_LIMIT,
            -ADD_LIMIT <= rhs.x <= ADD_LIMIT,
            -ADD_LIMIT <= rhs.y <= ADD_LIMIT,
        ensures
            r@ == vadd(self@, rhs@),
    {
        Self { x: self.x + rhs.x, y: self.y + rhs.y }
    }

    pub fn add_assign(&mut self, rhs: Self)
        requires
            -ADD_LIMIT <= old(self).x <= ADD_LIMIT,
            -ADD_LIMIT <= old(self).y <= ADD_LIMIT,
            -ADD_LIMIT <= rhs.x <= ADD_LIMIT,
            -ADD_LIMIT <= rhs.y <= ADD_LIMIT,
        ensures
            final(self)@ == vadd(old(self)@, rhs@),
    {
        self.x = self.x + rhs.x;
        self.y = self.y + rhs.y;
    }

    pub fn sub(self, rhs: Self) -> (r: Self)
        requires
            -ADD_LIMIT <= self.x <= ADD_LIMIT,
            -ADD_LIMIT <= self.y <= ADD_LIMIT,
            -ADD_LIMIT <= rhs.x <= ADD_LIMIT,
            -ADD_LIMIT <= rhs.y <= ADD_LIMIT,
        ensures
            r@ == vsub(self@, rhs@),
    {
        Self { x: self.x - rhs.x, y: self.y - rhs.y }
    }

    pub fn sub_assign(&mut self, rhs: Self)
        requires
            -ADD_LIMIT <= old(self).x <= ADD_LIMIT,
            -ADD_LIMIT <= old(self).y <= ADD_LIMIT,
            -ADD_LIMIT <= rhs.x <= ADD_LIMIT,
            -ADD_LIMIT <= rhs.y <= ADD_LIMIT,
        ensures
            final(self)@ == vsub(old(self)@, rhs@),
    {
        self.x = self.x - rhs.x;
        self.y = self.y - rhs.y;
    }

    pub fn mul(self, rhs: i64) -> (r: Self)
        requires
            -MUL_VEC_LIMIT <= self.x <= MUL_VEC_LIMIT,
            -MUL_VEC_LIMIT <= self.y <= MUL_VEC_LIMIT,
            -MUL_SCALAR_LIMIT <= rhs <= MUL_SCALAR_LIMIT,
        ensures
            r@ == vscale(self@, rhs as int),
    {
        proof {
            assert(-9_000_000_000_000_000_000 <= (self.x as int) * (rhs as int)
                <= 9_000_000_000_000_000_000
                && -9_000_000_000_000_000_000 <= (self.y as int) * (rhs as int)
                <= 9_000_000_000_000_000_000) by (nonlinear_arith)
                requires
                    -3_000_000_000_000 <= self.x <= 3_000_000_000_000,
                    -3_000_000_000_000 <= self.y <= 3_000_000_000_000,
                    -3_000_000 <= rhs <= 3_000_000,
            ;
        }
        Self { x: (self.x * rhs) / 1000, y: (self.y * rhs) / 1000 }
    }

    pub fn mul_assign(&mut self, rhs: i64)
        requires
            -MUL_VEC_LIMIT <= old(self).x <= MUL_VEC_LIMIT,
            -MUL_VEC_LIMIT <= old(self).y <= MUL_VEC_LIMIT,
            -MUL_SCALAR_LIMIT <= rhs <= MUL_SCALAR_LIMIT,
        ensures
            final(self)@ == vscale(old(self)@, rhs as int),
    {
        let r = self.mul(rhs);
        self.x = r.x;
        self.y = r.y;
    }

    /// Componentwise division by a plain count. The divisor is a neighbour
    /// count, which the caller guarantees nonzero; counts are positive, so
    /// the domain here is the positive divisors, with the quotient fixed
    /// exactly (truncation toward zero).
    pub fn div(self, rhs: i64) -> (r: Self)
        requires
            rhs > 0,
        ensures
            r@ == vdivn(self@, rhs as int),
    {
        Self { x: self.x / rhs, y: self.y / rhs }
    }

    pub fn div_assign(&mut self, rhs: i64)
        requires
            rhs > 0,
        ensures
            final(self)@ == vdivn(old(self)@, rhs as int),
    {
        let r = self.div(rhs);
        self.x = r.x;
        self.y = r.y;
    }
}

/// Vector addition is commutative.
pub proof fn lemma_add_commutes(a: Vec2, b: Vec2)
    ensures
        vadd(a@, b@) == vadd(b@, a@),
{
}

/// Subtracting in one order negates subtracting in the other.
pub proof fn lemma_sub_negates(a: Vec2, b: Vec2)
    ensures
        vsub(a@, b@) == vneg(vsub(b@, a@)),
{
}

/// A vector shorter than the epsilon normalises to exactly zero.
pub proof fn lemma_norm_short_is_zero(v: Vec2)
    requires
        vmag(v@) < NORM_EPSILON,
    ensures
        vnorm(v@) == (0int, 0int),
{
}

/// Squared-length bounds of a normalised vector: writing `m` for the length
/// of `a` and `s` for the squared length of its normalisation, `s` sits
/// between just under one squared unit and `(1 + 2/m)` squared units.
pub proof fn lemma_norm_sq_bounds(a: (int, int))
    requires
        1 <= vmag(a),
    ensures
        iabs(vnorm(a).0) <= 1000,
        iabs(vnorm(a).1) <= 1000,
        mag_sq(vnorm(a)) * vmag(a) * vmag(a) <= 1_000_000 * (vmag(a) * vmag(a) + 2 * vmag(a)),
        995_998 < mag_sq(vnorm(a)),
{
    let x = a.0;
    let y = a.1;
    let n = mag_sq(a);
    assert(x * x >= 0 && y * y >= 0) by (nonlinear_arith);
    lemma_isqrt_char(n);
    let m = vmag(a);
    lemma_sq_le_isqrt(x, n);
    lemma_sq_le_isqrt(y, n);
    let nx = tdiv(x * 1000, m);
    let ny = tdiv(y * 1000, m);
    assert(vnorm(a) == (nx, ny));
    lemma_tdiv_abs(x * 1000, m);
    lemma_tdiv_abs(y * 1000, m);
    assert(iabs(x * 1000) == iabs(x) * 1000 && iabs(y * 1000) == iabs(y) * 1000)
        by (nonlinear_arith);
    assert(iabs(x) * 1000 <= 1000 * m && iabs(y) * 1000 <= 1000 * m);
    lemma_tdiv_abs_le(x * 1000, m, 1000);
    lemma_tdiv_abs_le(y * 1000, m, 1000);
    assert((m + 1) * (m + 1) == m * m + 2 * m + 1) by (nonlinear_arith);
    // Upper bound: square |nx| * m <= |x| * 1000 and sum the components.
    assert(nx * nx * (m * m) <= x * x * 1_000_000 && ny * ny * (m * m) <= y * y * 1_000_000)
        by (nonlinear_arith)
        requires
            iabs(nx) * m <= iabs(x) * 1000,
            iabs(ny) * m <= iabs(y) * 1000,
            m >= 1,
            iabs(nx) >= 0,
            iabs(ny) >= 0,
            iabs(nx) == if nx >= 0 { nx } else { -nx },
            iabs(ny) == if ny >= 0 { ny } else { -ny },
            iabs(x) == if x >= 0 { x } else { -x },
            iabs(y) == if y >= 0 { y } else { -y },
    ;
    assert(mag_sq(vnorm(a)) * vmag(a) * vmag(a)
        <= 1_000_000 * (vmag(a) * vmag(a) + 2 * vmag(a))) by (nonlinear_arith)
        requires
            nx * nx * (m * m) <= x * x * 1_000_000,
            ny * ny * (m * m) <= y * y * 1_000_000,
            x * x + y * y <= m * m + 2 * m,
            m == vmag(a),
            mag_sq(vnorm(a)) == nx * nx + ny * ny,
            vmag(a) >= 1,
    ;
    // Lower bound: square |x| * 1000 < (|nx| + 1) * m and sum the components.
    assert(x * x * 1_000_000 < (iabs(nx) + 1) * (iabs(nx) + 1) * (m * m)
        && y * y * 1_000_000 < (iabs(ny) + 1) * (iabs(ny) + 1) * (m * m)) by (nonlinear_arith)
        requires
            iabs(x) * 1000 < (iabs(nx) + 1) * m,
            iabs(y) * 1000 < (iabs(ny) + 1) * m,
            m >= 1,
            iabs(nx) >= 0,
            iabs(ny) >= 0,
            iabs(x) == if x >= 0 { x } else { -x },
            iabs(y) == if y >= 0 { y } else { -y },
    ;
    let anx = iabs(nx);
    let any2 = iabs(ny);
    let k = (anx + 1) * (anx + 1) + (any2 + 1) * (any2 + 1);
    assert(k * (m * m) == (anx + 1) * (anx + 1) * (m * m) + (any2 + 1) * (any2 + 1) * (m * m))
        by (nonlinear_arith)
        requires
            k == (anx + 1) * (anx + 1) + (any2 + 1) * (any2 + 1),
    ;
    assert((x * x + y * y) * 1_000_000 == x * x * 1_000_000 + y * y * 1_000_000)
        by (nonlinear_arith);
    assert(m * m * 1_000_000 <= (x * x + y * y) * 1_000_000) by (nonlinear_arith)
        requires
            m * m <= x * x + y * y,
    ;
    assert(m * m * 1_000_000 < k * (m * m));
    assert(1_000_000 < k) by (nonlinear_arith)
        requires
            m * m * 1_000_000 < k * (m * m),
            m >= 1,
    ;
    assert(k <= nx * nx + ny * ny + 4_002) by (nonlinear_arith)
        requires
            k == (anx + 1) * (anx + 1) + (any2 + 1) * (any2 + 1),
            0 <= anx <= 1000,
            0 <= any2 <= 1000,
            anx == if nx >= 0 { nx } else { -nx },
            any2 == if ny >= 0 { ny } else { -ny },
    ;
    assert(995_998 < mag_sq(vnorm(a)));
}

/// Normalising keeps the length within a fixed-point step of one unit:
/// any vector at least one unit long normalises to a length between
/// 0.997 and 1.000 units.
pub proof fn lemma_norm_unit(v: Vec2)
    requires
        SCALE <= vmag(v@),
    ensures
        997 <= vmag(vnorm(v@)) <= SCALE,
{
    lemma_norm_sq_bounds(v@);
    let m = vmag(v@);
    let s = mag_sq(vnorm(v@));
    assert(s <= 1_002_000) by (nonlinear_arith)
        requires
            s * m * m <= 1_000_000 * (m * m + 2 * m),
            m >= 1000,
    ;
    lemma_isqrt_below(s, 1000);
    lemma_isqrt_above(s, 997);
}

/// Even below one unit the normalised length stays within fixed-point
/// tolerance of a unit: any vector long enough to escape the epsilon case
/// normalises to a length between 0.997 and 1.732 units (the coarse
/// fixed-point grid near the origin allows no tighter bound).
pub proof fn lemma_norm_near_unit(v: Vec2)
    requires
        NORM_EPSILON <= vmag(v@),
    ensures
        997 <= vmag(vnorm(v@)) <= 1732,
{
    lemma_norm_sq_bounds(v@);
    let m = vmag(v@);
    let s = mag_sq(vnorm(v@));
    assert(s <= 3_000_000) by (nonlinear_arith)
        requires
            s * m * m <= 1_000_000 * (m * m + 2 * m),
            m >= 1,
    ;
    lemma_isqrt_below(s, 1732);
    lemma_isqrt_above(s, 997);
}

} // verus!
