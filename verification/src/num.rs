//! Integer helpers shared by the simulation: truncating division and
//! remainder (the semantics of Rust's `/` and `%` on signed integers) and a
//! flooring integer square root, with the characterisation lemmas the vector
//! and motion proofs build on.
use vstd::prelude::*;
use vstd::arithmetic::div_mod::{
    lemma_div_is_ordered, lemma_div_pos_is_pos, lemma_fundamental_div_mod,
};

verus! {

/// Absolute value over the mathematical integers.
pub open spec fn iabs(a: int) -> int {
    if a >= 0 {
        a
    } else {
        -a
    }
}

/// Truncating division (toward zero), the meaning of `/` on `i64` for a
/// positive divisor.
pub open spec fn tdiv(a: int, b: int) -> int {
    if a >= 0 {
        a / b
    } else {
        -((-a) / b)
    }
}

/// Truncating remainder, the meaning of `%` on `i64` for a positive divisor.
pub open spec fn tmod(a: int, b: int) -> int {
    a - b * tdiv(a, b)
}

/// Flooring integer square root, defined by counting up.
pub open spec fn isqrt_int(n: int) -> int
    decreases n,
{
    if n <= 0 {
        0
    } else {
        let r = isqrt_int(n - 1);
        if (r + 1) * (r + 1) <= n {
            r + 1
        } else {
            r
        }
    }
}

/// `isqrt_int(n)` is the flooring square root: its square is at most `n` and
/// the next square is beyond `n`.
pub proof fn lemma_isqrt_char(n: int)
    requires
        n >= 0,
    ensures
        0 <= isqrt_int(n),
        isqrt_int(n) * isqrt_int(n) <= n,
        n < (isqrt_int(n) + 1) * (isqrt_int(n) + 1),
    decreases n,
{
    if n > 0 {
        lemma_isqrt_char(n - 1);
        let r = isqrt_int(n - 1);
        if (r + 1) * (r + 1) <= n {
            assert((r + 1 + 1) * (r + 1 + 1) > (r + 1) * (r + 1) + 1) by (nonlinear_arith)
                requires
                    r >= 0,
            ;
            assert(n - 1 < (r + 1) * (r + 1));
        }
    }
}

/// The flooring square root is the only nonnegative `r` squeezed between
/// `r * r <= n` and `n < (r + 1) * (r + 1)`.
pub proof fn lemma_isqrt_unique(n: int, r: int)
    requires
        n >= 0,
        r >= 0,
        r * r <= n,
        n < (r + 1) * (r + 1),
    ensures
        r == isqrt_int(n),
{
    lemma_isqrt_char(n);
    let s = isqrt_int(n);
    if r < s {
        assert((r + 1) * (r + 1) <= s * s) by (nonlinear_arith)
            requires
                0 <= r,
                r < s,
            ;
    }
    if s < r {
        assert((s + 1) * (s + 1) <= r * r) by (nonlinear_arith)
            requires
                0 <= s,
                s < r,
            ;
    }
}

/// Any bound whose next square exceeds `n` bounds the square root from above.
pub proof fn lemma_isqrt_below(n: int, b: int)
    requires
        0 <= n,
        0 <= b,
        n < (b + 1) * (b + 1),
    ensures
        isqrt_int(n) <= b,
{
    lemma_isqrt_char(n);
    let s = isqrt_int(n);
    if s > b {
        assert((b + 1) * (b + 1) <= s * s) by (nonlinear_arith)
            requires
                0 <= b,
                b < s,
            ;
    }
}

/// Any square below `n` bounds the square root from below.
pub proof fn lemma_isqrt_above(n: int, b: int)
    requires
        0 <= b,
        b * b <= n,
    ensures
        b <= isqrt_int(n),
{
    lemma_isqrt_char(n);
    let s = isqrt_int(n);
    if s < b {
        assert((s + 1) * (s + 1) <= b * b) by (nonlinear_arith)
            requires
                0 <= s,
                s < b,
            ;
    }
}

/// A value whose square is at most `n` lies within `isqrt_int(n)` in
/// magnitude.
pub proof fn lemma_sq_le_isqrt(x: int, n: int)
    requires
        x * x <= n,
    ensures
        -isqrt_int(n) <= x <= isqrt_int(n),
{
    assert(n >= 0) by (nonlinear_arith)
        requires
            x * x <= n,
    ;
    lemma_isqrt_char(n);
    let s = isqrt_int(n);
    if x > s || x < -s {
        assert((s + 1) * (s + 1) <= x * x) by (nonlinear_arith)
            requires
                0 <= s,
                x > s || x < -s,
        ;
    }
}

/// Truncating division by a positive divisor has the magnitude of the
/// flooring quotient of the magnitudes.
pub proof fn lemma_tdiv_abs(a: int, b: int)
    requires
        b > 0,
    ensures
        iabs(tdiv(a, b)) == iabs(a) / b,
        iabs(tdiv(a, b)) * b <= iabs(a),
        iabs(a) < (iabs(tdiv(a, b)) + 1) * b,
{
    if a < 0 {
        lemma_div_pos_is_pos(-a, b);
    }
    lemma_fundamental_div_mod(iabs(a), b);
    let q = iabs(a) / b;
    assert(q * b == b * q) by (nonlinear_arith);
    assert((q + 1) * b == b * q + b) by (nonlinear_arith);
}

/// Dividing within `c * b` in magnitude stays within `c`.
pub proof fn lemma_tdiv_abs_le(a: int, b: int, c: int)
    requires
        b > 0,
        0 <= c,
        iabs(a) <= c * b,
    ensures
        iabs(tdiv(a, b)) <= c,
{
    lemma_tdiv_abs(a, b);
    let q = iabs(tdiv(a, b));
    if q > c {
        assert((c + 1) * b <= q * b) by (nonlinear_arith)
            requires
                b > 0,
                c + 1 <= q,
        ;
        assert(c * b + b == (c + 1) * b) by (nonlinear_arith);
    }
}

/// Truncating division recovers the factor from an exact multiple.
pub proof fn lemma_tdiv_exact(k: int, b: int)
    requires
        b > 0,
    ensures
        tdiv(k * b, b) == k,
{
    if k >= 0 {
        vstd::arithmetic::div_mod::lemma_div_multiples_vanish(k, b);
        assert(b * k == k * b) by (nonlinear_arith);
    } else {
        vstd::arithmetic::div_mod::lemma_div_multiples_vanish(-k, b);
        assert(b * -k == -(k * b)) by (nonlinear_arith);
        assert(k * b < 0) by (nonlinear_arith)
            requires
                k < 0,
                b > 0,
        ;
    }
}

/// The truncating remainder agrees with Rust's `%` on signed integers for a
/// positive divisor.
pub proof fn lemma_tmod_is_rem(a: int, b: int)
    requires
        b > 0,
    ensures
        a >= 0 ==> tmod(a, b) == a % b,
        a < 0 ==> tmod(a, b) == -((-a) % b),
{
    if a >= 0 {
        lemma_fundamental_div_mod(a, b);
    } else {
        lemma_fundamental_div_mod(-a, b);
        assert(b * -((-a) / b) == -(b * ((-a) / b))) by (nonlinear_arith);
    }
}

/// The truncating remainder by a positive divisor lies strictly between
/// `-b` and `b`, and agrees with the nonnegative remainder when the
/// dividend is nonnegative.
pub proof fn lemma_tmod_range(a: int, b: int)
    requires
        b > 0,
    ensures
        -b < tmod(a, b) < b,
        a >= 0 ==> 0 <= tmod(a, b),
{
    if a >= 0 {
        lemma_fundamental_div_mod(a, b);
    } else {
        lemma_fundamental_div_mod(-a, b);
        assert(b * -((-a) / b) == -(b * ((-a) / b))) by (nonlinear_arith);
    }
}

/// A product of bounded factors is bounded by the product of the bounds.
pub proof fn lemma_mul_range(x: int, y: int, a: int, b: int)
    requires
        -a <= x <= a,
        -b <= y <= b,
    ensures
        -(a * b) <= x * y <= a * b,
{
    assert(-(a * b) <= x * y <= a * b) by (nonlinear_arith)
        requires
            -a <= x <= a,
            -b <= y <= b,
    ;
}

/// Truncating division of a value within `c * b` by `b` stays within `c`.
pub proof fn lemma_tdiv_range(a: int, b: int, c: int)
    requires
        b > 0,
        -(c * b) <= a <= c * b,
    ensures
        -c <= tdiv(a, b) <= c,
{
    assert(c >= 0) by (nonlinear_arith)
        requires
            b > 0,
            -(c * b) <= c * b,
    ;
    lemma_tdiv_abs_le(a, b, c);
}

/// Truncating division of a nonnegative value by a positive divisor is the
/// nonnegative flooring quotient.
pub proof fn lemma_tdiv_nonneg(a: int, b: int)
    requires
        0 <= a,
        0 < b,
    ensures
        tdiv(a, b) == a / b,
        0 <= tdiv(a, b),
{
    lemma_div_pos_is_pos(a, b);
}

/// Division of ordered nonnegative numerators by a positive divisor keeps
/// the order.
pub proof fn lemma_div_ordered(a: int, b: int, d: int)
    requires
        0 <= a <= b,
        0 < d,
    ensures
        a / d <= b / d,
{
    lemma_div_is_ordered(a, b, d);
}

/// Executable flooring square root over the range the simulation needs,
/// found by binary search.
pub fn isqrt_u128(n: u128) -> (r: u64)
    requires
        n < 0x40000000000000000000000000000000,
    ensures
        r == isqrt_int(n as int),
{
    let mut lo: u128 = 0;
    let mut hi: u128 = 0x8000000000000000;
    proof {
        assert((0x8000000000000000 as int) * (0x8000000000000000 as int)
            == 0x40000000000000000000000000000000) by (nonlinear_arith);
    }
    while hi - lo > 1
        invariant
            lo < hi,
            hi <= 0x8000000000000000,
            lo * lo <= n,
            (n as int) < (hi as int) * (hi as int),
        decreases hi - lo,
    {
        let mid = lo + (hi - lo) / 2;
        proof {
            assert((mid as int) * (mid as int) < 0x100000000000000000000000000000000)
                by (nonlinear_arith)
                requires
                    mid <= 0x8000000000000000,
            ;
        }
        if mid * mid <= n {
            lo = mid;
        } else {
            hi = mid;
        }
    }
    proof {
        assert(hi == lo + 1);
        lemma_isqrt_unique(n as int, lo as int);
    }
    lo as u64
}

} // verus!
