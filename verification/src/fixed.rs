//! Fixed-point scalars: the unit, the limits, rounding division and the
//! integer square root.

use vstd::prelude::*;
use vstd::arithmetic::div_mod::{lemma_div_pos_is_pos, lemma_fundamental_div_mod, lemma_mod_bound};

verus! {

/// The raw value of the number one: a scalar `s` stands for `s / ONE`.
pub const ONE: i64 = 65536;

/// `ONE * ONE`, the factor by which squared lengths are widened before
/// their root is taken.
pub const ONE_SQUARED: u128 = 4294967296;

/// Largest magnitude of a coordinate, a weight or a speed (2^40).
pub const LIMIT: i64 = 1099511627776;

/// Largest magnitude of a component of a vector that can be normalized
/// (2^46).
pub const VECTOR_LIMIT: i64 = 70368744177664;

/// A vector shorter than this has no direction.
pub const EPSILON: i64 = 16;

/// `EPSILON * EPSILON`.
pub const EPSILON_SQUARED: u128 = 256;

/// Quotient of `a` by a positive `b`, rounded toward zero.
pub open spec fn div_toward_zero(a: int, b: int) -> int {
    if a >= 0 {
        a / b
    } else {
        -((-a) / b)
    }
}

/// The distance of `a` from zero.
pub open spec fn magnitude(a: int) -> int {
    if a >= 0 {
        a
    } else {
        -a
    }
}

/// A quotient of a natural number by a positive one is the largest
/// multiplier that keeps the product at or below the dividend.
pub proof fn lemma_quotient_bounds(a: int, b: int)
    requires
        0 <= a,
        0 < b,
    ensures
        0 <= a / b,
        (a / b) * b <= a < (a / b + 1) * b,
{
    lemma_fundamental_div_mod(a, b);
    lemma_mod_bound(a, b);
    lemma_div_pos_is_pos(a, b);
    let q = a / b;
    assert(q * b == b * q && (q + 1) * b == b * q + b) by (nonlinear_arith);
}

/// Rounding toward zero divides the magnitude and keeps the sign.
pub proof fn lemma_div_toward_zero_magnitude(a: int, b: int)
    requires
        0 < b,
    ensures
        magnitude(div_toward_zero(a, b)) == magnitude(a) / b,
        a >= 0 ==> div_toward_zero(a, b) >= 0,
        a <= 0 ==> div_toward_zero(a, b) <= 0,
{
    lemma_div_pos_is_pos(magnitude(a), b);
}

/// A quotient rounded toward zero stays within `bound` where the dividend
/// stays within `n * bound`.
pub proof fn lemma_quotient_within(a: int, n: int, bound: int)
    requires
        0 < n,
        0 <= bound,
        -(n * bound) <= a <= n * bound,
    ensures
        -bound <= div_toward_zero(a, n) <= bound,
{
    let q = magnitude(a) / n;
    lemma_quotient_bounds(magnitude(a), n);
    lemma_div_toward_zero_magnitude(a, n);
    assert(q <= bound) by (nonlinear_arith)
        requires
            q * n <= n * bound,
            0 < n,
    ;
}

/// The product of two bounded integers is bounded by the product of the
/// bounds.
pub proof fn lemma_product_bound(a: int, b: int, la: int, lb: int)
    requires
        -la <= a <= la,
        -lb <= b <= lb,
    ensures
        -(la * lb) <= a * b <= la * lb,
{
    assert(-(la * lb) <= a * b <= la * lb) by (nonlinear_arith)
        requires
            -la <= a <= la,
            -lb <= b <= lb,
    ;
}

/// `r` is the largest natural number whose square does not exceed `n`.
pub open spec fn is_floor_sqrt(n: int, r: int) -> bool {
    0 <= r && r * r <= n < (r + 1) * (r + 1)
}

/// The integer square root of `n`, rounded down (0 for a negative `n`).
pub open spec fn floor_sqrt(n: int) -> int
    decreases n,
{
    if n <= 0 {
        0
    } else {
        let r = floor_sqrt(n - 1);
        if (r + 1) * (r + 1) <= n {
            r + 1
        } else {
            r
        }
    }
}

/// `floor_sqrt(n)` squared is at most `n`, and the next square is beyond it.
pub proof fn lemma_floor_sqrt_bounds(n: int)
    requires
        0 <= n,
    ensures
        is_floor_sqrt(n, floor_sqrt(n)),
    decreases n,
{
    if n > 0 {
        lemma_floor_sqrt_bounds(n - 1);
        let r = floor_sqrt(n - 1);
        assert(r * r <= (r + 1) * (r + 1) < (r + 1 + 1) * (r + 1 + 1)) by (nonlinear_arith)
            requires
                0 <= r,
        ;
    }
}

/// Only one number lies between the bounds that `is_floor_sqrt` sets.
pub proof fn lemma_floor_sqrt_unique(n: int, r: int)
    requires
        is_floor_sqrt(n, r),
    ensures
        r == floor_sqrt(n),
{
    assert(0 <= n) by (nonlinear_arith)
        requires
            r * r <= n,
    ;
    lemma_floor_sqrt_bounds(n);
    let q = floor_sqrt(n);
    if r < q {
        assert((r + 1) * (r + 1) <= q * q) by (nonlinear_arith)
            requires
                0 <= r,
                r + 1 <= q,
        ;
    } else if q < r {
        assert((q + 1) * (q + 1) <= r * r) by (nonlinear_arith)
            requires
                0 <= q,
                q + 1 <= r,
        ;
    }
}

/// The root grows with its argument.
pub proof fn lemma_floor_sqrt_monotonic(a: int, b: int)
    requires
        0 <= a <= b,
    ensures
        floor_sqrt(a) <= floor_sqrt(b),
{
    lemma_floor_sqrt_bounds(a);
    lemma_floor_sqrt_bounds(b);
    let p = floor_sqrt(a);
    let q = floor_sqrt(b);
    if q < p {
        assert((q + 1) * (q + 1) <= p * p) by (nonlinear_arith)
            requires
                0 <= q,
                q + 1 <= p,
        ;
    }
}

/// Integer square root by bisection.
pub fn isqrt(n: u128) -> (r: u64)
    ensures
        r as int == floor_sqrt(n as int),
{
    let mut low: u128 = 0;
    let mut high: u128 = 0x1_0000_0000_0000_0000;
    assert(high * high > n) by (nonlinear_arith)
        requires
            high == 0x1_0000_0000_0000_0000,
            n <= u128::MAX,
    ;
    while high - low > 1
        invariant
            low < high <= 0x1_0000_0000_0000_0000,
            low * low <= n < high * high,
        decreases high - low,
    {
        let mid: u128 = low + (high - low) / 2;
        assert(mid * mid <= u128::MAX) by (nonlinear_arith)
            requires
                mid <= 0xFFFF_FFFF_FFFF_FFFF,
        ;
        if mid * mid <= n {
            low = mid;
        } else {
            high = mid;
        }
    }
    proof {
        lemma_floor_sqrt_unique(n as int, low as int);
    }
    low as u64
}

/// Division of signed integers that rounds toward zero.
pub fn quotient(a: i128, b: i128) -> (q: i128)
    requires
        b > 0,
    ensures
        q == div_toward_zero(a as int, b as int),
{
    a / b
}

} // verus!
