//! Two-dimensional vectors: the mathematical model over `int`, and the
//! fixed-point type that the simulation stores.

use vstd::prelude::*;
use crate::fixed::{
    div_toward_zero, floor_sqrt, isqrt, lemma_div_toward_zero_magnitude, lemma_floor_sqrt_bounds,
    lemma_floor_sqrt_monotonic, lemma_floor_sqrt_unique, lemma_product_bound,
    lemma_quotient_bounds, magnitude, quotient, EPSILON_SQUARED, ONE, ONE_SQUARED, VECTOR_LIMIT,
};

verus! {

/// A vector of two unbounded integers, each a count of `1 / ONE` units.
pub struct Vector {
    pub x: int,
    pub y: int,
}

impl Vector {
    pub open spec fn zero() -> Vector {
        Vector { x: 0, y: 0 }
    }

    pub open spec fn plus(self, other: Vector) -> Vector {
        Vector { x: self.x + other.x, y: self.y + other.y }
    }

    pub open spec fn minus(self, other: Vector) -> Vector {
        Vector { x: self.x - other.x, y: self.y - other.y }
    }

    /// The product with the fixed-point scalar `k`, rounded toward zero.
    pub open spec fn scaled(self, k: int) -> Vector {
        Vector {
            x: div_toward_zero(self.x * k, ONE as int),
            y: div_toward_zero(self.y * k, ONE as int),
        }
    }

    /// The quotient by the whole number `n`, rounded toward zero.
    pub open spec fn divided(self, n: int) -> Vector {
        Vector { x: div_toward_zero(self.x, n), y: div_toward_zero(self.y, n) }
    }

    /// The square of the Euclidean length.
    pub open spec fn norm_sq(self) -> int {
        self.x * self.x + self.y * self.y
    }

    /// Each component brought back into `-bound ..= bound`.
    pub open spec fn clamped(self, bound: int) -> Vector {
        Vector {
            x: if self.x < -bound {
                -bound
            } else if self.x > bound {
                bound
            } else {
                self.x
            },
            y: if self.y < -bound {
                -bound
            } else if self.y > bound {
                bound
            } else {
                self.y
            },
        }
    }

    /// Both components lie within `bound` of zero.
    pub open spec fn fits(self, bound: int) -> bool {
        -bound <= self.x <= bound && -bound <= self.y <= bound
    }

    /// The length in units of `1 / (ONE * ONE)`, rounded down.
    pub open spec fn fine_length(self) -> int {
        floor_sqrt(self.norm_sq() * ONE_SQUARED as int)
    }

    /// A vector shorter than `EPSILON` has no direction.
    pub open spec fn is_degenerate(self) -> bool {
        self.norm_sq() < EPSILON_SQUARED as int
    }

    /// The vector of length one in the direction of `self`, each component
    /// rounded toward zero; `None` for a degenerate vector.
    pub open spec fn normalized(self) -> Option<Vector> {
        if self.is_degenerate() {
            None
        } else {
            Some(
                Vector {
                    x: div_toward_zero(self.x * ONE_SQUARED as int, self.fine_length()),
                    y: div_toward_zero(self.y * ONE_SQUARED as int, self.fine_length()),
                },
            )
        }
    }

    /// The length is within three parts in `ONE` below one, and less than
    /// one part above it.
    pub open spec fn is_unit(self) -> bool {
        (ONE - 3) * (ONE - 3) <= self.norm_sq() < (ONE + 1) * (ONE + 1)
    }
}

proof fn lemma_square_of_magnitude(a: int)
    ensures
        magnitude(a) * magnitude(a) == a * a,
{
    assert((-a) * (-a) == a * a) by (nonlinear_arith);
}

proof fn lemma_squares_ordered(a: int, b: int)
    requires
        0 <= a <= b,
    ensures
        a * a <= b * b,
        a < b ==> a * a < b * b,
{
    assert(a * a <= b * b) by (nonlinear_arith)
        requires
            0 <= a <= b,
    ;
    if a < b {
        assert(a * a < b * b) by (nonlinear_arith)
            requires
                0 <= a < b,
        ;
    }
}

/// With `l` the rounded-down root of `norm * one * one`, and `qx`, `qy`
/// the rounded-down quotients of `ax * one * one` and `ay * one * one` by
/// `l`, the squares of `qx` and `qy` sum to nearly `one * one`.
proof fn lemma_quotients_near_unit(ax: int, ay: int, one: int, l: int, qx: int, qy: int)
    requires
        0 <= ax,
        0 <= ay,
        1 <= one <= l,
        0 <= qx,
        0 <= qy,
        l * l <= (ax * ax + ay * ay) * (one * one) < (l + 1) * (l + 1),
        qx * l <= ax * (one * one) < (qx + 1) * l,
        qy * l <= ay * (one * one) < (qy + 1) * l,
    ensures
        qx * qx + qy * qy < (one + 1) * (one + 1),
        qx <= one,
        qy <= one,
        one * one - 4 * one - 2 < qx * qx + qy * qy,
{
    let m = one * one;
    let big = (ax * ax + ay * ay) * m;
    let q = qx * qx + qy * qy;
    let px = ax * m;
    let py = ay * m;
    assert(px * px + py * py == m * big) by (nonlinear_arith)
        requires
            px == ax * m,
            py == ay * m,
            big == (ax * ax + ay * ay) * m,
    ;
    assert(0 <= qx * l && 0 <= qy * l && 0 < m && 0 < l * l) by (nonlinear_arith)
        requires
            0 <= qx,
            0 <= qy,
            1 <= one <= l,
            m == one * one,
    ;
    // Above: q * l^2 <= m * big < (one * (l + 1))^2 <= ((one + 1) * l)^2.
    lemma_squares_ordered(qx * l, px);
    lemma_squares_ordered(qy * l, py);
    assert(q * (l * l) == (qx * l) * (qx * l) + (qy * l) * (qy * l)) by (nonlinear_arith)
        requires
            q == qx * qx + qy * qy,
    ;
    let t = one * (l + 1);
    let u = (one + 1) * l;
    assert(0 <= t <= u) by (nonlinear_arith)
        requires
            1 <= one <= l,
            t == one * (l + 1),
            u == (one + 1) * l,
    ;
    lemma_squares_ordered(t, u);
    assert(t * t == m * ((l + 1) * (l + 1))) by (nonlinear_arith)
        requires
            t == one * (l + 1),
            m == one * one,
    ;
    assert(m * big < m * ((l + 1) * (l + 1))) by (nonlinear_arith)
        requires
            0 < m,
            big < (l + 1) * (l + 1),
    ;
    assert(u * u == ((one + 1) * (one + 1)) * (l * l)) by (nonlinear_arith)
        requires
            u == (one + 1) * l,
    ;
    assert(q * (l * l) < ((one + 1) * (one + 1)) * (l * l));
    assert(q < (one + 1) * (one + 1)) by (nonlinear_arith)
        requires
            q * (l * l) < ((one + 1) * (one + 1)) * (l * l),
            0 < l * l,
    ;
    assert(qx <= one && qy <= one) by (nonlinear_arith)
        requires
            0 <= qx,
            0 <= qy,
            1 <= one,
            qx * qx + qy * qy < (one + 1) * (one + 1),
    ;
    // Below: m * l^2 <= m * big < ((qx + 1)^2 + (qy + 1)^2) * l^2.
    assert(0 <= px && 0 <= py) by (nonlinear_arith)
        requires
            0 <= ax,
            0 <= ay,
            0 < m,
            px == ax * m,
            py == ay * m,
    ;
    lemma_squares_ordered(px, (qx + 1) * l);
    lemma_squares_ordered(py, (qy + 1) * l);
    let s = (qx + 1) * (qx + 1) + (qy + 1) * (qy + 1);
    assert(s * (l * l) == ((qx + 1) * l) * ((qx + 1) * l) + ((qy + 1) * l) * ((qy + 1) * l))
        by (nonlinear_arith)
        requires
            s == (qx + 1) * (qx + 1) + (qy + 1) * (qy + 1),
    ;
    assert(m * (l * l) <= m * big) by (nonlinear_arith)
        requires
            0 < m,
            l * l <= big,
    ;
    assert(m < s) by (nonlinear_arith)
        requires
            m * (l * l) < s * (l * l),
            0 < l * l,
    ;
    assert(s == q + 2 * qx + 2 * qy + 2) by (nonlinear_arith)
        requires
            s == (qx + 1) * (qx + 1) + (qy + 1) * (qy + 1),
            q == qx * qx + qy * qy,
    ;
}

/// Normalizing gives a vector of length one, to within rounding: every
/// vector that has a direction normalizes to a unit vector whose components
/// do not exceed `ONE`.
pub proof fn lemma_normalized_is_unit(v: Vector)
    requires
        !v.is_degenerate(),
    ensures
        v.normalized() matches Some(u) && u.is_unit() && u.fits(ONE as int),
        ONE <= v.fine_length(),
{
    let one = ONE as int;
    let m = ONE_SQUARED as int;
    let ax = magnitude(v.x);
    let ay = magnitude(v.y);
    let big = v.norm_sq() * m;
    let l = v.fine_length();
    lemma_square_of_magnitude(v.x);
    lemma_square_of_magnitude(v.y);
    assert(m <= big) by (nonlinear_arith)
        requires
            big == v.norm_sq() * m,
            1 <= v.norm_sq(),
            0 < m,
    ;
    lemma_floor_sqrt_bounds(big);
    lemma_floor_sqrt_unique(m, one);
    lemma_floor_sqrt_monotonic(m, big);
    let u = v.normalized().unwrap();
    let qx = magnitude(u.x);
    let qy = magnitude(u.y);
    lemma_div_toward_zero_magnitude(v.x * m, l);
    lemma_div_toward_zero_magnitude(v.y * m, l);
    assert(magnitude(v.x * m) == ax * m && magnitude(v.y * m) == ay * m) by (nonlinear_arith)
        requires
            0 < m,
            ax == magnitude(v.x),
            ay == magnitude(v.y),
    ;
    assert(0 <= ax * m && 0 <= ay * m) by (nonlinear_arith)
        requires
            0 <= ax,
            0 <= ay,
            0 < m,
    ;
    lemma_quotient_bounds(ax * m, l);
    lemma_quotient_bounds(ay * m, l);
    lemma_quotients_near_unit(ax, ay, one, l, qx, qy);
    lemma_square_of_magnitude(u.x);
    lemma_square_of_magnitude(u.y);
}

/// No component of a unit vector exceeds `ONE`.
pub proof fn lemma_unit_fits(u: Vector)
    requires
        u.is_unit(),
    ensures
        u.fits(ONE as int),
{
    let one = ONE as int;
    assert(-one <= u.x <= one && -one <= u.y <= one) by (nonlinear_arith)
        requires
            u.x * u.x + u.y * u.y < (one + 1) * (one + 1),
            0 <= one,
    ;
}

/// A fixed-point vector.
#[derive(Clone, Copy, Debug, PartialEq, Eq, Structural)]
pub struct Vec2 {
    pub x: i64,
    pub y: i64,
}

impl View for Vec2 {
    type V = Vector;

    open spec fn view(&self) -> Vector {
        Vector { x: self.x as int, y: self.y as int }
    }
}

impl Vec2 {
    pub fn new(x: i64, y: i64) -> (v: Vec2)
        ensures
            v.x == x,
            v.y == y,
    {
        Vec2 { x, y }
    }

    pub fn zero() -> (v: Vec2)
        ensures
            v@ == Vector::zero(),
    {
        Vec2 { x: 0, y: 0 }
    }

    /// The sum of two vectors, where it can be stored.
    pub fn plus(self, other: Vec2) -> (v: Vec2)
        requires
            self@.plus(other@).fits(i64::MAX as int),
        ensures
            v@ == self@.plus(other@),
    {
        Vec2 { x: self.x + other.x, y: self.y + other.y }
    }

    /// The difference of two vectors, where it can be stored.
    pub fn minus(self, other: Vec2) -> (v: Vec2)
        requires
            self@.minus(other@).fits(i64::MAX as int),
        ensures
            v@ == self@.minus(other@),
    {
        Vec2 { x: self.x - other.x, y: self.y - other.y }
    }

    /// The product with the fixed-point scalar `k`, where it can be stored.
    pub fn scaled(self, k: i64) -> (v: Vec2)
        requires
            self@.scaled(k as int).fits(i64::MAX as int),
        ensures
            v@ == self@.scaled(k as int),
    {
        proof {
            lemma_product_bound(self.x as int, k as int, 0x8000_0000_0000_0000, 0x8000_0000_0000_0000);
            lemma_product_bound(self.y as int, k as int, 0x8000_0000_0000_0000, 0x8000_0000_0000_0000);
        }
        let x: i128 = quotient(self.x as i128 * k as i128, ONE as i128);
        let y: i128 = quotient(self.y as i128 * k as i128, ONE as i128);
        Vec2 { x: x as i64, y: y as i64 }
    }

    /// The square of the length.
    pub fn length_squared(self) -> (n: u128)
        ensures
            n == self@.norm_sq(),
    {
        proof {
            lemma_product_bound(self.x as int, self.x as int, 0x8000_0000_0000_0000, 0x8000_0000_0000_0000);
            lemma_product_bound(self.y as int, self.y as int, 0x8000_0000_0000_0000, 0x8000_0000_0000_0000);
            assert(0 <= self.x * self.x && 0 <= self.y * self.y) by (nonlinear_arith);
        }
        let xx: i128 = self.x as i128 * self.x as i128;
        let yy: i128 = self.y as i128 * self.y as i128;
        xx as u128 + yy as u128
    }

    /// The square of the distance to `other`, where the difference can be
    /// stored.
    pub fn distance_squared(self, other: Vec2) -> (n: u128)
        requires
            self@.minus(other@).fits(i64::MAX as int),
        ensures
            n == self@.minus(other@).norm_sq(),
    {
        self.minus(other).length_squared()
    }

    /// The unit vector in the direction of `self`, or `None` where `self`
    /// is too short to have a direction.
    pub fn normalize(self) -> (r: Option<Vec2>)
        requires
            self@.fits(VECTOR_LIMIT as int),
        ensures
            match r {
                Some(u) => self@.normalized() == Some(u@) && u@.is_unit() && u@.fits(ONE as int),
                None => self@.is_degenerate(),
            },
    {
        let n: u128 = self.length_squared();
        if n < EPSILON_SQUARED {
            return None;
        }
        proof {
            lemma_product_bound(self.x as int, self.x as int, VECTOR_LIMIT as int, VECTOR_LIMIT as int);
            lemma_product_bound(self.y as int, self.y as int, VECTOR_LIMIT as int, VECTOR_LIMIT as int);
            lemma_product_bound(self.x as int, ONE_SQUARED as int, VECTOR_LIMIT as int, ONE_SQUARED as int);
            lemma_product_bound(self.y as int, ONE_SQUARED as int, VECTOR_LIMIT as int, ONE_SQUARED as int);
            assert(n * ONE_SQUARED <= 2 * (VECTOR_LIMIT * VECTOR_LIMIT) * ONE_SQUARED) by (nonlinear_arith)
                requires
                    n <= 2 * (VECTOR_LIMIT * VECTOR_LIMIT),
            ;
            lemma_normalized_is_unit(self@);
        }
        let length: u64 = isqrt(n * ONE_SQUARED);
        let x: i128 = quotient(self.x as i128 * ONE_SQUARED as i128, length as i128);
        let y: i128 = quotient(self.y as i128 * ONE_SQUARED as i128, length as i128);
        Some(Vec2 { x: x as i64, y: y as i64 })
    }

    /// Whether the length is one, to within rounding.
    pub fn is_unit(self) -> (b: bool)
        ensures
            b == self@.is_unit(),
    {
        let n: u128 = self.length_squared();
        4294574089 <= n && n < 4295098369
    }
}

} // verus!
