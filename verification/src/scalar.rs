//! The scalar element type used throughout the library.
//!
//! A `Scalar` is a deterministic fixed-point number: a signed count of raw
//! steps of one millionth of a unit.  Every arithmetic operation states its
//! exact result over the mathematical integers, so the behaviour of the
//! vector, quaternion and basis types built on top is pinned down precisely,
//! with no rounding left unspecified.

use vstd::prelude::*;
use vstd::arithmetic::div_mod::lemma_div_pos_is_pos;
use vstd::math::abs;

verus! {

/// Number of raw steps in one unit: a `Scalar` counts millionths.
pub const SCALE: i64 = 1_000_000;

/// Largest raw magnitude accepted by the product-forming operations.
/// Products of two values of this magnitude, and sums of three such
/// products, still fit in `i64` after scaling back down.
pub const MAX_MAG: i64 = 500_000_000_000;

/// The raw value `a` is small enough for product-forming operations.
pub open spec fn fx_in_range(a: int) -> bool {
    -(MAX_MAG as int) <= a <= MAX_MAG as int
}

/// Truncating (round-toward-zero) division, the rounding Rust's `/` uses:
/// the magnitudes divide, and the signs combine.
pub open spec fn fx_div_trunc(a: int, b: int) -> int {
    if (a >= 0) == (b >= 0) {
        (abs(a) / abs(b)) as int
    } else {
        -((abs(a) / abs(b)) as int)
    }
}

/// Raw value of the product of two scalars with raw values `a` and `b`:
/// the exact integer product, scaled back down with truncation.
pub open spec fn fx_mul(a: int, b: int) -> int {
    fx_div_trunc(a * b, SCALE as int)
}

/// Raw value of the quotient of two scalars with raw values `a` and `b`:
/// the dividend scaled up, then divided with truncation.
pub open spec fn fx_div(a: int, b: int) -> int {
    fx_div_trunc(a * (SCALE as int), b)
}

/// `r` is the integer square root of `n`, rounded down.
pub open spec fn is_sqrt_floor(n: int, r: int) -> bool {
    0 <= r && r * r <= n && n < (r + 1) * (r + 1)
}

/// The integer square root of `n`, rounded down.
pub open spec fn sqrt_floor(n: int) -> int {
    choose|r: int| is_sqrt_floor(n, r)
}

/// Raw value of the square root of a scalar with raw value `a`: scaling the
/// radicand up by one more factor keeps the result in raw steps.
pub open spec fn fx_sqrt(a: int) -> int {
    sqrt_floor(a * (SCALE as int))
}

/// The integer square root exists for every nonnegative radicand, so
/// `sqrt_floor` denotes it.
pub proof fn lemma_sqrt_floor_exists(n: int)
    requires
        n >= 0,
    ensures
        is_sqrt_floor(n, sqrt_floor(n)),
    decreases n,
{
    if n == 0 {
        assert(is_sqrt_floor(0, 0));
    } else {
        lemma_sqrt_floor_exists(n - 1);
        let r = sqrt_floor(n - 1);
        if n < (r + 1) * (r + 1) {
            assert(is_sqrt_floor(n, r));
        } else {
            assert(is_sqrt_floor(n, r + 1)) by (nonlinear_arith)
                requires
                    is_sqrt_floor(n - 1, r),
                    n >= (r + 1) * (r + 1),
            {
            }
        }
    }
}

/// The integer square root is unique: `is_sqrt_floor` pins one value.
pub proof fn lemma_sqrt_floor_unique(n: int, r1: int, r2: int)
    requires
        is_sqrt_floor(n, r1),
        is_sqrt_floor(n, r2),
    ensures
        r1 == r2,
{
    assert(r1 == r2) by (nonlinear_arith)
        requires
            0 <= r1 && r1 * r1 <= n && n < (r1 + 1) * (r1 + 1),
            0 <= r2 && r2 * r2 <= n && n < (r2 + 1) * (r2 + 1),
    {
    }
}

/// Magnitude bound for a product of bounded factors.
proof fn lemma_mul_magnitude(a: int, b: int, abound: int, bbound: int)
    requires
        -abound <= a <= abound,
        -bbound <= b <= bbound,
        0 <= abound,
        0 <= bbound,
    ensures
        -(abound * bbound) <= a * b <= abound * bbound,
{
    assert(-(abound * bbound) <= a * b <= abound * bbound) by (nonlinear_arith)
        requires
            -abound <= a <= abound,
            -bbound <= b <= bbound,
            0 <= abound,
            0 <= bbound,
    {
    }
}

/// Scaled-down magnitude bound: the product of factors within `ab` and `bb`
/// lands within `q` whenever `ab * bb` is at most `q` rescaled.
pub proof fn lemma_fx_mul_bound(a: int, b: int, ab: int, bb: int, q: int)
    requires
        -ab <= a <= ab,
        -bb <= b <= bb,
        0 <= ab,
        0 <= bb,
        0 <= q,
        ab * bb <= q * (SCALE as int),
    ensures
        -q <= fx_mul(a, b) <= q,
{
    lemma_mul_magnitude(a, b, ab, bb);
    lemma_div_pos_is_pos(abs(a * b) as int, SCALE as int);
    vstd::arithmetic::div_mod::lemma_multiply_divide_le(abs(a * b) as int, SCALE as int, q);
}

/// A component of a just-normalized vector stays within two units: the
/// fixed-point length `len` of a vector whose squared length `l2` is at
/// least one raw step cannot fall below half of any component `x`.
pub proof fn lemma_unit_component_bound(x: int, l2: int, len: int)
    requires
        1 <= l2,
        fx_mul(x, x) <= l2,
        is_sqrt_floor(l2 * (SCALE as int), len),
    ensures
        1000 <= len,
        -2 * (SCALE as int) <= fx_div(x, len) <= 2 * (SCALE as int),
{
    let s = SCALE as int;
    assert(1000 <= len) by (nonlinear_arith)
        requires
            is_sqrt_floor(l2 * s, len),
            l2 * s >= s,
            s == 1_000_000,
    {
    }
    assert(0 <= x * x) by (nonlinear_arith);
    vstd::arithmetic::div_mod::lemma_fundamental_div_mod(x * x, s);
    vstd::arithmetic::div_mod::lemma_mod_bound(x * x, s);
    assert(fx_mul(x, x) == (x * x) / s);
    assert(x * x <= s * l2 + s - 1);
    assert(-2 * len <= x <= 2 * len) by (nonlinear_arith)
        requires
            x * x <= s * l2 + s - 1,
            l2 * s < (len + 1) * (len + 1),
            len >= 1000,
            s == 1_000_000,
    {
    }
    assert(abs(x * s) == abs(x) * s) by (nonlinear_arith)
        requires
            s > 0,
    {
    }
    assert(abs(x) * s <= len * (2 * s)) by (nonlinear_arith)
        requires
            abs(x) <= 2 * len,
            s > 0,
    {
    }
    lemma_div_pos_is_pos(abs(x * s) as int, len);
    vstd::arithmetic::div_mod::lemma_multiply_divide_le(abs(x * s) as int, len, 2 * s);
}

/// The defining sandwich of the scaled-up truncating quotient: its
/// magnitude times the divisor reaches the scaled dividend's magnitude,
/// and one more step of the divisor passes it.
pub proof fn lemma_fx_div_sandwich(x: int, len: int)
    requires
        1 <= len,
    ensures
        (abs(fx_div(x, len)) as int) * len <= abs(x) as int * (SCALE as int),
        abs(x) as int * (SCALE as int) < (abs(fx_div(x, len)) as int + 1) * len,
        fx_div(x, len) * fx_div(x, len) == (abs(fx_div(x, len)) as int) * (
        abs(fx_div(x, len)) as int),
{
    let s = SCALE as int;
    let p = x * s;
    assert(abs(p) as int == abs(x) as int * s) by (nonlinear_arith)
        requires
            s > 0,
            p == x * s,
    {
    }
    let q = abs(p) as int / len;
    vstd::arithmetic::div_mod::lemma_fundamental_div_mod(abs(p) as int, len);
    vstd::arithmetic::div_mod::lemma_mod_bound(abs(p) as int, len);
    lemma_div_pos_is_pos(abs(p) as int, len);
    assert(q * len <= abs(p) as int) by (nonlinear_arith)
        requires
            abs(p) as int == len * q + (abs(p) as int % len),
            abs(p) as int % len >= 0,
    {
    }
    assert((abs(p) as int) < (q + 1) * len) by (nonlinear_arith)
        requires
            abs(p) as int == len * q + (abs(p) as int % len),
            abs(p) as int % len < len,
    {
    }
    assert(fx_div(x, len) == q || fx_div(x, len) == -q);
    assert(fx_div(x, len) * fx_div(x, len) == q * q) by (nonlinear_arith)
        requires
            fx_div(x, len) == q || fx_div(x, len) == -q,
    {
    }
}

/// A square never scales down to a negative value.
pub proof fn lemma_fx_square_nonneg(a: int)
    ensures
        0 <= fx_mul(a, a),
{
    assert(0 <= a * a) by (nonlinear_arith);
    lemma_div_pos_is_pos(abs(a * a) as int, SCALE as int);
}

/// Scaled-down multiplication is commutative.
pub proof fn lemma_fx_mul_comm(a: int, b: int)
    ensures
        fx_mul(a, b) == fx_mul(b, a),
{
    assert(a * b == b * a) by (nonlinear_arith);
}

/// Negating one factor negates the scaled-down product.
pub proof fn lemma_fx_mul_neg_left(a: int, b: int)
    ensures
        fx_mul(-a, b) == -fx_mul(a, b),
{
    assert((-a) * b == -(a * b)) by (nonlinear_arith);
}

/// Negating both factors keeps the scaled-down product.
pub proof fn lemma_fx_mul_neg_neg(a: int, b: int)
    ensures
        fx_mul(-a, -b) == fx_mul(a, b),
{
    assert((-a) * (-b) == a * b) by (nonlinear_arith);
}

/// Negating the dividend negates the scaled-up quotient.
pub proof fn lemma_fx_div_neg(a: int, b: int)
    requires
        b > 0,
    ensures
        fx_div(-a, b) == -fx_div(a, b),
{
    assert((-a) * (SCALE as int) == -(a * (SCALE as int))) by (nonlinear_arith);
}

/// A deterministic fixed-point number: the element type of every vector,
/// quaternion and basis in the library.
#[derive(Clone, Copy, Debug, Default, PartialEq, Eq, Structural)]
pub struct Scalar {
    raw: i64,
}

impl View for Scalar {
    type V = int;

    closed spec fn view(&self) -> int {
        self.raw as int
    }
}

impl Scalar {
    /// The scalar zero.
    pub fn zero() -> (r: Scalar)
        ensures
            r@ == 0,
    {
        Scalar { raw: 0 }
    }

    /// The scalar one.
    pub fn one() -> (r: Scalar)
        ensures
            r@ == SCALE as int,
    {
        Scalar { raw: SCALE }
    }

    /// Builds a scalar from a raw count of millionths.
    pub fn from_micros(raw: i64) -> (r: Scalar)
        ensures
            r@ == raw as int,
    {
        Scalar { raw }
    }

    /// Builds a scalar from a whole number of units.
    pub fn from_int(units: i64) -> (r: Scalar)
        requires
            -9_223_372_036_854 <= units as int <= 9_223_372_036_854,
        ensures
            r@ == units as int * (SCALE as int),
    {
        Scalar { raw: units * SCALE }
    }

    /// The raw count of millionths this scalar holds.
    pub fn to_micros(self) -> (r: i64)
        ensures
            r as int == self@,
    {
        self.raw
    }

    /// Exact sum.
    pub fn add(self, other: Scalar) -> (r: Scalar)
        requires
            i64::MIN as int <= self@ + other@ <= i64::MAX as int,
        ensures
            r@ == self@ + other@,
    {
        Scalar { raw: self.raw + other.raw }
    }

    /// Exact difference.
    pub fn sub(self, other: Scalar) -> (r: Scalar)
        requires
            i64::MIN as int <= self@ - other@ <= i64::MAX as int,
        ensures
            r@ == self@ - other@,
    {
        Scalar { raw: self.raw - other.raw }
    }

    /// Exact negation.
    pub fn neg(self) -> (r: Scalar)
        requires
            self@ != i64::MIN as int,
        ensures
            r@ == -self@,
    {
        Scalar { raw: -self.raw }
    }

    /// Exact absolute value.
    pub fn abs(self) -> (r: Scalar)
        requires
            self@ != i64::MIN as int,
        ensures
            r@ == if self@ >= 0 { self@ } else { -self@ },
    {
        if self.raw >= 0 {
            self
        } else {
            Scalar { raw: -self.raw }
        }
    }

    /// Whether this scalar is at most `other`.
    pub fn le(self, other: Scalar) -> (r: bool)
        ensures
            r == (self@ <= other@),
    {
        self.raw <= other.raw
    }

    /// Whether this scalar is strictly less than `other`.
    pub fn lt(self, other: Scalar) -> (r: bool)
        ensures
            r == (self@ < other@),
    {
        self.raw < other.raw
    }

    /// Product, scaled back down with truncation.
    pub fn mul(self, other: Scalar) -> (r: Scalar)
        requires
            i64::MIN as int <= fx_mul(self@, other@) <= i64::MAX as int,
        ensures
            r@ == fx_mul(self@, other@),
    {
        proof {
            lemma_mul_magnitude(self@, other@, 0x8000_0000_0000_0000, 0x8000_0000_0000_0000);
        }
        let p: i128 = (self.raw as i128) * (other.raw as i128);
        let m: i128 = if p >= 0 {
            p
        } else {
            -p
        };
        let q0: i128 = m / (SCALE as i128);
        let q: i128 = if p >= 0 {
            q0
        } else {
            -q0
        };
        Scalar { raw: q as i64 }
    }

    /// Quotient, scaled up before a truncating division.
    pub fn div(self, other: Scalar) -> (r: Scalar)
        requires
            other@ != 0,
            i64::MIN as int <= fx_div(self@, other@) <= i64::MAX as int,
        ensures
            r@ == fx_div(self@, other@),
    {
        proof {
            lemma_mul_magnitude(self@, SCALE as int, 0x8000_0000_0000_0000, SCALE as int);
        }
        let p: i128 = (self.raw as i128) * (SCALE as i128);
        let m: i128 = if p >= 0 {
            p
        } else {
            -p
        };
        let d: i128 = if other.raw >= 0 {
            other.raw as i128
        } else {
            -(other.raw as i128)
        };
        let q0: i128 = m / d;
        let q: i128 = if (p >= 0) == (other.raw >= 0) {
            q0
        } else {
            -q0
        };
        Scalar { raw: q as i64 }
    }

    /// Integer square root of the scaled-up radicand: the fixed-point
    /// square root, rounded down.
    pub fn sqrt(self) -> (r: Scalar)
        requires
            self@ >= 0,
        ensures
            r@ == fx_sqrt(self@),
            is_sqrt_floor(self@ * (SCALE as int), r@),
    {
        proof {
            lemma_mul_magnitude(self@, SCALE as int, i64::MAX as int, SCALE as int);
        }
        let n: u128 = (self.raw as u128) * (SCALE as u128);
        let root: u128 = isqrt_u128(n);
        proof {
            assert(root as int * (root as int) <= n as int);
            assert(root < 0x8000_0000_0000_0000u128) by (nonlinear_arith)
                requires
                    (root as int) * (root as int) <= n as int,
                    n as int <= (i64::MAX as int) * (SCALE as int),
            {
            }
            lemma_sqrt_floor_exists(self@ * (SCALE as int));
            lemma_sqrt_floor_unique(self@ * (SCALE as int), root as int, fx_sqrt(self@));
        }
        Scalar { raw: root as i64 }
    }
}

/// Binary-search integer square root over the full `u128` range.
fn isqrt_u128(n: u128) -> (r: u128)
    ensures
        is_sqrt_floor(n as int, r as int),
        r <= 0xFFFF_FFFF_FFFF_FFFFu128,
{
    let mut lo: u128 = 0;
    let mut hi: u128 = 0x1_0000_0000_0000_0000;
    while hi - lo > 1
        invariant
            lo < hi <= 0x1_0000_0000_0000_0000u128,
            (lo as int) * (lo as int) <= n as int,
            (n as int) < (hi as int) * (hi as int),
        decreases hi - lo,
    {
        let mid: u128 = lo + (hi - lo) / 2;
        assert(lo < mid < hi);
        assert((mid as int) * (mid as int) <= u128::MAX as int) by (nonlinear_arith)
            requires
                0 <= mid as int <= 0xFFFF_FFFF_FFFF_FFFF,
        {
        }
        if mid * mid <= n {
            lo = mid;
        } else {
            hi = mid;
        }
    }
    lo
}

} // verus!
