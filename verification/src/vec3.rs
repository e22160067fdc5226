//! A 3-dimensional vector with exact arithmetic contracts, the cross
//! product, and epsilon-guarded normalization.

use vstd::prelude::*;
use crate::scalar::{Scalar, SCALE, fx_mul, fx_div, fx_in_range, sqrt_floor, is_sqrt_floor, lemma_fx_mul_bound, lemma_fx_square_nonneg, lemma_unit_component_bound, lemma_fx_mul_comm, lemma_fx_mul_neg_left, lemma_fx_mul_neg_neg, lemma_fx_div_neg, lemma_fx_div_sandwich, lemma_sqrt_floor_exists};
use vstd::math::abs;
use crate::vec2::Vec2;

verus! {

/// All three raw components are small enough for the product-forming
/// operations.
pub open spec fn v3_in_range(v: (int, int, int)) -> bool {
    fx_in_range(v.0) && fx_in_range(v.1) && fx_in_range(v.2)
}

/// Raw dot product: the sum of the scaled-down component products.
pub open spec fn dot_v3(a: (int, int, int), b: (int, int, int)) -> int {
    fx_mul(a.0, b.0) + fx_mul(a.1, b.1) + fx_mul(a.2, b.2)
}

/// Raw cross product, by the right-hand rule.
pub open spec fn cross_v3(a: (int, int, int), b: (int, int, int)) -> (int, int, int) {
    (
        fx_mul(a.1, b.2) - fx_mul(a.2, b.1),
        fx_mul(a.2, b.0) - fx_mul(a.0, b.2),
        fx_mul(a.0, b.1) - fx_mul(a.1, b.0),
    )
}

/// Raw squared length: the dot product of a vector with itself.
pub open spec fn len_sq_v3(a: (int, int, int)) -> int {
    dot_v3(a, a)
}

/// Raw length: the fixed-point square root of the squared length.
pub open spec fn norm_len_v3(a: (int, int, int)) -> int {
    sqrt_floor(len_sq_v3(a) * (SCALE as int))
}

/// Raw components of the normalized vector: each component divided by the
/// length, with truncation.
pub open spec fn normalize_v3(a: (int, int, int)) -> (int, int, int) {
    (fx_div(a.0, norm_len_v3(a)), fx_div(a.1, norm_len_v3(a)), fx_div(a.2, norm_len_v3(a)))
}

/// The vector is too short to normalize against `eps`: its squared length
/// is at most the squared epsilon.
pub open spec fn degenerate_v3(a: (int, int, int), eps: int) -> bool {
    len_sq_v3(a) <= fx_mul(eps, eps)
}

/// Raw squared distance: the squared length of the exact component deltas.
pub open spec fn dist_sq_v3(a: (int, int, int), b: (int, int, int)) -> int {
    len_sq_v3((b.0 - a.0, b.1 - a.1, b.2 - a.2))
}

/// Componentwise negation.
pub open spec fn neg_v3(a: (int, int, int)) -> (int, int, int) {
    (-a.0, -a.1, -a.2)
}

/// All three raw components stay within two units, as the components of a
/// just-normalized vector do.
pub open spec fn v3_unit_range(v: (int, int, int)) -> bool {
    &&& -2 * (SCALE as int) <= v.0 <= 2 * (SCALE as int)
    &&& -2 * (SCALE as int) <= v.1 <= 2 * (SCALE as int)
    &&& -2 * (SCALE as int) <= v.2 <= 2 * (SCALE as int)
}

/// A point, displacement, or direction in 3-space.
#[derive(Clone, Copy, Debug, Default, PartialEq, Eq, Structural)]
pub struct Vec3 {
    /// X component.
    pub x: Scalar,
    /// Y component.
    pub y: Scalar,
    /// Z component.
    pub z: Scalar,
}

impl View for Vec3 {
    type V = (int, int, int);

    open spec fn view(&self) -> (int, int, int) {
        (self.x@, self.y@, self.z@)
    }
}

impl Vec3 {
    /// Builds a vector from its components.
    pub fn new(x: Scalar, y: Scalar, z: Scalar) -> (r: Vec3)
        ensures
            r@ == (x@, y@, z@),
    {
        Vec3 { x, y, z }
    }

    /// The zero vector.
    pub fn zero() -> (r: Vec3)
        ensures
            r@ == (0int, 0int, 0int),
    {
        Vec3 { x: Scalar::zero(), y: Scalar::zero(), z: Scalar::zero() }
    }

    /// The all-ones vector.
    pub fn one() -> (r: Vec3)
        ensures
            r@ == (SCALE as int, SCALE as int, SCALE as int),
    {
        Vec3 { x: Scalar::one(), y: Scalar::one(), z: Scalar::one() }
    }

    /// The XY components of this vector.
    pub fn xy(&self) -> (r: Vec2)
        ensures
            r@ == (self.x@, self.y@),
    {
        Vec2::new(self.x, self.y)
    }

    /// The XZ components of this vector.
    pub fn xz(&self) -> (r: Vec2)
        ensures
            r@ == (self.x@, self.z@),
    {
        Vec2::new(self.x, self.z)
    }

    /// Dot product of this vector and `other`.
    pub fn dot(&self, other: Vec3) -> (r: Scalar)
        requires
            v3_in_range(self@),
            v3_in_range(other@),
        ensures
            r@ == dot_v3(self@, other@),
    {
        proof {
            lemma_fx_mul_bound(self.x@, other.x@, 500_000_000_000, 500_000_000_000, 250_000_000_000_000_000);
            lemma_fx_mul_bound(self.y@, other.y@, 500_000_000_000, 500_000_000_000, 250_000_000_000_000_000);
            lemma_fx_mul_bound(self.z@, other.z@, 500_000_000_000, 500_000_000_000, 250_000_000_000_000_000);
        }
        self.x.mul(other.x).add(self.y.mul(other.y)).add(self.z.mul(other.z))
    }

    /// Cross product of this vector and `other`, by the right-hand rule.
    pub fn cross(&self, other: Vec3) -> (r: Vec3)
        requires
            v3_in_range(self@),
            v3_in_range(other@),
        ensures
            r@ == cross_v3(self@, other@),
    {
        proof {
            lemma_fx_mul_bound(self.y@, other.z@, 500_000_000_000, 500_000_000_000, 250_000_000_000_000_000);
            lemma_fx_mul_bound(self.z@, other.y@, 500_000_000_000, 500_000_000_000, 250_000_000_000_000_000);
            lemma_fx_mul_bound(self.z@, other.x@, 500_000_000_000, 500_000_000_000, 250_000_000_000_000_000);
            lemma_fx_mul_bound(self.x@, other.z@, 500_000_000_000, 500_000_000_000, 250_000_000_000_000_000);
            lemma_fx_mul_bound(self.x@, other.y@, 500_000_000_000, 500_000_000_000, 250_000_000_000_000_000);
            lemma_fx_mul_bound(self.y@, other.x@, 500_000_000_000, 500_000_000_000, 250_000_000_000_000_000);
        }
        Vec3::new(
            self.y.mul(other.z).sub(self.z.mul(other.y)),
            self.z.mul(other.x).sub(self.x.mul(other.z)),
            self.x.mul(other.y).sub(self.y.mul(other.x)),
        )
    }

    /// Squared length (magnitude) of this vector.
    pub fn length_squared(&self) -> (r: Scalar)
        requires
            v3_in_range(self@),
        ensures
            r@ == len_sq_v3(self@),
            r@ >= 0,
    {
        proof {
            lemma_fx_square_nonneg(self.x@);
            lemma_fx_square_nonneg(self.y@);
            lemma_fx_square_nonneg(self.z@);
        }
        self.dot(*self)
    }

    /// Length (magnitude) of this vector: the square root of the squared
    /// length, rounded down to the scalar resolution.
    pub fn length(&self) -> (r: Scalar)
        requires
            v3_in_range(self@),
        ensures
            r@ == norm_len_v3(self@),
    {
        self.length_squared().sqrt()
    }

    /// Squared distance between this vector and `other`.
    pub fn distance_squared(&self, other: Vec3) -> (r: Scalar)
        requires
            v3_in_range(self@),
            v3_in_range(other@),
        ensures
            r@ == dist_sq_v3(self@, other@),
            r@ >= 0,
    {
        let dx = other.x.sub(self.x);
        let dy = other.y.sub(self.y);
        let dz = other.z.sub(self.z);
        proof {
            lemma_fx_mul_bound(dx@, dx@, 1_000_000_000_000, 1_000_000_000_000, 1_000_000_000_000_000_000);
            lemma_fx_mul_bound(dy@, dy@, 1_000_000_000_000, 1_000_000_000_000, 1_000_000_000_000_000_000);
            lemma_fx_mul_bound(dz@, dz@, 1_000_000_000_000, 1_000_000_000_000, 1_000_000_000_000_000_000);
            lemma_fx_square_nonneg(dx@);
            lemma_fx_square_nonneg(dy@);
            lemma_fx_square_nonneg(dz@);
        }
        dx.mul(dx).add(dy.mul(dy)).add(dz.mul(dz))
    }

    /// Distance between this vector and `other`.
    pub fn distance(&self, other: Vec3) -> (r: Scalar)
        requires
            v3_in_range(self@),
            v3_in_range(other@),
        ensures
            r@ == sqrt_floor(dist_sq_v3(self@, other@) * (SCALE as int)),
    {
        self.distance_squared(other).sqrt()
    }

    /// Attempts to normalize this vector; `None` when the squared length is
    /// at most the squared `epsilon`.
    pub fn try_normalize(&self, epsilon: Scalar) -> (r: Option<Vec3>)
        requires
            v3_in_range(self@),
            fx_in_range(epsilon@),
        ensures
            r is None <==> degenerate_v3(self@, epsilon@),
            r matches Some(v) ==> v@ == normalize_v3(self@) && v3_unit_range(v@),
    {
        proof {
            lemma_fx_mul_bound(epsilon@, epsilon@, 500_000_000_000, 500_000_000_000, 250_000_000_000_000_000);
        }
        let len_sq = self.length_squared();
        let epsilon_sq = epsilon.mul(epsilon);
        if len_sq.le(epsilon_sq) {
            None
        } else {
            proof {
                lemma_fx_square_nonneg(epsilon@);
                lemma_fx_square_nonneg(self.x@);
                lemma_fx_square_nonneg(self.y@);
                lemma_fx_square_nonneg(self.z@);
            }
            let len = len_sq.sqrt();
            proof {
                lemma_unit_component_bound(self.x@, len_sq@, len@);
                lemma_unit_component_bound(self.y@, len_sq@, len@);
                lemma_unit_component_bound(self.z@, len_sq@, len@);
            }
            Some(Vec3 { x: self.x.div(len), y: self.y.div(len), z: self.z.div(len) })
        }
    }

    /// Normalizes this vector, or returns `fallback` when the squared
    /// length is at most the squared `epsilon`.
    pub fn normalize_or(&self, epsilon: Scalar, fallback: Vec3) -> (r: Vec3)
        requires
            v3_in_range(self@),
            fx_in_range(epsilon@),
        ensures
            degenerate_v3(self@, epsilon@) ==> r == fallback,
            !degenerate_v3(self@, epsilon@) ==> r@ == normalize_v3(self@),
    {
        match self.try_normalize(epsilon) {
            Some(v) => v,
            None => fallback,
        }
    }

    /// Normalizes this vector, or returns the zero vector when the squared
    /// length is at most the squared `epsilon`.
    pub fn normalize_or_zero(&self, epsilon: Scalar) -> (r: Vec3)
        requires
            v3_in_range(self@),
            fx_in_range(epsilon@),
        ensures
            degenerate_v3(self@, epsilon@) ==> r@ == (0int, 0int, 0int),
            !degenerate_v3(self@, epsilon@) ==> r@ == normalize_v3(self@),
    {
        self.normalize_or(epsilon, Vec3::zero())
    }
}

/// The dot product of a vector with itself is exactly its squared length.
pub proof fn lemma_dot_self_is_length_squared(a: (int, int, int))
    ensures
        dot_v3(a, a) == len_sq_v3(a),
{
}

/// The length is exactly the fixed-point square root of the squared length.
pub proof fn lemma_length_is_sqrt_of_length_squared(a: (int, int, int))
    ensures
        norm_len_v3(a) == sqrt_floor(len_sq_v3(a) * (SCALE as int)),
{
}

/// The cross product is anti-commutative: swapping the operands negates
/// every component exactly.
pub proof fn lemma_cross_antisymmetric(a: (int, int, int), b: (int, int, int))
    ensures
        cross_v3(a, b) == neg_v3(cross_v3(b, a)),
{
    lemma_fx_mul_comm(a.1, b.2);
    lemma_fx_mul_comm(a.2, b.1);
    lemma_fx_mul_comm(a.2, b.0);
    lemma_fx_mul_comm(a.0, b.2);
    lemma_fx_mul_comm(a.0, b.1);
    lemma_fx_mul_comm(a.1, b.0);
}

/// Negating a vector keeps its squared length exactly.
pub proof fn lemma_len_sq_neg(a: (int, int, int))
    ensures
        len_sq_v3(neg_v3(a)) == len_sq_v3(a),
{
    lemma_fx_mul_neg_neg(a.0, a.0);
    lemma_fx_mul_neg_neg(a.1, a.1);
    lemma_fx_mul_neg_neg(a.2, a.2);
}

/// Negating the left operand negates the cross product exactly.
pub proof fn lemma_cross_neg_left(a: (int, int, int), b: (int, int, int))
    ensures
        cross_v3(neg_v3(a), b) == neg_v3(cross_v3(a, b)),
{
    lemma_fx_mul_neg_left(a.1, b.2);
    lemma_fx_mul_neg_left(a.2, b.1);
    lemma_fx_mul_neg_left(a.2, b.0);
    lemma_fx_mul_neg_left(a.0, b.2);
    lemma_fx_mul_neg_left(a.0, b.1);
    lemma_fx_mul_neg_left(a.1, b.0);
}

/// Normalizing a negated vector negates the normalized vector exactly.
pub proof fn lemma_normalize_neg(a: (int, int, int))
    requires
        len_sq_v3(a) >= 1,
    ensures
        normalize_v3(neg_v3(a)) == neg_v3(normalize_v3(a)),
{
    lemma_len_sq_neg(a);
    lemma_norm_len_positive(a);
    lemma_fx_div_neg(a.0, norm_len_v3(a));
    lemma_fx_div_neg(a.1, norm_len_v3(a));
    lemma_fx_div_neg(a.2, norm_len_v3(a));
}

/// Normalizing a vector at least one unit long yields a vector whose own
/// fixed-point length is within ten raw steps of one unit.  Vectors much
/// shorter than a unit can normalize less accurately, since the scalar
/// resolution dominates them.
pub proof fn lemma_normalized_length_near_unit(a: (int, int, int))
    requires
        len_sq_v3(a) >= SCALE as int,
    ensures
        (SCALE as int) - 10 <= norm_len_v3(normalize_v3(a)) <= (SCALE as int) + 10,
{
    let s = SCALE as int;
    let l2 = len_sq_v3(a);
    let n = l2 * s;
    assert(n >= s * s) by (nonlinear_arith)
        requires
            l2 >= s,
            n == l2 * s,
            s > 0,
    {
    }
    lemma_sqrt_floor_exists(n);
    let len = norm_len_v3(a);
    assert(len >= s) by (nonlinear_arith)
        requires
            is_sqrt_floor(n, len),
            n >= s * s,
            s > 0,
    {
    }
    lemma_fx_square_nonneg(a.0);
    lemma_fx_square_nonneg(a.1);
    lemma_fx_square_nonneg(a.2);
    lemma_unit_component_bound(a.0, l2, len);
    lemma_unit_component_bound(a.1, l2, len);
    lemma_unit_component_bound(a.2, l2, len);
    lemma_fx_div_sandwich(a.0, len);
    lemma_fx_div_sandwich(a.1, len);
    lemma_fx_div_sandwich(a.2, len);
    let u = normalize_v3(a);
    let uq0 = abs(u.0) as int;
    let uq1 = abs(u.1) as int;
    let uq2 = abs(u.2) as int;
    let hh = len * len;
    assert(hh >= 1) by (nonlinear_arith)
        requires
            hh == len * len,
            len >= 1,
    {
    }
    let usum = uq0 * uq0 + uq1 * uq1 + uq2 * uq2;
    let asum = a.0 * a.0 + a.1 * a.1 + a.2 * a.2;
    // Each squared component of the normalized vector, against the
    // squared original component.
    lemma_square_sandwich(a.0, uq0, len);
    lemma_square_sandwich(a.1, uq1, len);
    lemma_square_sandwich(a.2, uq2, len);
    assert(usum * hh <= asum * (s * s)) by (nonlinear_arith)
        requires
            uq0 * uq0 * hh <= (a.0 * a.0) * (s * s),
            uq1 * uq1 * hh <= (a.1 * a.1) * (s * s),
            uq2 * uq2 * hh <= (a.2 * a.2) * (s * s),
            usum == uq0 * uq0 + uq1 * uq1 + uq2 * uq2,
            asum == a.0 * a.0 + a.1 * a.1 + a.2 * a.2,
    {
    }
    assert(asum * (s * s) < (usum + 2 * (uq0 + uq1 + uq2) + 3) * hh) by (nonlinear_arith)
        requires
            (a.0 * a.0) * (s * s) < (uq0 * uq0 + 2 * uq0 + 1) * hh,
            (a.1 * a.1) * (s * s) < (uq1 * uq1 + 2 * uq1 + 1) * hh,
            (a.2 * a.2) * (s * s) < (uq2 * uq2 + 2 * uq2 + 1) * hh,
            usum == uq0 * uq0 + uq1 * uq1 + uq2 * uq2,
            asum == a.0 * a.0 + a.1 * a.1 + a.2 * a.2,
    {
    }
    // The original squared components, against the squared length.
    lemma_fx_square_defining(a.0);
    lemma_fx_square_defining(a.1);
    lemma_fx_square_defining(a.2);
    assert(s * l2 <= asum && asum < s * l2 + 3 * s);
    assert(s * s * (l2 * s) < s * s * ((len + 1) * (len + 1))) by (nonlinear_arith)
        requires
            l2 * s < (len + 1) * (len + 1),
            s > 0,
    {
    }
    assert(s * s * ((len + 1) * (len + 1)) <= (s + 3) * s * hh) by (nonlinear_arith)
        requires
            len >= s,
            s == 1_000_000,
            hh == len * len,
    {
    }
    assert(3 * s * (s * s) <= 3 * s * hh) by (nonlinear_arith)
        requires
            len >= s,
            s > 0,
            hh == len * len,
    {
    }
    assert(usum * hh < (s + 6) * s * hh) by (nonlinear_arith)
        requires
            usum * hh <= asum * (s * s),
            asum < s * l2 + 3 * s,
            s * s * (l2 * s) < s * s * ((len + 1) * (len + 1)),
            s * s * ((len + 1) * (len + 1)) <= (s + 3) * s * hh,
            3 * s * (s * s) <= 3 * s * hh,
            s > 0,
    {
    }
    assert(usum < (s + 6) * s) by (nonlinear_arith)
        requires
            usum * hh < (s + 6) * s * hh,
            hh >= 1,
    {
    }
    assert(s * s * (l2 * s) >= s * s * hh) by (nonlinear_arith)
        requires
            l2 * s >= hh,
            s > 0,
    {
    }
    assert(asum * (s * s) >= s * s * (l2 * s)) by (nonlinear_arith)
        requires
            asum >= s * l2,
            s > 0,
    {
    }
    assert(s * s < usum + 2 * (uq0 + uq1 + uq2) + 3) by (nonlinear_arith)
        requires
            (s * s) * hh < (usum + 2 * (uq0 + uq1 + uq2) + 3) * hh,
            hh >= 1,
    {
    }
    assert(uq0 <= 2 * s && uq1 <= 2 * s && uq2 <= 2 * s);
    assert(usum > s * s - 12 * s - 3);
    // From the squared components of the normalized vector to its own
    // squared length.
    lemma_fx_square_defining(u.0);
    lemma_fx_square_defining(u.1);
    lemma_fx_square_defining(u.2);
    let l2u = len_sq_v3(u);
    assert(s * l2u <= usum && usum < s * l2u + 3 * s);
    assert(l2u <= s + 5);
    assert(l2u >= s - 15);
    let m = l2u * s;
    lemma_sqrt_floor_exists(m);
    let lenu = norm_len_v3(u);
    assert(is_sqrt_floor(m, lenu));
    assert(m <= (s + 5) * s && m >= (s - 15) * s) by (nonlinear_arith)
        requires
            m == l2u * s,
            s - 15 <= l2u <= s + 5,
            s > 0,
    {
    }
    assert(s - 10 <= lenu <= s + 10) by (nonlinear_arith)
        requires
            is_sqrt_floor(m, lenu),
            m <= (s + 5) * s,
            m >= (s - 15) * s,
            s == 1_000_000,
    {
    }
}

/// The squared sandwich of one normalized component: `uq` is the
/// component's magnitude, sandwiched against the original component
/// scaled up, all squared.
proof fn lemma_square_sandwich(x: int, uq: int, len: int)
    requires
        0 <= uq,
        1 <= len,
        uq * len <= abs(x) as int * (SCALE as int),
        abs(x) as int * (SCALE as int) < (uq + 1) * len,
    ensures
        uq * uq * (len * len) <= (x * x) * ((SCALE as int) * (SCALE as int)),
        (x * x) * ((SCALE as int) * (SCALE as int)) < (uq * uq + 2 * uq + 1) * (len * len),
{
    let s = SCALE as int;
    let ax = abs(x) as int;
    assert(ax == x || ax == -x);
    assert((ax * s) * (ax * s) == (x * x) * (s * s)) by (nonlinear_arith)
        requires
            ax == x || ax == -x,
    {
    }
    assert(uq * uq * (len * len) <= (ax * s) * (ax * s)) by (nonlinear_arith)
        requires
            0 <= uq,
            0 <= ax,
            1 <= len,
            s > 0,
            uq * len <= ax * s,
    {
    }
    assert((ax * s) * (ax * s) < (uq * uq + 2 * uq + 1) * (len * len)) by (nonlinear_arith)
        requires
            0 <= ax,
            s > 0,
            ax * s < (uq + 1) * len,
            1 <= len,
            0 <= uq,
    {
    }
}

/// The defining inequalities of a scaled-down square: one scale step
/// sandwiches the exact square.
proof fn lemma_fx_square_defining(x: int)
    ensures
        (SCALE as int) * fx_mul(x, x) <= x * x,
        x * x < (SCALE as int) * fx_mul(x, x) + (SCALE as int),
{
    let s = SCALE as int;
    assert(0 <= x * x) by (nonlinear_arith);
    vstd::arithmetic::div_mod::lemma_fundamental_div_mod(x * x, s);
    vstd::arithmetic::div_mod::lemma_mod_bound(x * x, s);
    assert(fx_mul(x, x) == (x * x) / s);
}

/// Degeneracy against a nonnegative `eps` orders the fixed-point length:
/// a vector that fails normalization is no longer than `eps`, and one
/// that passes is no shorter.
pub proof fn lemma_degeneracy_orders_length(a: (int, int, int), eps: int)
    requires
        0 <= eps,
    ensures
        degenerate_v3(a, eps) ==> norm_len_v3(a) <= eps,
        !degenerate_v3(a, eps) ==> norm_len_v3(a) >= eps,
{
    let s = SCALE as int;
    let l2 = len_sq_v3(a);
    lemma_fx_square_nonneg(a.0);
    lemma_fx_square_nonneg(a.1);
    lemma_fx_square_nonneg(a.2);
    let n = l2 * s;
    assert(n >= l2) by (nonlinear_arith)
        requires
            l2 >= 0,
            n == l2 * s,
            s >= 1,
    {
    }
    lemma_sqrt_floor_exists(n);
    let len = norm_len_v3(a);
    assert(0 <= eps * eps) by (nonlinear_arith)
        requires
            0 <= eps,
    {
    }
    vstd::arithmetic::div_mod::lemma_fundamental_div_mod(eps * eps, s);
    vstd::arithmetic::div_mod::lemma_mod_bound(eps * eps, s);
    assert(fx_mul(eps, eps) == (eps * eps) / s);
    if degenerate_v3(a, eps) {
        assert(n <= fx_mul(eps, eps) * s) by (nonlinear_arith)
            requires
                l2 <= fx_mul(eps, eps),
                n == l2 * s,
                s >= 1,
        {
        }
        assert(len <= eps) by (nonlinear_arith)
            requires
                is_sqrt_floor(n, len),
                n <= eps * eps,
                eps >= 0,
        {
        }
    } else {
        assert(n >= fx_mul(eps, eps) * s + s) by (nonlinear_arith)
            requires
                l2 >= fx_mul(eps, eps) + 1,
                n == l2 * s,
                s >= 1,
        {
        }
        assert(len >= eps) by (nonlinear_arith)
            requires
                is_sqrt_floor(n, len),
                n > eps * eps,
                eps >= 0,
        {
        }
    }
}

/// A vector whose squared length is at least one raw step has a strictly
/// positive fixed-point length.
pub proof fn lemma_norm_len_positive(a: (int, int, int))
    requires
        len_sq_v3(a) >= 1,
    ensures
        norm_len_v3(a) >= 1,
        is_sqrt_floor(len_sq_v3(a) * (SCALE as int), norm_len_v3(a)),
{
    let n = len_sq_v3(a) * (SCALE as int);
    assert(n >= SCALE as int) by (nonlinear_arith)
        requires
            len_sq_v3(a) >= 1,
            n == len_sq_v3(a) * (SCALE as int),
    {
    }
    lemma_sqrt_floor_exists(n);
    assert(norm_len_v3(a) >= 1) by (nonlinear_arith)
        requires
            is_sqrt_floor(n, norm_len_v3(a)),
            n >= SCALE as int,
    {
    }
}

} // verus!
