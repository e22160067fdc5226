//! A 2-dimensional vector with exact arithmetic contracts and
//! epsilon-guarded normalization.

use vstd::prelude::*;
use crate::scalar::{Scalar, SCALE, fx_mul, fx_div, fx_in_range, sqrt_floor, lemma_fx_mul_bound, lemma_fx_square_nonneg, lemma_unit_component_bound};

verus! {

/// Both raw components are small enough for the product-forming operations.
pub open spec fn v2_in_range(v: (int, int)) -> bool {
    fx_in_range(v.0) && fx_in_range(v.1)
}

/// Raw dot product: the sum of the scaled-down component products.
pub open spec fn dot_v2(a: (int, int), b: (int, int)) -> int {
    fx_mul(a.0, b.0) + fx_mul(a.1, b.1)
}

/// Raw squared length: the dot product of a vector with itself.
pub open spec fn len_sq_v2(a: (int, int)) -> int {
    dot_v2(a, a)
}

/// Raw length: the fixed-point square root of the squared length.
pub open spec fn norm_len_v2(a: (int, int)) -> int {
    sqrt_floor(len_sq_v2(a) * (SCALE as int))
}

/// Raw components of the normalized vector: each component divided by the
/// length, with truncation.
pub open spec fn normalize_v2(a: (int, int)) -> (int, int) {
    (fx_div(a.0, norm_len_v2(a)), fx_div(a.1, norm_len_v2(a)))
}

/// The vector is too short to normalize against `eps`: its squared length
/// is at most the squared epsilon.
pub open spec fn degenerate_v2(a: (int, int), eps: int) -> bool {
    len_sq_v2(a) <= fx_mul(eps, eps)
}

/// Raw squared distance: the squared length of the exact component deltas.
pub open spec fn dist_sq_v2(a: (int, int), b: (int, int)) -> int {
    len_sq_v2((b.0 - a.0, b.1 - a.1))
}

/// Both raw components stay within two units, as the components of a
/// just-normalized vector do.
pub open spec fn v2_unit_range(v: (int, int)) -> bool {
    -2 * (SCALE as int) <= v.0 <= 2 * (SCALE as int) && -2 * (SCALE as int) <= v.1 <= 2 * (
    SCALE as int)
}

/// A point or displacement in the plane.
#[derive(Clone, Copy, Debug, Default, PartialEq, Eq, Structural)]
pub struct Vec2 {
    /// X component.
    pub x: Scalar,
    /// Y component.
    pub y: Scalar,
}

impl View for Vec2 {
    type V = (int, int);

    open spec fn view(&self) -> (int, int) {
        (self.x@, self.y@)
    }
}

impl Vec2 {
    /// Builds a vector from its components.
    pub fn new(x: Scalar, y: Scalar) -> (r: Vec2)
        ensures
            r@ == (x@, y@),
    {
        Vec2 { x, y }
    }

    /// The zero vector.
    pub fn zero() -> (r: Vec2)
        ensures
            r@ == (0int, 0int),
    {
        Vec2 { x: Scalar::zero(), y: Scalar::zero() }
    }

    /// The all-ones vector.
    pub fn one() -> (r: Vec2)
        ensures
            r@ == (SCALE as int, SCALE as int),
    {
        Vec2 { x: Scalar::one(), y: Scalar::one() }
    }

    /// Dot product of this vector and `other`.
    pub fn dot(&self, other: Vec2) -> (r: Scalar)
        requires
            v2_in_range(self@),
            v2_in_range(other@),
        ensures
            r@ == dot_v2(self@, other@),
    {
        proof {
            lemma_fx_mul_bound(self.x@, other.x@, 500_000_000_000, 500_000_000_000, 250_000_000_000_000_000);
            lemma_fx_mul_bound(self.y@, other.y@, 500_000_000_000, 500_000_000_000, 250_000_000_000_000_000);
        }
        self.x.mul(other.x).add(self.y.mul(other.y))
    }

    /// Squared length (magnitude) of this vector.
    pub fn length_squared(&self) -> (r: Scalar)
        requires
            v2_in_range(self@),
        ensures
            r@ == len_sq_v2(self@),
            r@ >= 0,
    {
        proof {
            lemma_fx_square_nonneg(self.x@);
            lemma_fx_square_nonneg(self.y@);
        }
        self.dot(*self)
    }

    /// Length (magnitude) of this vector: the square root of the squared
    /// length, rounded down to the scalar resolution.
    pub fn length(&self) -> (r: Scalar)
        requires
            v2_in_range(self@),
        ensures
            r@ == norm_len_v2(self@),
    {
        self.length_squared().sqrt()
    }

    /// Squared distance between this vector and `other`.
    pub fn distance_squared(&self, other: Vec2) -> (r: Scalar)
        requires
            v2_in_range(self@),
            v2_in_range(other@),
        ensures
            r@ == dist_sq_v2(self@, other@),
            r@ >= 0,
    {
        let dx = other.x.sub(self.x);
        let dy = other.y.sub(self.y);
        proof {
            lemma_fx_mul_bound(dx@, dx@, 1_000_000_000_000, 1_000_000_000_000, 1_000_000_000_000_000_000);
            lemma_fx_mul_bound(dy@, dy@, 1_000_000_000_000, 1_000_000_000_000, 1_000_000_000_000_000_000);
            lemma_fx_square_nonneg(dx@);
            lemma_fx_square_nonneg(dy@);
        }
        dx.mul(dx).add(dy.mul(dy))
    }

    /// Distance between this vector and `other`.
    pub fn distance(&self, other: Vec2) -> (r: Scalar)
        requires
            v2_in_range(self@),
            v2_in_range(other@),
        ensures
            r@ == sqrt_floor(dist_sq_v2(self@, other@) * (SCALE as int)),
    {
        self.distance_squared(other).sqrt()
    }

    /// Attempts to normalize this vector; `None` when the squared length is
    /// at most the squared `epsilon`.
    pub fn try_normalize(&self, epsilon: Scalar) -> (r: Option<Vec2>)
        requires
            v2_in_range(self@),
            fx_in_range(epsilon@),
        ensures
            r is None <==> degenerate_v2(self@, epsilon@),
            r matches Some(v) ==> v@ == normalize_v2(self@) && v2_unit_range(v@),
    {
        proof {
            lemma_fx_mul_bound(epsilon@, epsilon@, 500_000_000_000, 500_000_000_000, 250_000_000_000_000_000);
        }
        let len_sq = self.length_squared();
        let epsilon_sq = epsilon.mul(epsilon);
        if len_sq.le(epsilon_sq) {
            None
        } else {
            proof {
                lemma_fx_square_nonneg(epsilon@);
                lemma_fx_square_nonneg(self.x@);
                lemma_fx_square_nonneg(self.y@);
            }
            let len = len_sq.sqrt();
            proof {
                lemma_unit_component_bound(self.x@, len_sq@, len@);
                lemma_unit_component_bound(self.y@, len_sq@, len@);
            }
            Some(Vec2 { x: self.x.div(len), y: self.y.div(len) })
        }
    }

    /// Normalizes this vector, or returns `fallback` when the squared
    /// length is at most the squared `epsilon`.
    pub fn normalize_or(&self, epsilon: Scalar, fallback: Vec2) -> (r: Vec2)
        requires
            v2_in_range(self@),
            fx_in_range(epsilon@),
        ensures
            degenerate_v2(self@, epsilon@) ==> r == fallback,
            !degenerate_v2(self@, epsilon@) ==> r@ == normalize_v2(self@),
    {
        match self.try_normalize(epsilon) {
            Some(v) => v,
            None => fallback,
        }
    }

    /// Normalizes this vector, or returns the zero vector when the squared
    /// length is at most the squared `epsilon`.
    pub fn normalize_or_zero(&self, epsilon: Scalar) -> (r: Vec2)
        requires
            v2_in_range(self@),
            fx_in_range(epsilon@),
        ensures
            degenerate_v2(self@, epsilon@) ==> r@ == (0int, 0int),
            !degenerate_v2(self@, epsilon@) ==> r@ == normalize_v2(self@),
    {
        self.normalize_or(epsilon, Vec2::zero())
    }
}

} // verus!
