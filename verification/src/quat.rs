//! A quaternion rotation type with exact arithmetic contracts.
//!
//! Rotations are normally unit quaternions.  The type does not enforce
//! unit length structurally; the operations that assume it (rotating a
//! vector) state the exact fixed-point value they compute, and callers
//! maintain normalization, as is standard rotation-algebra practice.

use vstd::prelude::*;
use crate::scalar::{Scalar, SCALE, fx_mul, lemma_fx_mul_bound};
use crate::vec3::{Vec3, v3_in_range, cross_v3};

verus! {

/// All four raw components stay within two units, as a unit rotation's
/// components (at most one unit each) do.
pub open spec fn q_unit_range(q: (int, int, int, int)) -> bool {
    &&& -2 * (SCALE as int) <= q.0 <= 2 * (SCALE as int)
    &&& -2 * (SCALE as int) <= q.1 <= 2 * (SCALE as int)
    &&& -2 * (SCALE as int) <= q.2 <= 2 * (SCALE as int)
    &&& -2 * (SCALE as int) <= q.3 <= 2 * (SCALE as int)
}

/// Raw components of the Hamilton product: the rotation `b` applied
/// first, then `a`.
pub open spec fn quat_mul_q(a: (int, int, int, int), b: (int, int, int, int)) -> (
    int,
    int,
    int,
    int,
) {
    (
        fx_mul(a.3, b.0) + fx_mul(a.0, b.3) + fx_mul(a.1, b.2) - fx_mul(a.2, b.1),
        fx_mul(a.3, b.1) - fx_mul(a.0, b.2) + fx_mul(a.1, b.3) + fx_mul(a.2, b.0),
        fx_mul(a.3, b.2) + fx_mul(a.0, b.1) - fx_mul(a.1, b.0) + fx_mul(a.2, b.3),
        fx_mul(a.3, b.3) - fx_mul(a.0, b.0) - fx_mul(a.1, b.1) - fx_mul(a.2, b.2),
    )
}

/// Raw components of the conjugate: the vector part negated.
pub open spec fn conj_q(q: (int, int, int, int)) -> (int, int, int, int) {
    (-q.0, -q.1, -q.2, q.3)
}

/// Raw components of a rotated vector, computed as
/// `v + w*t + u x t` with `t = 2*(u x v)` and `u` the vector part of the
/// quaternion.
pub open spec fn rotate_q(q: (int, int, int, int), v: (int, int, int)) -> (int, int, int) {
    let u = (q.0, q.1, q.2);
    let c1 = cross_v3(u, v);
    let t = (2 * c1.0, 2 * c1.1, 2 * c1.2);
    let c2 = cross_v3(u, t);
    (
        v.0 + fx_mul(q.3, t.0) + c2.0,
        v.1 + fx_mul(q.3, t.1) + c2.1,
        v.2 + fx_mul(q.3, t.2) + c2.2,
    )
}

/// A rotation in 3-space, normally of unit length.
#[derive(Clone, Copy, Debug, Default, PartialEq, Eq, Structural)]
pub struct Quat {
    /// X component of the vector part.
    pub x: Scalar,
    /// Y component of the vector part.
    pub y: Scalar,
    /// Z component of the vector part.
    pub z: Scalar,
    /// Scalar part.
    pub w: Scalar,
}

impl View for Quat {
    type V = (int, int, int, int);

    open spec fn view(&self) -> (int, int, int, int) {
        (self.x@, self.y@, self.z@, self.w@)
    }
}

impl Quat {
    /// Builds a quaternion from its components.
    pub fn new(x: Scalar, y: Scalar, z: Scalar, w: Scalar) -> (r: Quat)
        ensures
            r@ == (x@, y@, z@, w@),
    {
        Quat { x, y, z, w }
    }

    /// The identity rotation.
    pub fn identity() -> (r: Quat)
        ensures
            r@ == (0int, 0int, 0int, SCALE as int),
    {
        Quat { x: Scalar::zero(), y: Scalar::zero(), z: Scalar::zero(), w: Scalar::one() }
    }

    /// Hamilton product: the rotation that applies `rhs` first, then
    /// `self`.  Not commutative.
    pub fn mul(&self, rhs: Quat) -> (r: Quat)
        requires
            q_unit_range(self@),
            q_unit_range(rhs@),
        ensures
            r@ == quat_mul_q(self@, rhs@),
    {
        proof {
            lemma_quat_products_bounded(self@, rhs@);
        }
        Quat {
            x: self.w.mul(rhs.x).add(self.x.mul(rhs.w)).add(self.y.mul(rhs.z)).sub(
                self.z.mul(rhs.y),
            ),
            y: self.w.mul(rhs.y).sub(self.x.mul(rhs.z)).add(self.y.mul(rhs.w)).add(
                self.z.mul(rhs.x),
            ),
            z: self.w.mul(rhs.z).add(self.x.mul(rhs.y)).sub(self.y.mul(rhs.x)).add(
                self.z.mul(rhs.w),
            ),
            w: self.w.mul(rhs.w).sub(self.x.mul(rhs.x)).sub(self.y.mul(rhs.y)).sub(
                self.z.mul(rhs.z),
            ),
        }
    }

    /// Conjugate: for a unit quaternion this is the inverse rotation,
    /// with no division needed.
    pub fn conjugate(&self) -> (r: Quat)
        requires
            self.x@ != i64::MIN as int,
            self.y@ != i64::MIN as int,
            self.z@ != i64::MIN as int,
        ensures
            r@ == conj_q(self@),
    {
        Quat { x: self.x.neg(), y: self.y.neg(), z: self.z.neg(), w: self.w }
    }

    /// Applies this rotation to a vector.  For a unit quaternion the
    /// result keeps the vector's length; the quaternion is not
    /// re-normalized internally.
    pub fn rotate(&self, v: Vec3) -> (r: Vec3)
        requires
            q_unit_range(self@),
            v3_in_range(v@),
        ensures
            r@ == rotate_q(self@, v@),
    {
        proof {
            lemma_rotate_products_bounded(self@, v@);
        }
        let cx = self.y.mul(v.z).sub(self.z.mul(v.y));
        let cy = self.z.mul(v.x).sub(self.x.mul(v.z));
        let cz = self.x.mul(v.y).sub(self.y.mul(v.x));
        let tx = cx.add(cx);
        let ty = cy.add(cy);
        let tz = cz.add(cz);
        let dx = self.y.mul(tz).sub(self.z.mul(ty));
        let dy = self.z.mul(tx).sub(self.x.mul(tz));
        let dz = self.x.mul(ty).sub(self.y.mul(tx));
        Vec3::new(
            v.x.add(self.w.mul(tx)).add(dx),
            v.y.add(self.w.mul(ty)).add(dy),
            v.z.add(self.w.mul(tz)).add(dz),
        )
    }
}

/// Every pairwise product of near-unit quaternion components stays far
/// inside `i64`.
proof fn lemma_quat_products_bounded(a: (int, int, int, int), b: (int, int, int, int))
    requires
        q_unit_range(a),
        q_unit_range(b),
    ensures
        forall|i: int, j: int|
            #![trigger fx_mul(i, j)]
            -2 * (SCALE as int) <= i <= 2 * (SCALE as int) && -2 * (SCALE as int) <= j <= 2 * (
            SCALE as int) ==> -4_000_000 <= fx_mul(i, j) <= 4_000_000,
{
    assert forall|i: int, j: int|
        -2 * (SCALE as int) <= i <= 2 * (SCALE as int) && -2 * (SCALE as int) <= j <= 2 * (
        SCALE as int) implies -4_000_000 <= #[trigger] fx_mul(i, j) <= 4_000_000 by {
        lemma_fx_mul_bound(i, j, 2_000_000, 2_000_000, 4_000_000);
    }
}

/// Bounds for each product the rotation formula forms: vector part with
/// the input vector, then with the doubled cross product.
proof fn lemma_rotate_products_bounded(q: (int, int, int, int), v: (int, int, int))
    requires
        q_unit_range(q),
        v3_in_range(v),
    ensures
        forall|i: int, j: int|
            #![trigger fx_mul(i, j)]
            -2 * (SCALE as int) <= i <= 2 * (SCALE as int) && -500_000_000_000 <= j
                <= 500_000_000_000 ==> -1_000_000_000_000 <= fx_mul(i, j)
                <= 1_000_000_000_000,
        forall|i: int, j: int|
            #![trigger fx_mul(i, j)]
            -2 * (SCALE as int) <= i <= 2 * (SCALE as int) && -4_000_000_000_000 <= j
                <= 4_000_000_000_000 ==> -8_000_000_000_000 <= fx_mul(i, j)
                <= 8_000_000_000_000,
{
    assert forall|i: int, j: int|
        -2 * (SCALE as int) <= i <= 2 * (SCALE as int) && -500_000_000_000 <= j
            <= 500_000_000_000 implies -1_000_000_000_000 <= #[trigger] fx_mul(i, j)
        <= 1_000_000_000_000 by {
        lemma_fx_mul_bound(i, j, 2_000_000, 500_000_000_000, 1_000_000_000_000);
    }
    assert forall|i: int, j: int|
        -2 * (SCALE as int) <= i <= 2 * (SCALE as int) && -4_000_000_000_000 <= j
            <= 4_000_000_000_000 implies -8_000_000_000_000 <= #[trigger] fx_mul(i, j)
        <= 8_000_000_000_000 by {
        lemma_fx_mul_bound(i, j, 2_000_000, 4_000_000_000_000, 8_000_000_000_000);
    }
}

} // verus!
