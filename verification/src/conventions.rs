//! Coordinate system conventions and axis presets.
//!
//! The constructors build an orthonormal basis out of an arbitrary up
//! vector and forward hint: both are normalized, the right axis is their
//! normalized cross product, and the forward axis is re-derived with a
//! second cross product so that the basis is orthogonal even when the
//! original hint was not perpendicular to up.  Degeneracy in any step
//! (an input too short, or up and forward too nearly parallel) makes the
//! whole construction return `None`.

use vstd::prelude::*;
use crate::scalar::{Scalar, SCALE, fx_in_range, lemma_fx_mul_bound, lemma_fx_square_nonneg};
use crate::vec3::{Vec3, v3_in_range, v3_unit_range, cross_v3, normalize_v3, degenerate_v3, neg_v3, lemma_cross_antisymmetric, lemma_len_sq_neg, lemma_normalize_neg, lemma_cross_neg_left};

verus! {

/// One of the right-handed construction's steps degenerates: `up` or
/// `forward` is too short, or their normalized directions are too nearly
/// parallel for the cross product to clear `eps`.
pub open spec fn rh_degenerate(up: (int, int, int), fwd: (int, int, int), eps: int) -> bool {
    ||| degenerate_v3(up, eps)
    ||| degenerate_v3(fwd, eps)
    ||| degenerate_v3(cross_v3(normalize_v3(fwd), normalize_v3(up)), eps)
}

/// Mirror condition for the left-handed construction; the cross product's
/// operands swap, which only negates it, so this agrees with
/// `rh_degenerate` on every input.
pub open spec fn lh_degenerate(up: (int, int, int), fwd: (int, int, int), eps: int) -> bool {
    ||| degenerate_v3(up, eps)
    ||| degenerate_v3(fwd, eps)
    ||| degenerate_v3(cross_v3(normalize_v3(up), normalize_v3(fwd)), eps)
}

/// The right axis of the right-handed basis: the normalized cross product
/// of the normalized forward hint and the normalized up vector.
pub open spec fn rh_right(up: (int, int, int), fwd: (int, int, int)) -> (int, int, int) {
    normalize_v3(cross_v3(normalize_v3(fwd), normalize_v3(up)))
}

/// The forward axis of the right-handed basis, re-derived from up and
/// right so the basis is orthogonal.
pub open spec fn rh_forward(up: (int, int, int), fwd: (int, int, int)) -> (int, int, int) {
    cross_v3(normalize_v3(up), rh_right(up, fwd))
}

/// The right axis of the left-handed basis: the cross product's operands
/// swap relative to the right-handed construction.
pub open spec fn lh_right(up: (int, int, int), fwd: (int, int, int)) -> (int, int, int) {
    normalize_v3(cross_v3(normalize_v3(up), normalize_v3(fwd)))
}

/// The forward axis of the left-handed basis, re-derived from right and
/// up.
pub open spec fn lh_forward(up: (int, int, int), fwd: (int, int, int)) -> (int, int, int) {
    cross_v3(lh_right(up, fwd), normalize_v3(up))
}

/// Orthonormal axes describing a coordinate system's orientation.
#[derive(Clone, Copy, Debug, PartialEq, Eq, Structural)]
pub struct Axes {
    /// The up direction.
    pub up: Vec3,
    /// The forward direction.
    pub forward: Vec3,
    /// The right direction.
    pub right: Vec3,
}

impl Axes {
    /// Builds a right-handed orthonormal basis from `up` and `forward`.
    /// Returns `None` if the inputs are too small or nearly parallel.
    pub fn try_right_handed(up: Vec3, forward: Vec3, epsilon: Scalar) -> (r: Option<Axes>)
        requires
            v3_in_range(up@),
            v3_in_range(forward@),
            fx_in_range(epsilon@),
        ensures
            r is None <==> rh_degenerate(up@, forward@, epsilon@),
            r matches Some(axes) ==> {
                &&& axes.up@ == normalize_v3(up@)
                &&& axes.right@ == rh_right(up@, forward@)
                &&& axes.forward@ == rh_forward(up@, forward@)
                &&& v3_unit_range(axes.up@)
                &&& v3_unit_range(axes.right@)
            },
    {
        let up_n = match up.try_normalize(epsilon) {
            Some(v) => v,
            None => {
                return None;
            },
        };
        let forward_n = match forward.try_normalize(epsilon) {
            Some(v) => v,
            None => {
                return None;
            },
        };
        proof {
            lemma_cross_in_range(forward_n@, up_n@);
        }
        let right = match forward_n.cross(up_n).try_normalize(epsilon) {
            Some(v) => v,
            None => {
                return None;
            },
        };
        let new_forward = up_n.cross(right);
        Some(Axes { up: up_n, forward: new_forward, right })
    }

    /// Builds a left-handed orthonormal basis from `up` and `forward`.
    /// Returns `None` if the inputs are too small or nearly parallel.
    pub fn try_left_handed(up: Vec3, forward: Vec3, epsilon: Scalar) -> (r: Option<Axes>)
        requires
            v3_in_range(up@),
            v3_in_range(forward@),
            fx_in_range(epsilon@),
        ensures
            r is None <==> lh_degenerate(up@, forward@, epsilon@),
            r matches Some(axes) ==> {
                &&& axes.up@ == normalize_v3(up@)
                &&& axes.right@ == lh_right(up@, forward@)
                &&& axes.forward@ == lh_forward(up@, forward@)
                &&& v3_unit_range(axes.up@)
                &&& v3_unit_range(axes.right@)
            },
    {
        let up_n = match up.try_normalize(epsilon) {
            Some(v) => v,
            None => {
                return None;
            },
        };
        let forward_n = match forward.try_normalize(epsilon) {
            Some(v) => v,
            None => {
                return None;
            },
        };
        proof {
            lemma_cross_in_range(up_n@, forward_n@);
        }
        let right = match up_n.cross(forward_n).try_normalize(epsilon) {
            Some(v) => v,
            None => {
                return None;
            },
        };
        let new_forward = right.cross(up_n);
        Some(Axes { up: up_n, forward: new_forward, right })
    }
}

/// The cross product of two near-unit vectors stays far inside the range
/// the product-forming operations accept.
proof fn lemma_cross_in_range(a: (int, int, int), b: (int, int, int))
    requires
        v3_unit_range(a),
        v3_unit_range(b),
    ensures
        v3_in_range(cross_v3(a, b)),
{
    lemma_fx_mul_bound(a.1, b.2, 2_000_000, 2_000_000, 4_000_000);
    lemma_fx_mul_bound(a.2, b.1, 2_000_000, 2_000_000, 4_000_000);
    lemma_fx_mul_bound(a.2, b.0, 2_000_000, 2_000_000, 4_000_000);
    lemma_fx_mul_bound(a.0, b.2, 2_000_000, 2_000_000, 4_000_000);
    lemma_fx_mul_bound(a.0, b.1, 2_000_000, 2_000_000, 4_000_000);
    lemma_fx_mul_bound(a.1, b.0, 2_000_000, 2_000_000, 4_000_000);
}

/// On identical inputs the two constructions degenerate together; when
/// they succeed they share the same up and the same re-derived forward,
/// and their right axes are exact negations of each other: the mirrored
/// handedness only flips the right axis.
pub proof fn lemma_left_right_mirror(up: (int, int, int), fwd: (int, int, int), eps: int)
    ensures
        lh_degenerate(up, fwd, eps) == rh_degenerate(up, fwd, eps),
        !rh_degenerate(up, fwd, eps) ==> {
            &&& lh_right(up, fwd) == neg_v3(rh_right(up, fwd))
            &&& lh_forward(up, fwd) == rh_forward(up, fwd)
        },
{
    let u1 = normalize_v3(up);
    let f1 = normalize_v3(fwd);
    let c = cross_v3(f1, u1);
    lemma_cross_antisymmetric(u1, f1);
    lemma_len_sq_neg(c);
    if !rh_degenerate(up, fwd, eps) {
        lemma_fx_square_nonneg(eps);
        lemma_normalize_neg(c);
        lemma_cross_neg_left(rh_right(up, fwd), u1);
        lemma_cross_antisymmetric(u1, rh_right(up, fwd));
    }
}

/// Default coordinate convention.
pub fn default_convention() -> (r: Axes)
    ensures
        r.up@ == (0int, SCALE as int, 0int),
        r.forward@ == (0int, 0int, -(SCALE as int)),
        r.right@ == (SCALE as int, 0int, 0int),
{
    y_up_right_handed_fwd_neg_z()
}

/// Right-handed, Y-up convention with forward = -Z.
/// Common in Bevy and Godot.
pub fn y_up_right_handed_fwd_neg_z() -> (r: Axes)
    ensures
        r.up@ == (0int, SCALE as int, 0int),
        r.forward@ == (0int, 0int, -(SCALE as int)),
        r.right@ == (SCALE as int, 0int, 0int),
{
    Axes {
        up: Vec3::new(Scalar::zero(), Scalar::one(), Scalar::zero()),
        forward: Vec3::new(Scalar::zero(), Scalar::zero(), Scalar::one().neg()),
        right: Vec3::new(Scalar::one(), Scalar::zero(), Scalar::zero()),
    }
}

/// Right-handed, Y-up convention with forward = +Z.
pub fn y_up_right_handed_fwd_pos_z() -> (r: Axes)
    ensures
        r.up@ == (0int, SCALE as int, 0int),
        r.forward@ == (0int, 0int, SCALE as int),
        r.right@ == (-(SCALE as int), 0int, 0int),
{
    Axes {
        up: Vec3::new(Scalar::zero(), Scalar::one(), Scalar::zero()),
        forward: Vec3::new(Scalar::zero(), Scalar::zero(), Scalar::one()),
        right: Vec3::new(Scalar::one().neg(), Scalar::zero(), Scalar::zero()),
    }
}

/// Left-handed, Y-up convention with forward = +Z.
/// Common in Unity.
pub fn y_up_left_handed_fwd_pos_z() -> (r: Axes)
    ensures
        r.up@ == (0int, SCALE as int, 0int),
        r.forward@ == (0int, 0int, SCALE as int),
        r.right@ == (SCALE as int, 0int, 0int),
{
    Axes {
        up: Vec3::new(Scalar::zero(), Scalar::one(), Scalar::zero()),
        forward: Vec3::new(Scalar::zero(), Scalar::zero(), Scalar::one()),
        right: Vec3::new(Scalar::one(), Scalar::zero(), Scalar::zero()),
    }
}

/// Right-handed, Z-up convention with forward = +Y.
/// Common in Blender; also used by some level editors.
pub fn z_up_right_handed_fwd_pos_y() -> (r: Axes)
    ensures
        r.up@ == (0int, 0int, SCALE as int),
        r.forward@ == (0int, SCALE as int, 0int),
        r.right@ == (SCALE as int, 0int, 0int),
{
    Axes {
        up: Vec3::new(Scalar::zero(), Scalar::zero(), Scalar::one()),
        forward: Vec3::new(Scalar::zero(), Scalar::one(), Scalar::zero()),
        right: Vec3::new(Scalar::one(), Scalar::zero(), Scalar::zero()),
    }
}

/// Left-handed, Z-up convention with forward = +X.
/// Common in Unreal.
pub fn z_up_left_handed_fwd_pos_x() -> (r: Axes)
    ensures
        r.up@ == (0int, 0int, SCALE as int),
        r.forward@ == (SCALE as int, 0int, 0int),
        r.right@ == (0int, SCALE as int, 0int),
{
    Axes {
        up: Vec3::new(Scalar::zero(), Scalar::zero(), Scalar::one()),
        forward: Vec3::new(Scalar::one(), Scalar::zero(), Scalar::zero()),
        right: Vec3::new(Scalar::zero(), Scalar::one(), Scalar::zero()),
    }
}

} // verus!
