use spacetimedb_math::Axes;
use spacetimedb_math::Scalar;
use spacetimedb_math::Vec2;
use spacetimedb_math::Vec3;
use spacetimedb_math::conventions::y_up_right_handed_fwd_neg_z;
use spacetimedb_math::conventions::z_up_left_handed_fwd_pos_x;
use spacetimedb_math::conventions::default_convention;

fn s(units: i64) -> Scalar {
    Scalar::from_int(units)
}

fn micros(raw: i64) -> Scalar {
    Scalar::from_micros(raw)
}

fn close(a: Scalar, b: Scalar) -> bool {
    a.sub(b).abs().le(micros(10))
}

#[test]
fn dot_of_vector_with_itself_is_length_squared() {
    let v = Vec3::new(micros(1_250_000), s(-3), s(7));
    assert_eq!(v.dot(v), v.length_squared());
}

#[test]
fn length_is_square_root_of_length_squared() {
    let v = Vec3::new(s(1), s(2), s(2));
    assert_eq!(v.length(), v.length_squared().sqrt());
    assert_eq!(v.length(), s(3));
}

#[test]
fn cross_is_anticommutative() {
    let a = Vec3::new(s(1), micros(-2_500_000), s(3));
    let b = Vec3::new(s(-4), s(5), micros(6_750_000));
    let ab = a.cross(b);
    let ba = b.cross(a);
    assert_eq!(ab.x, ba.x.neg());
    assert_eq!(ab.y, ba.y.neg());
    assert_eq!(ab.z, ba.z.neg());
}

#[test]
fn degenerate_vector_fails_every_normalization() {
    let v = Vec3::new(micros(3), micros(-4), micros(0));
    let eps = micros(5_000);
    let fallback = Vec3::new(s(9), s(9), s(9));
    assert_eq!(v.try_normalize(eps), None);
    assert_eq!(v.normalize_or(eps, fallback), fallback);
    assert_eq!(v.normalize_or_zero(eps), Vec3::zero());
}

#[test]
fn skew_forward_hint_yields_exact_orthonormal_basis() {
    let up = Vec3::new(s(0), s(1), s(0));
    let forward = Vec3::new(s(3), s(4), s(0));
    let axes = Axes::try_right_handed(up, forward, micros(10)).expect("non-degenerate");
    assert_eq!(axes.up, Vec3::new(s(0), s(1), s(0)));
    assert_eq!(axes.right, Vec3::new(s(0), s(0), s(1)));
    assert_eq!(axes.forward, Vec3::new(s(1), s(0), s(0)));
    assert!(close(axes.up.dot(axes.right), s(0)));
    assert!(close(axes.up.dot(axes.forward), s(0)));
    assert!(close(axes.right.dot(axes.forward), s(0)));
    assert!(close(axes.up.length(), s(1)));
    assert!(close(axes.right.length(), s(1)));
    assert!(close(axes.forward.length(), s(1)));
}

#[test]
fn basis_is_orthonormal_within_tolerance_for_uneven_inputs() {
    let up = Vec3::new(s(0), s(1), s(0));
    let forward = Vec3::new(s(2), micros(300_000), s(-1));
    let axes = Axes::try_right_handed(up, forward, micros(10)).expect("non-degenerate");
    assert!(close(axes.up.dot(axes.right), s(0)));
    assert!(close(axes.up.dot(axes.forward), s(0)));
    assert!(close(axes.up.length(), s(1)));
    assert!(close(axes.right.length(), s(1)));
    assert!(close(axes.forward.length(), s(1)));
}

#[test]
fn left_handed_mirrors_right_handed() {
    let up = Vec3::new(micros(100_000), s(1), micros(-50_000));
    let forward = Vec3::new(s(2), micros(300_000), s(-1));
    let eps = micros(10);
    let rh = Axes::try_right_handed(up, forward, eps).expect("non-degenerate");
    let lh = Axes::try_left_handed(up, forward, eps).expect("non-degenerate");
    assert_eq!(lh.up, rh.up);
    assert_eq!(lh.forward, rh.forward);
    assert_eq!(lh.right.x, rh.right.x.neg());
    assert_eq!(lh.right.y, rh.right.y.neg());
    assert_eq!(lh.right.z, rh.right.z.neg());
}

#[test]
fn y_up_forward_neg_z_matches_preset_exactly() {
    let up = Vec3::new(s(0), s(1), s(0));
    let forward = Vec3::new(s(0), s(0), s(-1));
    let axes = Axes::try_right_handed(up, forward, micros(10)).expect("non-degenerate");
    assert_eq!(axes, y_up_right_handed_fwd_neg_z());
    assert_eq!(axes, default_convention());
}

#[test]
fn z_up_forward_x_gives_negative_y_right_when_right_handed() {
    let up = Vec3::new(s(0), s(0), s(1));
    let forward = Vec3::new(s(1), s(0), s(0));
    let axes = Axes::try_right_handed(up, forward, micros(10)).expect("non-degenerate");
    assert_eq!(axes.right, Vec3::new(s(0), s(-1), s(0)));
}

#[test]
fn z_up_forward_x_gives_positive_y_right_when_left_handed() {
    let up = Vec3::new(s(0), s(0), s(1));
    let forward = Vec3::new(s(1), s(0), s(0));
    let axes = Axes::try_left_handed(up, forward, micros(10)).expect("non-degenerate");
    assert_eq!(axes.right, Vec3::new(s(0), s(1), s(0)));
    assert_eq!(axes, z_up_left_handed_fwd_pos_x());
}

#[test]
fn parallel_forward_fails_both_constructions_for_any_epsilon() {
    let up = Vec3::new(s(0), s(1), s(0));
    let forward = Vec3::new(s(0), s(2), s(0));
    assert_eq!(Axes::try_right_handed(up, forward, micros(1)), None);
    assert_eq!(Axes::try_left_handed(up, forward, micros(1)), None);
    assert_eq!(Axes::try_right_handed(up, forward, micros(10)), None);
    assert_eq!(Axes::try_left_handed(up, forward, micros(10)), None);
}

#[test]
fn vec2_mirrors_vec3_operations() {
    let a = Vec2::new(s(3), s(4));
    assert_eq!(a.dot(a), s(25));
    assert_eq!(a.length_squared(), s(25));
    assert_eq!(a.length(), s(5));
    let b = Vec2::new(s(6), s(8));
    assert_eq!(a.distance_squared(b), s(25));
    assert_eq!(a.distance(b), s(5));
    let unit = a.try_normalize(micros(10)).expect("non-degenerate");
    assert_eq!(unit, Vec2::new(micros(600_000), micros(800_000)));
    assert_eq!(Vec2::zero().try_normalize(micros(10)), None);
    assert_eq!(Vec2::zero().normalize_or(micros(10), b), b);
    assert_eq!(Vec2::zero().normalize_or_zero(micros(10)), Vec2::zero());
    assert_eq!(Vec2::one(), Vec2::new(s(1), s(1)));
}

#[test]
fn scalar_arithmetic_is_exact_at_micro_resolution() {
    assert_eq!(s(2).mul(s(3)), s(6));
    assert_eq!(s(49).sqrt(), s(7));
    assert_eq!(s(1).div(s(3)), micros(333_333));
    assert_eq!(s(-1).div(s(3)), micros(-333_333));
    assert_eq!(s(5).sub(s(7)), s(-2));
    assert_eq!(s(-2).abs(), s(2));
    assert_eq!(s(0), Scalar::zero());
    assert_eq!(s(1), Scalar::one());
    assert_eq!(s(1).to_micros(), 1_000_000);
    assert!(s(1).lt(s(2)));
    assert!(!s(2).le(s(1)));
}
