use spacetimedb_math::Quat;
use spacetimedb_math::Scalar;
use spacetimedb_math::Vec3;
use spacetimedb_math::timing::delta_time_or;
use spacetimedb_math::timing::try_delta_time;

fn s(units: i64) -> Scalar {
    Scalar::from_int(units)
}

fn micros(raw: i64) -> Scalar {
    Scalar::from_micros(raw)
}

fn close(a: Scalar, b: Scalar) -> bool {
    a.sub(b).abs().le(micros(10))
}

#[test]
fn identity_rotation_leaves_vectors_unchanged() {
    let v = Vec3::new(s(1), s(-2), s(3));
    assert_eq!(Quat::identity().rotate(v), v);
}

#[test]
fn rotation_about_z_moves_x_toward_y() {
    // Unit quaternion for a rotation about +Z: cos and sin of the half
    // angle are exactly 0.8 and 0.6 at micro resolution.
    let q = Quat::new(s(0), s(0), micros(600_000), micros(800_000));
    let v = Vec3::new(s(1), s(2), s(3));
    // cos = 0.28 and sin = 0.96, so the image is exact.
    let rotated = q.rotate(v);
    assert_eq!(rotated, Vec3::new(micros(-1_640_000), micros(1_520_000), s(3)));
}

#[test]
fn rotating_by_conjugate_returns_original_vector() {
    let q = Quat::new(s(0), s(0), micros(600_000), micros(800_000));
    let v = Vec3::new(s(1), s(2), s(3));
    let there = q.rotate(v);
    let back = q.conjugate().rotate(there);
    assert!(close(back.x, v.x));
    assert!(close(back.y, v.y));
    assert!(close(back.z, v.z));
}

#[test]
fn composition_applies_right_rotation_first() {
    let q = Quat::new(s(0), s(0), micros(600_000), micros(800_000));
    let twice = q.mul(q);
    assert_eq!(twice, Quat::new(s(0), s(0), micros(960_000), micros(280_000)));
    let v = Vec3::new(s(1), s(0), s(0));
    let stepwise = q.rotate(q.rotate(v));
    let composed = twice.rotate(v);
    assert!(close(stepwise.x, composed.x));
    assert!(close(stepwise.y, composed.y));
    assert!(close(stepwise.z, composed.z));
}

#[test]
fn composing_with_identity_changes_nothing() {
    let q = Quat::new(s(0), s(0), micros(600_000), micros(800_000));
    assert_eq!(q.mul(Quat::identity()), q);
    assert_eq!(Quat::identity().mul(q), q);
}

#[test]
fn delta_time_counts_seconds_between_timestamps() {
    assert_eq!(try_delta_time(5_000_000, 3_000_000), Some(s(2)));
    assert_eq!(try_delta_time(3_000_000, 3_000_000), Some(s(0)));
    assert_eq!(try_delta_time(3_000_000, 5_000_000), None);
    assert_eq!(delta_time_or(5_000_000, 3_000_000, s(9)), s(2));
    assert_eq!(delta_time_or(3_000_000, 5_000_000, s(9)), s(9));
}
