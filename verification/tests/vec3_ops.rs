use spacetimedb_math::Scalar;
use spacetimedb_math::Vec2;
use spacetimedb_math::Vec3;

fn s(units: i64) -> Scalar {
    Scalar::from_int(units)
}

#[test]
fn constants_match_constructor() {
    assert_eq!(Vec3::zero(), Vec3::new(s(0), s(0), s(0)));
    assert_eq!(Vec3::one(), Vec3::new(s(1), s(1), s(1)));
}

#[test]
fn vec3_xy_returns_xy_plane() {
    let v = Vec3::new(s(1), s(2), s(3));
    assert_eq!(v.xy(), Vec2::new(s(1), s(2)));
}

#[test]
fn vec3_xz_returns_ground_plane() {
    let v = Vec3::new(s(1), s(2), s(3));
    assert_eq!(v.xz(), Vec2::new(s(1), s(3)));
}

#[test]
fn vec3_dot_is_sum_of_component_products() {
    let a = Vec3::new(s(1), s(2), s(3));
    let b = Vec3::new(s(4), s(5), s(6));
    assert_eq!(a.dot(b), s(32));
}

#[test]
fn vec3_length_squared_is_sum_of_squares() {
    let v = Vec3::new(s(2), s(3), s(6));
    assert_eq!(v.length_squared(), s(49));
}

#[test]
fn vec3_length_is_square_root_of_length_squared() {
    let v = Vec3::new(s(2), s(3), s(6));
    assert_eq!(v.length(), s(7));
}

#[test]
fn vec3_distance_squared_is_sum_of_delta_squares() {
    let a = Vec3::new(s(1), s(2), s(3));
    let b = Vec3::new(s(4), s(6), s(9));
    assert_eq!(a.distance_squared(b), s(61));
}

#[test]
fn vec3_distance_is_square_root_of_distance_squared() {
    let a = Vec3::new(s(1), s(2), s(3));
    let b = Vec3::new(s(4), s(6), s(9));
    let expected = s(61).sqrt();
    let actual = a.distance(b);
    let epsilon = Scalar::from_micros(10);
    assert!(actual.sub(expected).abs().le(epsilon));
}

#[test]
fn vec3_normalize_or_zero_handles_zero_length() {
    let v = Vec3::zero();
    let normalized = v.normalize_or_zero(Scalar::from_micros(10));
    assert_eq!(normalized, Vec3::zero());
}

#[test]
fn vec3_normalize_or_uses_fallback_when_too_small() {
    let v = Vec3::new(s(0), s(0), s(0));
    let fallback = Vec3::new(s(1), s(0), s(0));
    let normalized = v.normalize_or(Scalar::from_micros(10), fallback);
    assert_eq!(normalized, fallback);
}

#[test]
fn vec3_normalize_produces_unit_length_for_non_zero() {
    let v = Vec3::new(s(2), s(3), s(6));
    let normalized = v.try_normalize(Scalar::from_micros(10)).expect("expected unit vector");
    let length = normalized.length();
    let epsilon = Scalar::from_micros(10);
    assert!(length.sub(s(1)).abs().le(epsilon));
}
