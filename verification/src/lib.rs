//! Deterministic math types for server-side simulation code: a fixed-point
//! scalar, 2D/3D vectors, unit-quaternion rotations, and named
//! coordinate-system conventions built from degenerate-safe orthonormal
//! basis construction.

pub mod conventions;
pub mod quat;
pub mod scalar;
pub mod timing;
pub mod vec2;
pub mod vec3;

pub use conventions::Axes;
pub use quat::Quat;
pub use scalar::Scalar;
pub use scalar::SCALE;
pub use vec2::Vec2;
pub use vec3::Vec3;
