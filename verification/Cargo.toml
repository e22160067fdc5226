[package]
name = "spacetimedb_math"
version = "0.1.0"
edition = "2021"
publish = false

[dependencies]
glam = "=0.34.0"
nalgebra = "=0.35.0"
serde = { version = "=1.0.229", features = ["derive"] }
spacetimedb = "=2.9.0"
