//! A CPU ray-tracing engine for axis-aligned-box scenes, written over a
//! saturating fixed-point number model so that every routine carries an
//! exact, machine-checked contract.
//!
//! One world unit is `fixed::SCALE` raw ticks of an `i64`; every arithmetic
//! operation saturates at `fixed::FX_MAX`, the engine's stand-in for an
//! infinite intermediate. The modules mirror the engine's layers: scalar
//! arithmetic, vectors, rays, box intersection, the camera, materials, and
//! the scene traversal.

pub mod fixed;
pub mod aabb;
pub mod camera;
pub mod material;
pub mod math;
pub mod ray;
pub mod scene;
pub mod trig;
