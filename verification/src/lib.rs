//! A ray-tracing core over exact fixed-point arithmetic.
//!
//! Scalars are `i64` values scaled by `fixed::ONE`; every arithmetic
//! operation is total (saturating) and specified exactly, so the
//! geometric results of the intersection engine are pinned down by
//! contracts rather than approximated.

pub mod aabb;
pub mod bvh;
pub mod camera;
pub mod color;
pub mod fixed;
pub mod hittable;
pub mod interval;
pub mod material;
pub mod ray;
pub mod rng;
pub mod sphere;
pub mod vector;
