//! Rays: an origin, a direction, and a time of cast inside the shutter
//! interval.

use vstd::prelude::*;

use crate::fixed::{fx_max_i, fx_min_i, ONE};
use crate::vector::{v3_plus, v3_scale, Point3D, Vector3D};

verus! {

/// The largest direction component a ray may carry; the slab test's
/// exact cross-multiplied comparisons need this budget to stay inside
/// 128-bit arithmetic.
pub const DIR_MAX: i64 = 0x7fffffff;

/// A ray cast at `time` within the shutter interval `[0, ONE]`.
#[derive(Debug, Clone, Copy, PartialEq, Eq, Structural)]
pub struct Ray {
    pub origin: Point3D,
    pub direction: Vector3D,
    pub time: i64,
}

/// A direction component forced into the representable budget.
pub open spec fn clamp_dir_i(d: i64) -> i64 {
    fx_max_i(fx_min_i(d, DIR_MAX), (-DIR_MAX) as i64)
}

/// A direction with every component inside the budget.
pub open spec fn clamp_dir(d: Vector3D) -> Vector3D {
    Vector3D { x: clamp_dir_i(d.x), y: clamp_dir_i(d.y), z: clamp_dir_i(d.z) }
}

impl Ray {
    /// Whether the ray's direction and time are inside the
    /// representation's budget; every constructed ray is.
    pub open spec fn wf(self) -> bool {
        &&& -DIR_MAX <= self.direction.x <= DIR_MAX
        &&& -DIR_MAX <= self.direction.y <= DIR_MAX
        &&& -DIR_MAX <= self.direction.z <= DIR_MAX
        &&& 0 <= self.time <= ONE
    }

    /// The ray at the origin, pointing nowhere, cast at time zero.
    pub fn default() -> (r: Self)
        ensures
            r == (Ray {
                origin: Point3D { x: 0, y: 0, z: 0 },
                direction: Vector3D { x: 0, y: 0, z: 0 },
                time: 0,
            }),
            r.wf(),
    {
        Ray {
            origin: Point3D { x: 0, y: 0, z: 0 },
            direction: Vector3D { x: 0, y: 0, z: 0 },
            time: 0,
        }
    }

    /// A ray from its parts. Direction components outside the budget
    /// are clamped to it.
    pub fn new(origin: Point3D, direction: Vector3D, time: i64) -> (r: Self)
        requires
            0 <= time <= ONE,
        ensures
            r == (Ray { origin, direction: clamp_dir(direction), time }),
            r.wf(),
    {
        let dx: i64 = if direction.x > DIR_MAX {
            DIR_MAX
        } else if direction.x < -DIR_MAX {
            -DIR_MAX
        } else {
            direction.x
        };
        let dy: i64 = if direction.y > DIR_MAX {
            DIR_MAX
        } else if direction.y < -DIR_MAX {
            -DIR_MAX
        } else {
            direction.y
        };
        let dz: i64 = if direction.z > DIR_MAX {
            DIR_MAX
        } else if direction.z < -DIR_MAX {
            -DIR_MAX
        } else {
            direction.z
        };
        Ray { origin, direction: Vector3D { x: dx, y: dy, z: dz }, time }
    }

    /// The point `origin + direction * depth`.
    pub fn at(&self, depth: i64) -> (r: Point3D)
        ensures
            r == ray_at(*self, depth),
    {
        self.origin.plus(&self.direction.scaled(depth))
    }

    /// The ray's origin.
    pub fn origin(&self) -> (r: Point3D)
        ensures
            r == self.origin,
    {
        self.origin
    }

    /// The ray's direction.
    pub fn direction(&self) -> (r: Vector3D)
        ensures
            r == self.direction,
    {
        self.direction
    }

    /// The ray's time of cast.
    pub fn time(&self) -> (r: i64)
        ensures
            r == self.time,
    {
        self.time
    }
}

/// `ray.at` at the specification level.
pub open spec fn ray_at(ray: Ray, depth: i64) -> Point3D {
    v3_plus(ray.origin, v3_scale(ray.direction, depth))
}

} // verus!
