//! Sphere primitives, static or moving linearly over the shutter
//! interval.
//!
//! A sphere's hit test solves the ray-sphere quadratic in fixed-point
//! arithmetic and accepts a root only when it lies strictly inside the
//! depth window *and* its point lies inside the sphere's bounding box
//! (checked exactly). The second condition makes bounding-volume
//! pruning lossless: a box that the slab test rejects can hide no
//! accepted root.

use vstd::prelude::*;

use crate::aabb::{aabb_union, point_within, point_within_check, AABB};
use crate::fixed::{
    fx_add, fx_add_i, fx_div, fx_div_i, fx_mul, fx_mul_i, fx_neg, fx_neg_i, fx_sqrt, fx_sqrt_i,
    fx_sub, fx_sub_i,
};
use crate::hittable::HitRecord;
use crate::interval::Interval;
use crate::ray::{ray_at, Ray};
use crate::vector::{
    v3_div, v3_dot, v3_length_squared, v3_minus, v3_neg, v3_plus, v3_scale, Point3D, Vector3D,
};

verus! {

/// A sphere with an optional linear center trajectory, a radius, a
/// material handle, and a cached bounding box.
#[derive(Debug, Clone, Copy, PartialEq, Eq)]
pub struct Sphere {
    /// The center at shutter time zero.
    pub center: Point3D,
    /// The motion over the whole shutter interval (zero when static).
    pub center_vector: Vector3D,
    /// The radius.
    pub radius: i64,
    /// Whether the center moves with time.
    pub is_moving: bool,
    /// Handle into the scene's material arena.
    pub material: usize,
    /// A box holding the sphere over the whole shutter interval.
    pub bounding_box: AABB,
}

/// The sphere's center at the given time.
pub open spec fn sphere_center_s(s: Sphere, time: i64) -> Point3D {
    v3_plus(s.center, v3_scale(s.center_vector, time))
}

/// The center the hit test uses: time-dependent only when moving.
pub open spec fn sphere_center_at(s: Sphere, time: i64) -> Point3D {
    if s.is_moving {
        sphere_center_s(s, time)
    } else {
        s.center
    }
}

/// The two roots of the ray-sphere quadratic, and whether the
/// discriminant was nonnegative. The first root is never larger than
/// the second. Kept opaque: traversal proofs treat the roots as given.
#[verifier::opaque]
pub open spec fn sphere_roots(s: Sphere, ray: Ray) -> (i64, i64, bool) {
    let center = sphere_center_at(s, ray.time);
    let oc = v3_minus(ray.origin, center);
    let a = v3_length_squared(ray.direction);
    let half_b = v3_dot(oc, ray.direction);
    let c = fx_sub_i(v3_length_squared(oc), fx_mul_i(s.radius, s.radius));
    let disc = fx_sub_i(fx_mul_i(half_b, half_b), fx_mul_i(a, c));
    if disc < 0 {
        (0, 0, false)
    } else {
        let sq = fx_sqrt_i(disc);
        (
            fx_div_i(fx_sub_i(fx_neg_i(half_b), sq), a),
            fx_div_i(fx_add_i(fx_neg_i(half_b), sq), a),
            true,
        )
    }
}

/// Whether a root is accepted: strictly inside the window, with its
/// point inside the sphere's box.
pub open spec fn sphere_accepts(s: Sphere, ray: Ray, interval: Interval, t: i64) -> bool {
    interval.min < t && t < interval.max && point_within(s.bounding_box, ray, t as int)
}

/// The accepted root, if any: the smaller root is tried first.
pub open spec fn sphere_candidate(s: Sphere, ray: Ray, interval: Interval) -> Option<i64> {
    let roots = sphere_roots(s, ray);
    if !roots.2 {
        None
    } else if sphere_accepts(s, ray, interval, roots.0) {
        Some(roots.0)
    } else if sphere_accepts(s, ray, interval, roots.1) {
        Some(roots.1)
    } else {
        None
    }
}

/// The record produced for an accepted root.
pub open spec fn sphere_record(s: Sphere, ray: Ray, t: i64) -> HitRecord {
    let center = sphere_center_at(s, ray.time);
    let point = ray_at(ray, t);
    let outward = v3_div(v3_minus(point, center), s.radius);
    let front = v3_dot(ray.direction, outward) < 0;
    HitRecord {
        point,
        normal: if front {
            outward
        } else {
            v3_neg(outward)
        },
        material: Some(s.material),
        depth: t,
        front_face: front,
    }
}

/// The sphere's hit result as a function of sphere, ray and window.
pub open spec fn sphere_hit_s(s: Sphere, ray: Ray, interval: Interval) -> Option<HitRecord> {
    match sphere_candidate(s, ray, interval) {
        Some(t) => Some(sphere_record(s, ray, t)),
        None => None,
    }
}

/// The quadratic's first root never exceeds its second.
pub proof fn lemma_roots_ordered(s: Sphere, ray: Ray)
    ensures
        sphere_roots(s, ray).2 ==> sphere_roots(s, ray).0 <= sphere_roots(s, ray).1,
{
    let center = sphere_center_at(s, ray.time);
    let oc = v3_minus(ray.origin, center);
    let a = v3_length_squared(ray.direction);
    let half_b = v3_dot(oc, ray.direction);
    let c = fx_sub_i(v3_length_squared(oc), fx_mul_i(s.radius, s.radius));
    let disc = fx_sub_i(fx_mul_i(half_b, half_b), fx_mul_i(a, c));
    reveal(sphere_roots);
    if disc >= 0 {
        let sq = fx_sqrt_i(disc);
        crate::fixed::lemma_fx_sqrt_i_bounds(disc);
        crate::vector::lemma_length_squared_nonneg(ray.direction);
        crate::fixed::lemma_fx_div_monotone_num(
            fx_sub_i(fx_neg_i(half_b), sq),
            fx_add_i(fx_neg_i(half_b), sq),
            a,
        );
    }
}

/// Normal orientation: the normal stored in a produced record opposes
/// the incoming ray's direction, whichever way the surface faced. The
/// outward normal must not carry the one scalar whose negation
/// saturates (a box-sized value that no real geometry produces).
pub proof fn lemma_record_normal_opposes(s: Sphere, ray: Ray, t: i64)
    requires
        ({
            let outward = v3_div(
                v3_minus(ray_at(ray, t), sphere_center_at(s, ray.time)),
                s.radius,
            );
            outward.x > i64::MIN && outward.y > i64::MIN && outward.z > i64::MIN
        }),
    ensures
        v3_dot(ray.direction, sphere_record(s, ray, t).normal) <= 0,
{
    let outward = v3_div(v3_minus(ray_at(ray, t), sphere_center_at(s, ray.time)), s.radius);
    if v3_dot(ray.direction, outward) < 0 {
    } else {
        crate::vector::lemma_dot_neg_opposes(ray.direction, outward);
    }
}

/// A candidate filtered by a new, lower upper bound.
pub open spec fn narrowed_candidate(o: Option<i64>, hi2: i64) -> Option<i64> {
    match o {
        Some(t) => if t < hi2 {
            Some(t)
        } else {
            None
        },
        None => None,
    }
}

/// Narrowing the window's upper bound keeps a candidate exactly when
/// its depth stays below the new bound; no new candidate can appear.
pub proof fn lemma_candidate_narrow(s: Sphere, ray: Ray, lo: i64, hi: i64, hi2: i64)
    requires
        hi2 <= hi,
    ensures
        sphere_candidate(s, ray, Interval { min: lo, max: hi2 }) == narrowed_candidate(
            sphere_candidate(s, ray, Interval { min: lo, max: hi }),
            hi2,
        ),
{
    lemma_roots_ordered(s, ray);
}

impl Sphere {
    /// A sphere that does not move; its box is `center ± radius` on
    /// each axis.
    pub fn new_static(center: Point3D, radius: i64, material: usize) -> (r: Self)
        ensures
            r.center == center,
            r.center_vector == (Vector3D { x: 0, y: 0, z: 0 }),
            r.radius == radius,
            !r.is_moving,
            r.material == material,
            r.bounding_box == (AABB {
                x: Interval { min: fx_sub_i(center.x, radius), max: fx_add_i(center.x, radius) },
                y: Interval { min: fx_sub_i(center.y, radius), max: fx_add_i(center.y, radius) },
                z: Interval { min: fx_sub_i(center.z, radius), max: fx_add_i(center.z, radius) },
            }),
    {
        let bounding_box = AABB {
            x: Interval { min: fx_sub(center.x, radius), max: fx_add(center.x, radius) },
            y: Interval { min: fx_sub(center.y, radius), max: fx_add(center.y, radius) },
            z: Interval { min: fx_sub(center.z, radius), max: fx_add(center.z, radius) },
        };
        Sphere {
            center,
            center_vector: Vector3D { x: 0, y: 0, z: 0 },
            radius,
            is_moving: false,
            material,
            bounding_box,
        }
    }

    /// A sphere moving linearly from `center1` to `center2` over the
    /// shutter interval; its box is the union of the two end boxes.
    pub fn new_dynamic(center1: Point3D, center2: Point3D, radius: i64, material: usize) -> (r:
        Self)
        ensures
            r.center == center1,
            r.center_vector == v3_minus(center2, center1),
            r.radius == radius,
            r.is_moving,
            r.material == material,
            r.bounding_box == aabb_union(
                AABB {
                    x: Interval {
                        min: fx_sub_i(center1.x, radius),
                        max: fx_add_i(center1.x, radius),
                    },
                    y: Interval {
                        min: fx_sub_i(center1.y, radius),
                        max: fx_add_i(center1.y, radius),
                    },
                    z: Interval {
                        min: fx_sub_i(center1.z, radius),
                        max: fx_add_i(center1.z, radius),
                    },
                },
                AABB {
                    x: Interval {
                        min: fx_sub_i(center2.x, radius),
                        max: fx_add_i(center2.x, radius),
                    },
                    y: Interval {
                        min: fx_sub_i(center2.y, radius),
                        max: fx_add_i(center2.y, radius),
                    },
                    z: Interval {
                        min: fx_sub_i(center2.z, radius),
                        max: fx_add_i(center2.z, radius),
                    },
                },
            ),
    {
        let box1 = AABB {
            x: Interval { min: fx_sub(center1.x, radius), max: fx_add(center1.x, radius) },
            y: Interval { min: fx_sub(center1.y, radius), max: fx_add(center1.y, radius) },
            z: Interval { min: fx_sub(center1.z, radius), max: fx_add(center1.z, radius) },
        };
        let box2 = AABB {
            x: Interval { min: fx_sub(center2.x, radius), max: fx_add(center2.x, radius) },
            y: Interval { min: fx_sub(center2.y, radius), max: fx_add(center2.y, radius) },
            z: Interval { min: fx_sub(center2.z, radius), max: fx_add(center2.z, radius) },
        };
        Sphere {
            center: center1,
            center_vector: center2.minus(&center1),
            radius,
            is_moving: true,
            material,
            bounding_box: AABB::from_aabb_bounds(&box1, &box2),
        }
    }

    /// The center at the given time, by linear interpolation.
    pub fn center(&self, time: i64) -> (r: Point3D)
        ensures
            r == sphere_center_s(*self, time),
    {
        self.center.plus(&self.center_vector.scaled(time))
    }

    /// The nearest accepted root of the ray-sphere quadratic inside
    /// the window, with its record; `None` when the ray misses.
    pub fn hit(&self, ray: &Ray, interval: &Interval) -> (r: Option<HitRecord>)
        requires
            ray.wf(),
        ensures
            r == sphere_hit_s(*self, *ray, *interval),
    {
        proof {
            reveal(sphere_roots);
        }
        let center = if self.is_moving {
            self.center(ray.time)
        } else {
            self.center
        };
        let origin_center = ray.origin().minus(&center);

        let a: i64 = ray.direction().length_squared();
        let half_b: i64 = Vector3D::dot(&origin_center, &ray.direction());
        let c: i64 = fx_sub(origin_center.length_squared(), fx_mul(self.radius, self.radius));

        let discriminant: i64 = fx_sub(fx_mul(half_b, half_b), fx_mul(a, c));
        if discriminant < 0 {
            return None;
        }
        let discriminant_sqrt: i64 = fx_sqrt(discriminant);
        let neg_half_b: i64 = fx_neg(half_b);
        let mut root: i64 = fx_div(fx_sub(neg_half_b, discriminant_sqrt), a);

        if !(interval.surrounds(root) && point_within_check(&self.bounding_box, ray, root)) {
            root = fx_div(fx_add(neg_half_b, discriminant_sqrt), a);
            if !(interval.surrounds(root) && point_within_check(&self.bounding_box, ray, root)) {
                return None;
            }
        }

        let mut record = HitRecord::default();
        record.depth = root;
        record.point = ray.at(record.depth);

        let outward_normal = record.point.minus(&center).divided(self.radius);
        record.set_face_normal(ray, &outward_normal);
        record.material = Some(self.material);

        Some(record)
    }

    /// The cached bounding box.
    pub fn bounding_box(&self) -> (r: AABB)
        ensures
            r == self.bounding_box,
    {
        self.bounding_box
    }
}

} // verus!
