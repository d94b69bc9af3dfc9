//! Three-component vectors over fixed-point scalars.
//!
//! Every operation mirrors a specification function exactly, so callers
//! can reason about vector arithmetic as ordinary integer arithmetic.

use vstd::prelude::*;

use crate::fixed::{
    fx_abs, fx_abs_i, fx_add, fx_add_i, fx_div, fx_div_i, fx_min, fx_min_i, fx_mul, fx_mul_i,
    fx_neg, fx_neg_i, fx_sqrt, fx_sqrt_i, fx_sub, fx_sub_i, fx_mul_s, sat64, tdiv, ONE,
};

verus! {

/// A point or direction in space; each component is a fixed-point
/// scalar.
#[derive(Debug, Clone, Copy, PartialEq, Eq, Structural)]
pub struct Vector3D {
    pub x: i64,
    pub y: i64,
    pub z: i64,
}

/// A point in space is a vector from the origin.
pub type Point3D = Vector3D;

/// Componentwise saturating sum.
pub open spec fn v3_plus(a: Vector3D, b: Vector3D) -> Vector3D {
    Vector3D { x: fx_add_i(a.x, b.x), y: fx_add_i(a.y, b.y), z: fx_add_i(a.z, b.z) }
}

/// Componentwise saturating difference.
pub open spec fn v3_minus(a: Vector3D, b: Vector3D) -> Vector3D {
    Vector3D { x: fx_sub_i(a.x, b.x), y: fx_sub_i(a.y, b.y), z: fx_sub_i(a.z, b.z) }
}

/// Componentwise saturating negation.
pub open spec fn v3_neg(a: Vector3D) -> Vector3D {
    Vector3D { x: fx_neg_i(a.x), y: fx_neg_i(a.y), z: fx_neg_i(a.z) }
}

/// Each component multiplied by the scalar `s`.
pub open spec fn v3_scale(a: Vector3D, s: i64) -> Vector3D {
    Vector3D { x: fx_mul_i(a.x, s), y: fx_mul_i(a.y, s), z: fx_mul_i(a.z, s) }
}

/// Each component divided by the scalar `s`.
pub open spec fn v3_div(a: Vector3D, s: i64) -> Vector3D {
    Vector3D { x: fx_div_i(a.x, s), y: fx_div_i(a.y, s), z: fx_div_i(a.z, s) }
}

/// Componentwise product.
pub open spec fn v3_hadamard(a: Vector3D, b: Vector3D) -> Vector3D {
    Vector3D { x: fx_mul_i(a.x, b.x), y: fx_mul_i(a.y, b.y), z: fx_mul_i(a.z, b.z) }
}

/// The dot product, accumulated left to right with saturation.
pub open spec fn v3_dot(a: Vector3D, b: Vector3D) -> i64 {
    fx_add_i(fx_add_i(fx_mul_i(a.x, b.x), fx_mul_i(a.y, b.y)), fx_mul_i(a.z, b.z))
}

/// The squared length: the dot product of a vector with itself.
pub open spec fn v3_length_squared(a: Vector3D) -> i64 {
    v3_dot(a, a)
}

/// The length: the fixed-point square root of the squared length.
pub open spec fn v3_length(a: Vector3D) -> i64 {
    fx_sqrt_i(v3_length_squared(a))
}

/// The vector divided by its own length.
pub open spec fn v3_normalized(a: Vector3D) -> Vector3D {
    v3_div(a, v3_length(a))
}

/// Whether every component is closer to zero than one representation
/// step: the vector is exactly the zero vector.
pub open spec fn v3_near_zero(a: Vector3D) -> bool {
    fx_abs_i(a.x) < 1 && fx_abs_i(a.y) < 1 && fx_abs_i(a.z) < 1
}

/// The cross product.
pub open spec fn v3_cross(a: Vector3D, b: Vector3D) -> Vector3D {
    Vector3D {
        x: fx_sub_i(fx_mul_i(a.y, b.z), fx_mul_i(a.z, b.y)),
        y: fx_sub_i(fx_mul_i(a.z, b.x), fx_mul_i(a.x, b.z)),
        z: fx_sub_i(fx_mul_i(a.x, b.y), fx_mul_i(a.y, b.x)),
    }
}

/// `v` reflected about the normal `n`: `v - n * (2 * dot(v, n))`.
pub open spec fn v3_reflect(v: Vector3D, n: Vector3D) -> Vector3D {
    v3_minus(v, v3_scale(n, fx_add_i(v3_dot(v, n), v3_dot(v, n))))
}

/// `uv` refracted at a surface with normal `n` and refraction ratio
/// `ratio`, by Snell's law split into perpendicular and parallel parts.
pub open spec fn v3_refract(uv: Vector3D, n: Vector3D, ratio: i64) -> Vector3D {
    let cos_theta = fx_min_i(v3_dot(v3_neg(uv), n), ONE);
    let perpendicular = v3_scale(v3_plus(v3_scale(n, cos_theta), uv), ratio);
    let parallel = v3_scale(
        n,
        fx_neg_i(fx_sqrt_i(fx_abs_i(fx_sub_i(ONE, v3_length_squared(perpendicular))))),
    );
    v3_plus(perpendicular, parallel)
}

/// Whether a vector is the normalization of some point drawn from the
/// open unit ball: the shape of every random unit direction.
pub open spec fn is_unit_draw(u: Vector3D) -> bool {
    exists|p: Vector3D| v3_length_squared(p) < ONE && u == #[trigger] v3_normalized(p)
}

/// The hemisphere selection: `u` kept when it already points along
/// `n`, flipped otherwise.
pub open spec fn hemisphere_pick(u: Vector3D, n: Vector3D) -> Vector3D {
    if v3_dot(u, n) > 0 {
        u
    } else {
        v3_neg(u)
    }
}

/// A square is never negative.
pub proof fn lemma_fx_square_nonneg(a: i64)
    ensures
        fx_mul_i(a, a) >= 0,
        fx_mul_s(a as int, a as int) >= 0,
{
    assert((a as int) * (a as int) >= 0) by (nonlinear_arith);
    assert(tdiv(a * a, ONE as int) >= 0) by {
        vstd::arithmetic::div_mod::lemma_div_pos_is_pos(a * a, ONE as int);
    }
}

/// If a dot product does not oppose a direction, the dot product with
/// the negated vector does, provided no component of the vector is the
/// one scalar whose negation saturates.
pub proof fn lemma_dot_neg_opposes(d: Vector3D, n: Vector3D)
    requires
        n.x > i64::MIN,
        n.y > i64::MIN,
        n.z > i64::MIN,
        v3_dot(d, n) >= 0,
    ensures
        v3_dot(d, v3_neg(n)) <= 0,
{
    crate::fixed::lemma_fx_mul_neg_le(d.x, n.x);
    crate::fixed::lemma_fx_mul_neg_le(d.y, n.y);
    crate::fixed::lemma_fx_mul_neg_le(d.z, n.z);
    let m1 = fx_mul_i(d.x, n.x);
    let m2 = fx_mul_i(d.y, n.y);
    let m3 = fx_mul_i(d.z, n.z);
    let w1 = fx_mul_i(d.x, fx_neg_i(n.x));
    let w2 = fx_mul_i(d.y, fx_neg_i(n.y));
    let w3 = fx_mul_i(d.z, fx_neg_i(n.z));
    assert(w1 + w2 <= -(m1 + m2));
    crate::fixed::lemma_sat64_neg(m1 + m2);
    assert(fx_add_i(w1, w2) as int <= -(fx_add_i(m1, m2) as int));
    assert(fx_add_i(w1, w2) + w3 <= -(fx_add_i(m1, m2) + m3));
    crate::fixed::lemma_sat64_neg(fx_add_i(m1, m2) + m3);
}

/// A squared length is never negative.
pub proof fn lemma_length_squared_nonneg(a: Vector3D)
    ensures
        v3_length_squared(a) >= 0,
{
    lemma_fx_square_nonneg(a.x);
    lemma_fx_square_nonneg(a.y);
    lemma_fx_square_nonneg(a.z);
}

impl Vector3D {
    /// The zero vector.
    pub fn default() -> (r: Self)
        ensures
            r == (Vector3D { x: 0, y: 0, z: 0 }),
    {
        Vector3D { x: 0, y: 0, z: 0 }
    }

    /// A vector from its three components.
    pub fn new(x: i64, y: i64, z: i64) -> (r: Self)
        ensures
            r == (Vector3D { x, y, z }),
    {
        Vector3D { x, y, z }
    }

    /// The first component.
    pub fn x(&self) -> (r: i64)
        ensures
            r == self.x,
    {
        self.x
    }

    /// The second component.
    pub fn y(&self) -> (r: i64)
        ensures
            r == self.y,
    {
        self.y
    }

    /// The third component.
    pub fn z(&self) -> (r: i64)
        ensures
            r == self.z,
    {
        self.z
    }

    /// The component on the given axis; only the three axes exist.
    pub fn axis(&self, index: usize) -> (r: i64)
        requires
            index < 3,
        ensures
            r == if index == 0 {
                self.x
            } else if index == 1 {
                self.y
            } else {
                self.z
            },
    {
        if index == 0 {
            self.x
        } else if index == 1 {
            self.y
        } else {
            self.z
        }
    }

    /// Componentwise sum.
    pub fn plus(&self, rhs: &Vector3D) -> (r: Vector3D)
        ensures
            r == v3_plus(*self, *rhs),
    {
        Vector3D { x: fx_add(self.x, rhs.x), y: fx_add(self.y, rhs.y), z: fx_add(self.z, rhs.z) }
    }

    /// Componentwise difference.
    pub fn minus(&self, rhs: &Vector3D) -> (r: Vector3D)
        ensures
            r == v3_minus(*self, *rhs),
    {
        Vector3D { x: fx_sub(self.x, rhs.x), y: fx_sub(self.y, rhs.y), z: fx_sub(self.z, rhs.z) }
    }

    /// Componentwise negation.
    pub fn negated(&self) -> (r: Vector3D)
        ensures
            r == v3_neg(*self),
    {
        Vector3D { x: fx_neg(self.x), y: fx_neg(self.y), z: fx_neg(self.z) }
    }

    /// This vector scaled by `s`.
    pub fn scaled(&self, s: i64) -> (r: Vector3D)
        ensures
            r == v3_scale(*self, s),
    {
        Vector3D { x: fx_mul(self.x, s), y: fx_mul(self.y, s), z: fx_mul(self.z, s) }
    }

    /// This vector divided by the scalar `s`.
    pub fn divided(&self, s: i64) -> (r: Vector3D)
        ensures
            r == v3_div(*self, s),
    {
        Vector3D { x: fx_div(self.x, s), y: fx_div(self.y, s), z: fx_div(self.z, s) }
    }

    /// Componentwise product.
    pub fn hadamard(&self, rhs: &Vector3D) -> (r: Vector3D)
        ensures
            r == v3_hadamard(*self, *rhs),
    {
        Vector3D { x: fx_mul(self.x, rhs.x), y: fx_mul(self.y, rhs.y), z: fx_mul(self.z, rhs.z) }
    }

    /// The dot product.
    pub fn dot(lhs: &Vector3D, rhs: &Vector3D) -> (r: i64)
        ensures
            r == v3_dot(*lhs, *rhs),
    {
        fx_add(fx_add(fx_mul(lhs.x, rhs.x), fx_mul(lhs.y, rhs.y)), fx_mul(lhs.z, rhs.z))
    }

    /// The cross product.
    pub fn cross(lhs: &Vector3D, rhs: &Vector3D) -> (r: Vector3D)
        ensures
            r == v3_cross(*lhs, *rhs),
    {
        Vector3D {
            x: fx_sub(fx_mul(lhs.y, rhs.z), fx_mul(lhs.z, rhs.y)),
            y: fx_sub(fx_mul(lhs.z, rhs.x), fx_mul(lhs.x, rhs.z)),
            z: fx_sub(fx_mul(lhs.x, rhs.y), fx_mul(lhs.y, rhs.x)),
        }
    }

    /// The squared length.
    pub fn length_squared(&self) -> (r: i64)
        ensures
            r == v3_length_squared(*self),
            r >= 0,
    {
        proof {
            lemma_length_squared_nonneg(*self);
        }
        Vector3D::dot(self, self)
    }

    /// The length.
    pub fn length(&self) -> (r: i64)
        ensures
            r == v3_length(*self),
            r >= 0,
    {
        fx_sqrt(self.length_squared())
    }

    /// This vector divided by its length. A zero vector saturates
    /// instead of panicking, mirroring the division's own rule.
    pub fn normalized(&self) -> (r: Vector3D)
        ensures
            r == v3_normalized(*self),
    {
        self.divided(self.length())
    }

    /// Whether the vector is too close to zero to carry a direction.
    pub fn near_zero(&self) -> (r: bool)
        ensures
            r == v3_near_zero(*self),
    {
        fx_abs(self.x) < 1 && fx_abs(self.y) < 1 && fx_abs(self.z) < 1
    }

    /// `vector` reflected about `normal`.
    pub fn reflect(vector: &Vector3D, normal: &Vector3D) -> (r: Vector3D)
        ensures
            r == v3_reflect(*vector, *normal),
    {
        let d: i64 = Vector3D::dot(vector, normal);
        vector.minus(&normal.scaled(fx_add(d, d)))
    }

    /// A random vector with each component drawn from `[0, ONE)`.
    pub fn random() -> (r: Vector3D)
        ensures
            0 <= r.x < ONE,
            0 <= r.y < ONE,
            0 <= r.z < ONE,
    {
        Vector3D {
            x: crate::rng::random_unit_scalar(),
            y: crate::rng::random_unit_scalar(),
            z: crate::rng::random_unit_scalar(),
        }
    }

    /// A random vector with each component drawn from `[lo, hi)`.
    pub fn random_in_range(lo: i64, hi: i64) -> (r: Vector3D)
        requires
            lo < hi,
        ensures
            lo <= r.x < hi,
            lo <= r.y < hi,
            lo <= r.z < hi,
    {
        Vector3D {
            x: crate::rng::random_in(lo, hi),
            y: crate::rng::random_in(lo, hi),
            z: crate::rng::random_in(lo, hi),
        }
    }

    /// A random point strictly inside the unit sphere, by rejection
    /// sampling of the enclosing cube. After a generous number of
    /// misses (astronomically unlikely) a fixed interior point stands
    /// in, so the draw always terminates.
    pub fn random_in_unit_sphere() -> (r: Vector3D)
        ensures
            v3_length_squared(r) < ONE,
            -ONE <= r.x < ONE,
            -ONE <= r.y < ONE,
            -ONE <= r.z < ONE,
    {
        let mut tries: u32 = 0;
        while tries < 64
            invariant
                tries <= 64,
            decreases 64 - tries,
        {
            let point = Vector3D::random_in_range(-ONE, ONE);
            if point.length_squared() < ONE {
                return point;
            }
            tries = tries + 1;
        }
        Vector3D { x: 16384, y: 0, z: 0 }
    }

    /// A random direction of unit length: a point of the unit sphere's
    /// interior, normalized.
    pub fn random_normal() -> (r: Vector3D)
        ensures
            is_unit_draw(r),
    {
        let p = Vector3D::random_in_unit_sphere();
        let r = p.normalized();
        proof {
            assert(v3_length_squared(p) < ONE && r == v3_normalized(p));
        }
        r
    }

    /// A random point strictly inside the unit disk of the `xy` plane,
    /// by rejection sampling, with the same bounded fallback as the
    /// unit ball.
    pub fn random_in_unit_disk() -> (r: Vector3D)
        ensures
            v3_length_squared(r) < ONE,
            -ONE <= r.x < ONE,
            -ONE <= r.y < ONE,
            r.z == 0,
    {
        let mut tries: u32 = 0;
        while tries < 64
            invariant
                tries <= 64,
            decreases 64 - tries,
        {
            let point = Vector3D {
                x: crate::rng::random_in(-ONE, ONE),
                y: crate::rng::random_in(-ONE, ONE),
                z: 0,
            };
            if point.length_squared() < ONE {
                return point;
            }
            tries = tries + 1;
        }
        Vector3D { x: 16384, y: 0, z: 0 }
    }

    /// A random unit direction on the hemisphere around `normal`.
    pub fn random_on_hemisphere(normal: &Vector3D) -> (r: Vector3D)
        ensures
            exists|u: Vector3D| #[trigger] is_unit_draw(u) && r == hemisphere_pick(u, *normal),
    {
        let on_unit_sphere = Vector3D::random_normal();
        let r = if Vector3D::dot(&on_unit_sphere, normal) > 0 {
            on_unit_sphere
        } else {
            on_unit_sphere.negated()
        };
        proof {
            assert(is_unit_draw(on_unit_sphere) && r == hemisphere_pick(on_unit_sphere, *normal));
        }
        r
    }

    /// `uv` refracted about `normal` with the given refraction ratio.
    pub fn refract(uv: &Vector3D, normal: &Vector3D, eta_i_over_eta_t: i64) -> (r: Vector3D)
        ensures
            r == v3_refract(*uv, *normal, eta_i_over_eta_t),
    {
        let cos_theta: i64 = fx_min(Vector3D::dot(&uv.negated(), normal), ONE);
        let perpendicular: Vector3D =
            normal.scaled(cos_theta).plus(uv).scaled(eta_i_over_eta_t);
        let len_sq: i64 = perpendicular.length_squared();
        let parallel: Vector3D = normal.scaled(fx_neg(fx_sqrt(fx_abs(fx_sub(ONE, len_sq)))));
        perpendicular.plus(&parallel)
    }
}

} // verus!
