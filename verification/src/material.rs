//! Surface materials: diffuse, specular with roughness, and
//! refractive.
//!
//! Each scatter is split into a deterministic core — a specification
//! function of the incoming ray, the hit and the random draws — and a
//! thin randomized method whose contract says the result is the core
//! applied to *some* admissible draw. Everything downstream is then
//! verified for every value the generator may produce.

use vstd::prelude::*;

use crate::color::Color;
use crate::fixed::{
    fx_add, fx_add_i, fx_div, fx_div_i, fx_min, fx_min_i, fx_mul, fx_mul_i, fx_sqrt, fx_sqrt_i,
    fx_sub, fx_sub_i, fx_abs, fx_abs_i, ONE,
};
use crate::ray::{clamp_dir, Ray};
use crate::rng::random_unit_scalar;
use crate::vector::{
    is_unit_draw, v3_dot, v3_length_squared, v3_near_zero, v3_neg, v3_normalized, v3_plus,
    v3_reflect, v3_refract, v3_scale, Vector3D,
};

verus! {

/// A diffuse surface: scatters around the normal, tinted by `albedo`.
#[derive(Debug, Clone, Copy, PartialEq, Eq, Structural)]
pub struct Lambertian {
    /// The surface's base color.
    pub albedo: Color,
}

/// A reflective surface with roughness `fuzz`.
#[derive(Debug, Clone, Copy, PartialEq, Eq, Structural)]
pub struct Metal {
    /// The surface's base color.
    pub albedo: Color,
    /// Roughness in `[0, ONE]`: the radius of the perturbation ball.
    pub fuzz: i64,
}

/// A clear refractive surface.
#[derive(Debug, Clone, Copy, PartialEq, Eq, Structural)]
pub struct Dielectric {
    /// The index of refraction, as a fixed-point scalar.
    pub refractive_index: i64,
}

/// A surface material: the closed family of scattering behaviors.
#[derive(Debug, Clone, Copy, PartialEq, Eq, Structural)]
pub enum Material {
    /// Diffuse.
    Lambertian(Lambertian),
    /// Specular with roughness.
    Metal(Metal),
    /// Refractive.
    Dielectric(Dielectric),
}

/// The diffuse scatter direction for a given unit draw `u`: the normal
/// plus `u`, falling back to the normal itself when the sum cancels.
pub open spec fn lambertian_direction(normal: Vector3D, u: Vector3D) -> Vector3D {
    let d = v3_plus(normal, u);
    if v3_near_zero(d) {
        normal
    } else {
        d
    }
}

/// The diffuse scattered ray for a given unit draw.
pub open spec fn lambertian_ray(point: Vector3D, normal: Vector3D, u: Vector3D, time: i64) -> Ray {
    Ray { origin: point, direction: clamp_dir(lambertian_direction(normal, u)), time }
}

/// The metal scatter result for a given unit draw `u`: the mirrored
/// direction perturbed by `fuzz * u`; absorbed when the perturbed
/// direction no longer leaves the surface.
pub open spec fn metal_scatter(
    m: Metal,
    ray_in: Ray,
    point: Vector3D,
    normal: Vector3D,
    u: Vector3D,
) -> Option<Ray> {
    let reflected = v3_reflect(v3_normalized(ray_in.direction), normal);
    let dir = v3_plus(reflected, v3_scale(u, m.fuzz));
    let cdir = clamp_dir(dir);
    if v3_dot(cdir, normal) > 0 {
        Some(Ray { origin: point, direction: cdir, time: ray_in.time })
    } else {
        None
    }
}

/// The reflectance at normal incidence for a refraction ratio.
pub open spec fn schlick_r0(refraction_ratio: i64) -> i64 {
    let r0_root = fx_div_i(fx_sub_i(ONE, refraction_ratio), fx_add_i(ONE, refraction_ratio));
    fx_mul_i(r0_root, r0_root)
}

/// Schlick's reflectance approximation, evaluated in fixed point.
pub open spec fn reflectance_s(cosine: i64, refraction_ratio: i64) -> i64 {
    let r0 = schlick_r0(refraction_ratio);
    let p = fx_sub_i(ONE, cosine);
    let p2 = fx_mul_i(p, p);
    let p4 = fx_mul_i(p2, p2);
    let p5 = fx_mul_i(p4, p);
    fx_add_i(r0, fx_mul_i(fx_sub_i(ONE, r0), p5))
}

/// The dielectric scatter direction for a given uniform draw in
/// `[0, ONE)`: reflect on total internal reflection or when the draw
/// falls below the Schlick reflectance, refract otherwise.
pub open spec fn dielectric_direction(
    refractive_index: i64,
    dir: Vector3D,
    normal: Vector3D,
    front_face: bool,
    draw: i64,
) -> Vector3D {
    let ratio = if front_face {
        fx_div_i(ONE, refractive_index)
    } else {
        refractive_index
    };
    let unit = v3_normalized(dir);
    let cos_theta = fx_min_i(v3_dot(v3_neg(unit), normal), ONE);
    let sin_theta = fx_sqrt_i(fx_abs_i(fx_sub_i(ONE, fx_mul_i(cos_theta, cos_theta))));
    let cannot_refract = fx_mul_i(ratio, sin_theta) > ONE;
    if cannot_refract || reflectance_s(cos_theta, ratio) > draw {
        v3_reflect(unit, normal)
    } else {
        v3_refract(unit, normal, ratio)
    }
}

/// The dielectric scattered ray for a given draw.
pub open spec fn dielectric_ray(
    d: Dielectric,
    ray_in: Ray,
    point: Vector3D,
    normal: Vector3D,
    front_face: bool,
    draw: i64,
) -> Ray {
    Ray {
        origin: point,
        direction: clamp_dir(
            dielectric_direction(d.refractive_index, ray_in.direction, normal, front_face, draw),
        ),
        time: ray_in.time,
    }
}

/// At normal incidence the Schlick approximation returns exactly the
/// base reflectance `r0`; in particular it is zero there exactly when
/// `r0` is zero.
pub proof fn lemma_reflectance_normal_incidence(refraction_ratio: i64)
    ensures
        reflectance_s(ONE, refraction_ratio) == schlick_r0(refraction_ratio),
        (reflectance_s(ONE, refraction_ratio) == 0 <==> schlick_r0(refraction_ratio) == 0),
{
    let r0 = schlick_r0(refraction_ratio);
    assert(fx_sub_i(ONE, ONE) == 0);
    assert(fx_mul_i(0, 0) == 0);
    assert(fx_mul_i(fx_sub_i(ONE, r0), 0) == 0);
    assert(fx_add_i(r0, 0) == r0);
}

/// A refraction ratio of one has zero reflectance at normal
/// incidence: `r0` vanishes exactly when the two media match.
pub proof fn lemma_schlick_r0_unity()
    ensures
        schlick_r0(ONE) == 0,
{
    assert(fx_sub_i(ONE, ONE) == 0);
    assert(crate::fixed::fx_div_s(0, fx_add_i(ONE, ONE) as int) == 0);
    assert(fx_mul_i(0, 0) == 0);
}

/// A dielectric with refractive index one does not bend light at
/// normal incidence: for every admissible draw, the scattered
/// direction is exactly the normalized incoming direction. (Away from
/// normal incidence the fixed-point rounding of the normalization and
/// square root perturbs the refracted direction by quantization.)
pub proof fn lemma_dielectric_unity_identity(
    dir: Vector3D,
    normal: Vector3D,
    front_face: bool,
    draw: i64,
)
    requires
        v3_normalized(dir) == v3_neg(normal),
        v3_length_squared(normal) == ONE,
        normal.x > i64::MIN,
        normal.y > i64::MIN,
        normal.z > i64::MIN,
        0 <= draw,
    ensures
        dielectric_direction(ONE, dir, normal, front_face, draw) == v3_normalized(dir),
{
    let unit = v3_normalized(dir);
    let ratio: i64 = if front_face {
        fx_div_i(ONE, ONE)
    } else {
        ONE
    };
    assert(fx_div_i(ONE, ONE) == ONE) by {
        assert(crate::fixed::tdiv(65536int * 65536, 65536) == 65536) by {
            vstd::arithmetic::div_mod::lemma_div_multiples_vanish(65536, 65536);
        }
    }
    assert(v3_neg(unit) == normal) by {
        assert(crate::fixed::fx_neg_i(crate::fixed::fx_neg_i(normal.x)) == normal.x);
        assert(crate::fixed::fx_neg_i(crate::fixed::fx_neg_i(normal.y)) == normal.y);
        assert(crate::fixed::fx_neg_i(crate::fixed::fx_neg_i(normal.z)) == normal.z);
    }
    let cos_theta = fx_min_i(v3_dot(v3_neg(unit), normal), ONE);
    assert(cos_theta == ONE);
    assert(fx_mul_i(ONE, ONE) == ONE) by {
        crate::fixed::lemma_fx_mul_one(ONE);
    }
    assert(fx_abs_i(fx_sub_i(ONE, fx_mul_i(cos_theta, cos_theta))) == 0);
    assert(fx_sqrt_i(0) == 0) by {
        crate::fixed::lemma_sqrt_floor_is(0, 0);
    }
    assert(fx_mul_i(ratio, 0) == 0);
    lemma_reflectance_normal_incidence(ratio);
    lemma_schlick_r0_unity();
    assert(reflectance_s(cos_theta, ratio) == 0);
    assert(!(fx_mul_i(ratio, 0) > ONE));
    assert(!(reflectance_s(cos_theta, ratio) > draw));
    assert(dielectric_direction(ONE, dir, normal, front_face, draw) == v3_refract(
        unit,
        normal,
        ratio,
    ));
    assert(v3_refract(unit, normal, ratio) == unit) by {
        let cos2 = fx_min_i(v3_dot(v3_neg(unit), normal), ONE);
        assert(cos2 == ONE);
        assert(v3_scale(normal, ONE) == normal) by {
            crate::fixed::lemma_fx_mul_one(normal.x);
            crate::fixed::lemma_fx_mul_one(normal.y);
            crate::fixed::lemma_fx_mul_one(normal.z);
        }
        let zero_v = Vector3D { x: 0, y: 0, z: 0 };
        assert(v3_plus(v3_scale(normal, cos2), unit) == zero_v);
        assert(v3_scale(zero_v, ratio) == zero_v);
        let perpendicular = v3_scale(v3_plus(v3_scale(normal, cos2), unit), ratio);
        assert(perpendicular == zero_v);
        assert(v3_length_squared(zero_v) == 0);
        assert(fx_abs_i(fx_sub_i(ONE, 0)) == ONE);
        assert(fx_sqrt_i(ONE) == ONE) by {
            crate::fixed::lemma_sqrt_floor_is(65536int * 65536, 65536);
            assert(65536int * 65536 <= 65536 * 65536 < 65537 * 65537) by (nonlinear_arith);
        }
        assert(crate::fixed::fx_neg_i(ONE) == (-ONE) as i64);
        assert(v3_scale(normal, (-ONE) as i64) == unit) by {
            crate::fixed::lemma_fx_mul_neg_one(normal.x);
            crate::fixed::lemma_fx_mul_neg_one(normal.y);
            crate::fixed::lemma_fx_mul_neg_one(normal.z);
        }
        assert(v3_plus(zero_v, unit) == unit);
    }
}

/// White: the dielectric's attenuation.
pub open spec fn white() -> Color {
    Color { x: ONE, y: ONE, z: ONE }
}

impl Lambertian {
    /// A diffuse material from its base color.
    pub fn new(albedo: Color) -> (r: Self)
        ensures
            r == (Lambertian { albedo }),
    {
        Lambertian { albedo }
    }
}

impl Metal {
    /// A specular material from its base color and roughness.
    pub fn new(albedo: Color, fuzz: i64) -> (r: Self)
        ensures
            r == (Metal { albedo, fuzz }),
    {
        Metal { albedo, fuzz }
    }
}

impl Dielectric {
    /// A refractive material from its index of refraction.
    pub fn new(refractive_index: i64) -> (r: Self)
        ensures
            r == (Dielectric { refractive_index }),
    {
        Dielectric { refractive_index }
    }

    /// Schlick's reflectance approximation.
    pub fn reflectance(cosine: i64, refraction_ratio: i64) -> (r: i64)
        ensures
            r == reflectance_s(cosine, refraction_ratio),
    {
        let r0_root: i64 = fx_div(fx_sub(ONE, refraction_ratio), fx_add(ONE, refraction_ratio));
        let r0: i64 = fx_mul(r0_root, r0_root);
        let p: i64 = fx_sub(ONE, cosine);
        let p2: i64 = fx_mul(p, p);
        let p4: i64 = fx_mul(p2, p2);
        let p5: i64 = fx_mul(p4, p);
        fx_add(r0, fx_mul(fx_sub(ONE, r0), p5))
    }
}

impl Material {
    /// Scatter an incoming ray at a hit: write the attenuation color
    /// and return the scattered ray, or `None` when the ray is
    /// absorbed. The result is the variant's deterministic scatter
    /// function at some admissible random draw.
    pub fn scatter(
        &self,
        ray_in: &Ray,
        record_point: &Vector3D,
        record_normal: &Vector3D,
        record_front_face: bool,
        attenuation: &mut Color,
    ) -> (r: Option<Ray>)
        requires
            ray_in.wf(),
        ensures
            (match r {
                Some(sr) => sr.wf(),
                None => true,
            }),
            match *self {
                Material::Lambertian(m) => {
                    &&& *final(attenuation) == m.albedo
                    &&& exists|u: Vector3D|
                        #[trigger] is_unit_draw(u) && r == Some(
                            lambertian_ray(*record_point, *record_normal, u, ray_in.time),
                        )
                },
                Material::Metal(m) => {
                    &&& *final(attenuation) == m.albedo
                    &&& exists|u: Vector3D|
                        #[trigger] is_unit_draw(u) && r == metal_scatter(
                            m,
                            *ray_in,
                            *record_point,
                            *record_normal,
                            u,
                        )
                },
                Material::Dielectric(m) => {
                    &&& *final(attenuation) == white()
                    &&& exists|draw: i64|
                        #![trigger dielectric_ray(m, *ray_in, *record_point, *record_normal, record_front_face, draw)]
                        0 <= draw < ONE && r == Some(
                            dielectric_ray(
                                m,
                                *ray_in,
                                *record_point,
                                *record_normal,
                                record_front_face,
                                draw,
                            ),
                        )
                },
            },
    {
        match self {
            Material::Lambertian(m) => {
                let u = Vector3D::random_normal();
                let mut scatter_direction = record_normal.plus(&u);
                if scatter_direction.near_zero() {
                    scatter_direction = *record_normal;
                }
                let scattered = Ray::new(*record_point, scatter_direction, ray_in.time);
                *attenuation = m.albedo;
                proof {
                    assert(is_unit_draw(u) && Some(scattered) == Some(
                        lambertian_ray(*record_point, *record_normal, u, ray_in.time),
                    ));
                }
                Some(scattered)
            },
            Material::Metal(m) => {
                let reflected = Vector3D::reflect(&ray_in.direction().normalized(), record_normal);
                let u = Vector3D::random_normal();
                let scattered = Ray::new(
                    *record_point,
                    reflected.plus(&u.scaled(m.fuzz)),
                    ray_in.time,
                );
                *attenuation = m.albedo;
                let result = if Vector3D::dot(&scattered.direction(), record_normal) > 0 {
                    Some(scattered)
                } else {
                    None
                };
                proof {
                    assert(is_unit_draw(u) && result == metal_scatter(
                        *m,
                        *ray_in,
                        *record_point,
                        *record_normal,
                        u,
                    ));
                }
                result
            },
            Material::Dielectric(m) => {
                *attenuation = Color { x: ONE, y: ONE, z: ONE };
                let refraction_ratio: i64 = if record_front_face {
                    fx_div(ONE, m.refractive_index)
                } else {
                    m.refractive_index
                };
                let direction_normal = ray_in.direction().normalized();
                let cos_theta: i64 = fx_min(
                    Vector3D::dot(&direction_normal.negated(), record_normal),
                    ONE,
                );
                let sin_theta: i64 = fx_sqrt(fx_abs(fx_sub(ONE, fx_mul(cos_theta, cos_theta))));
                let cannot_refract = fx_mul(refraction_ratio, sin_theta) > ONE;
                let draw = random_unit_scalar();
                let direction = if cannot_refract || Dielectric::reflectance(
                    cos_theta,
                    refraction_ratio,
                ) > draw {
                    Vector3D::reflect(&direction_normal, record_normal)
                } else {
                    Vector3D::refract(&direction_normal, record_normal, refraction_ratio)
                };
                let scattered = Ray::new(*record_point, direction, ray_in.time);
                proof {
                    assert(0 <= draw < ONE && Some(scattered) == Some(
                        dielectric_ray(
                            *m,
                            *ray_in,
                            *record_point,
                            *record_normal,
                            record_front_face,
                            draw,
                        ),
                    ));
                }
                Some(scattered)
            },
        }
    }
}

} // verus!
