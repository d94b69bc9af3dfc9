//! The camera and the Monte-Carlo integrator.
//!
//! The camera turns its configuration into a viewport basis, generates
//! jittered primary rays per pixel, and estimates pixel radiance by
//! averaging recursive ray-color evaluations. Ray generation and the
//! recursive estimator are split into deterministic cores —
//! specification functions of the configuration and the random draws —
//! so that the contracts pin every value the randomness allows.
//!
//! Field-of-view and defocus aperture enter as tangents of their half
//! angles (`tan_half_fov`, `tan_half_defocus`): the trigonometry that
//! produces them from angles is the caller's business, since it has no
//! exact fixed-point form.

use vstd::prelude::*;

use rayon::iter::IntoParallelIterator;
use rayon::iter::ParallelIterator;

use crate::color::Color;
use crate::fixed::{fx_add, fx_add_i, fx_div, fx_div_i, fx_mul, fx_mul_i, fx_sub, fx_sub_i, FX_MAX, ONE};
use crate::hittable::Hittable;
use crate::interval::Interval;
use crate::material::Material;
use crate::ray::{clamp_dir, Ray};
use crate::rng::random_unit_scalar;
use crate::vector::{
    v3_cross, v3_div, v3_minus, v3_neg, v3_normalized, v3_plus, v3_scale, Point3D, Vector3D,
};

verus! {

/// Two, in fixed point.
pub const TWO_ONE: i64 = 131072;

/// One half, in fixed point.
pub const HALF_ONE: i64 = 32768;

/// The shadow-acne bound: roughly `0.001`, the least hit depth the
/// integrator accepts.
pub const SHADOW_EPS: i64 = 66;

/// The widest image the fixed-point viewport arithmetic supports.
pub const IMAGE_DIM_MAX: usize = 0x7fffffff;

/// The camera: its configuration, and the viewport state derived from
/// it by `initialize`.
pub struct Camera {
    /// Width over height of the image.
    pub aspect_ratio: i64,
    /// Image width in pixels.
    pub image_width: usize,
    /// Independent primary rays averaged per pixel.
    pub samples_per_pixel: usize,
    /// The bounce budget of the recursive estimator.
    pub max_depth: usize,
    /// Tangent of half the vertical field of view.
    pub tan_half_fov: i64,
    /// The eye point.
    pub look_from: Point3D,
    /// The point looked at.
    pub look_at: Point3D,
    /// The world's up direction.
    pub vertical_up: Vector3D,
    /// Tangent of half the defocus aperture angle; pinhole when not
    /// positive.
    pub tan_half_defocus: i64,
    /// Distance of the plane of perfect focus.
    pub focus_distance: i64,
    /// Image height in pixels, derived.
    pub image_height: usize,
    /// The camera center, derived.
    pub center: Point3D,
    /// The center of the first pixel, derived.
    pub pixel_location_100: Point3D,
    /// One pixel step rightward, derived.
    pub pixel_delta_u: Vector3D,
    /// One pixel step downward, derived.
    pub pixel_delta_v: Vector3D,
    /// The basis vector pointing right, derived.
    pub u: Vector3D,
    /// The basis vector pointing up, derived.
    pub v: Vector3D,
    /// The basis vector pointing backward, derived.
    pub w: Vector3D,
    /// The defocus disk's horizontal radius vector, derived.
    pub defocus_disk_u: Vector3D,
    /// The defocus disk's vertical radius vector, derived.
    pub defocus_disk_v: Vector3D,
}

/// Black: the color of exhausted or absorbed rays.
pub open spec fn black() -> Color {
    Color { x: 0, y: 0, z: 0 }
}

/// A channel forced into the unit interval.
pub open spec fn clamp01(v: i64) -> i64 {
    if v < 0 {
        0
    } else if v > ONE {
        ONE
    } else {
        v
    }
}

/// Whether every channel lies in the unit interval.
pub open spec fn color_in_unit(c: Color) -> bool {
    0 <= c.x <= ONE && 0 <= c.y <= ONE && 0 <= c.z <= ONE
}

/// Whether a material's base color lies in the unit range, so that
/// attenuation can only dim.
pub open spec fn material_wf(m: Material) -> bool {
    match m {
        Material::Lambertian(l) => color_in_unit(l.albedo),
        Material::Metal(mm) => color_in_unit(mm.albedo),
        Material::Dielectric(_) => true,
    }
}

/// Whether every material of the arena is well formed.
pub open spec fn materials_wf(ms: Seq<Material>) -> bool {
    forall|k: int| 0 <= k < ms.len() ==> material_wf(#[trigger] ms[k])
}

/// Whether every pixel of a row is a sum of at most `samples` unit
/// colors.
pub open spec fn row_in_range(row: Seq<Color>, samples: int) -> bool {
    forall|p: int|
        0 <= p < row.len() ==> (0 <= #[trigger] row[p].x <= samples * (ONE as int) && 0
            <= row[p].y <= samples * (ONE as int) && 0 <= row[p].z <= samples * (ONE as int))
}

/// The sky: white blended toward sky blue by the normalized
/// direction's height, each channel held to the unit interval.
pub open spec fn background_s(ray: Ray) -> Color {
    let dn = v3_normalized(ray.direction);
    let a = fx_mul_i(fx_add_i(dn.y, ONE), HALF_ONE);
    let blended = v3_plus(
        v3_scale(Color { x: ONE, y: ONE, z: ONE }, fx_sub_i(ONE, a)),
        v3_scale(Color { x: HALF_ONE, y: 45875, z: ONE }, a),
    );
    Color { x: clamp01(blended.x), y: clamp01(blended.y), z: clamp01(blended.z) }
}

/// The camera with its viewport state derived from its configuration.
pub open spec fn initialized_camera(c: Camera) -> Camera {
    let width_fx = ((c.image_width as int) * (ONE as int)) as i64;
    let height_fx = fx_div_i(width_fx, c.aspect_ratio);
    let raw_height = if height_fx <= 0 {
        0
    } else {
        ((height_fx as int) / (ONE as int)) as usize
    };
    let image_height = if raw_height > IMAGE_DIM_MAX {
        IMAGE_DIM_MAX
    } else {
        raw_height
    };
    let height_int_fx = ((image_height as int) * (ONE as int)) as i64;
    let viewport_height = fx_mul_i(fx_mul_i(c.tan_half_fov, c.focus_distance), TWO_ONE);
    let viewport_width = fx_mul_i(viewport_height, fx_div_i(width_fx, height_int_fx));
    let w = v3_normalized(v3_minus(c.look_from, c.look_at));
    let u = v3_normalized(v3_cross(c.vertical_up, w));
    let v = v3_cross(w, u);
    let viewport_u = v3_scale(u, viewport_width);
    let viewport_v = v3_scale(v3_neg(v), viewport_height);
    let pixel_delta_u = v3_div(viewport_u, width_fx);
    let pixel_delta_v = v3_div(viewport_v, height_int_fx);
    let viewport_upper_left = v3_minus(
        v3_minus(
            v3_minus(c.look_from, v3_scale(w, c.focus_distance)),
            v3_div(viewport_u, TWO_ONE),
        ),
        v3_div(viewport_v, TWO_ONE),
    );
    let pixel_location_100 = v3_plus(
        viewport_upper_left,
        v3_scale(v3_plus(pixel_delta_u, pixel_delta_v), HALF_ONE),
    );
    let defocus_radius = fx_mul_i(c.focus_distance, c.tan_half_defocus);
    Camera {
        image_height,
        center: c.look_from,
        pixel_location_100,
        pixel_delta_u,
        pixel_delta_v,
        u,
        v,
        w,
        defocus_disk_u: v3_scale(u, defocus_radius),
        defocus_disk_v: v3_scale(v, defocus_radius),
        ..c
    }
}

/// The primary ray of pixel `(i, j)` for given jitter draws `px, py`
/// (in pixel widths) and defocus-disk draws `dx, dy`.
pub open spec fn get_ray_s(c: Camera, i: usize, j: usize, px: i64, py: i64, dx: i64, dy: i64) -> Ray {
    let pixel_center = v3_plus(
        v3_plus(
            c.pixel_location_100,
            v3_scale(c.pixel_delta_u, ((i as int) * (ONE as int)) as i64),
        ),
        v3_scale(c.pixel_delta_v, ((j as int) * (ONE as int)) as i64),
    );
    let pixel_sample = v3_plus(
        pixel_center,
        v3_plus(v3_scale(c.pixel_delta_u, px), v3_scale(c.pixel_delta_v, py)),
    );
    let ray_origin = if c.tan_half_defocus <= 0 {
        c.center
    } else {
        v3_plus(
            v3_plus(c.center, v3_scale(c.defocus_disk_u, dx)),
            v3_scale(c.defocus_disk_v, dy),
        )
    };
    Ray { origin: ray_origin, direction: clamp_dir(v3_minus(pixel_sample, ray_origin)), time: 0 }
}

impl Camera {
    /// The default configuration, not yet initialized.
    pub fn default() -> (r: Self)
        ensures
            r.aspect_ratio == ONE,
            r.image_width == 100,
            r.samples_per_pixel == 10,
            r.max_depth == 10,
            r.tan_half_fov == ONE,
            r.look_from == (Point3D { x: 0, y: 0, z: (-ONE) as i64 }),
            r.look_at == (Point3D { x: 0, y: 0, z: 0 }),
            r.vertical_up == (Vector3D { x: 0, y: ONE, z: 0 }),
            r.tan_half_defocus == 0,
            r.focus_distance == 10 * ONE,
    {
        Camera {
            aspect_ratio: ONE,
            image_width: 100,
            samples_per_pixel: 10,
            max_depth: 10,
            tan_half_fov: ONE,
            look_from: Point3D { x: 0, y: 0, z: -ONE },
            look_at: Point3D { x: 0, y: 0, z: 0 },
            vertical_up: Vector3D { x: 0, y: ONE, z: 0 },
            tan_half_defocus: 0,
            focus_distance: 10 * ONE,
            image_height: 0,
            center: Point3D { x: 0, y: 0, z: 0 },
            pixel_location_100: Point3D { x: 0, y: 0, z: 0 },
            pixel_delta_u: Vector3D { x: 0, y: 0, z: 0 },
            pixel_delta_v: Vector3D { x: 0, y: 0, z: 0 },
            u: Vector3D { x: 0, y: 0, z: 0 },
            v: Vector3D { x: 0, y: 0, z: 0 },
            w: Vector3D { x: 0, y: 0, z: 0 },
            defocus_disk_u: Vector3D { x: 0, y: 0, z: 0 },
            defocus_disk_v: Vector3D { x: 0, y: 0, z: 0 },
        }
    }

    /// A camera from its configuration, not yet initialized.
    pub fn new(
        aspect_ratio: i64,
        image_width: usize,
        samples_per_pixel: usize,
        max_depth: usize,
        tan_half_fov: i64,
        look_from: Point3D,
        look_at: Point3D,
        vertical_up: Vector3D,
        tan_half_defocus: i64,
        focus_distance: i64,
    ) -> (r: Self)
        ensures
            r.aspect_ratio == aspect_ratio,
            r.image_width == image_width,
            r.samples_per_pixel == samples_per_pixel,
            r.max_depth == max_depth,
            r.tan_half_fov == tan_half_fov,
            r.look_from == look_from,
            r.look_at == look_at,
            r.vertical_up == vertical_up,
            r.tan_half_defocus == tan_half_defocus,
            r.focus_distance == focus_distance,
    {
        Camera {
            aspect_ratio,
            image_width,
            samples_per_pixel,
            max_depth,
            tan_half_fov,
            look_from,
            look_at,
            vertical_up,
            tan_half_defocus,
            focus_distance,
            image_height: 0,
            center: Point3D { x: 0, y: 0, z: 0 },
            pixel_location_100: Point3D { x: 0, y: 0, z: 0 },
            pixel_delta_u: Vector3D { x: 0, y: 0, z: 0 },
            pixel_delta_v: Vector3D { x: 0, y: 0, z: 0 },
            u: Vector3D { x: 0, y: 0, z: 0 },
            v: Vector3D { x: 0, y: 0, z: 0 },
            w: Vector3D { x: 0, y: 0, z: 0 },
            defocus_disk_u: Vector3D { x: 0, y: 0, z: 0 },
            defocus_disk_v: Vector3D { x: 0, y: 0, z: 0 },
        }
    }

    /// Derive the viewport state from the configuration.
    fn initialize(&mut self)
        requires
            1 <= old(self).image_width <= IMAGE_DIM_MAX,
        ensures
            *final(self) == initialized_camera(*old(self)),
            final(self).image_height <= IMAGE_DIM_MAX,
    {
        let width_fx: i64 = (self.image_width as i64) * ONE;
        let height_fx: i64 = fx_div(width_fx, self.aspect_ratio);
        let raw_height: usize = if height_fx <= 0 {
            0
        } else {
            ((height_fx as u64) / 65536) as usize
        };
        self.image_height = if raw_height > IMAGE_DIM_MAX {
            IMAGE_DIM_MAX
        } else {
            raw_height
        };
        self.center = self.look_from;

        let height_int_fx: i64 = (self.image_height as i64) * ONE;
        let viewport_height: i64 = fx_mul(fx_mul(self.tan_half_fov, self.focus_distance), TWO_ONE);
        let viewport_width: i64 = fx_mul(viewport_height, fx_div(width_fx, height_int_fx));

        self.w = self.look_from.minus(&self.look_at).normalized();
        self.u = Vector3D::cross(&self.vertical_up, &self.w).normalized();
        self.v = Vector3D::cross(&self.w, &self.u);

        let viewport_u = self.u.scaled(viewport_width);
        let viewport_v = self.v.negated().scaled(viewport_height);

        self.pixel_delta_u = viewport_u.divided(width_fx);
        self.pixel_delta_v = viewport_v.divided(height_int_fx);

        let viewport_upper_left = self
            .center
            .minus(&self.w.scaled(self.focus_distance))
            .minus(&viewport_u.divided(TWO_ONE))
            .minus(&viewport_v.divided(TWO_ONE));
        self.pixel_location_100 = viewport_upper_left.plus(
            &self.pixel_delta_u.plus(&self.pixel_delta_v).scaled(HALF_ONE),
        );

        let defocus_radius: i64 = fx_mul(self.focus_distance, self.tan_half_defocus);
        self.defocus_disk_u = self.u.scaled(defocus_radius);
        self.defocus_disk_v = self.v.scaled(defocus_radius);
    }

    /// The jitter offset of one sample, in pixel steps: a draw from
    /// `[-1/2, 1/2)` along each pixel-plane basis vector.
    fn pixel_sample_square(&self) -> (r: Vector3D)
        ensures
            exists|px: i64, py: i64|
                -HALF_ONE <= px < HALF_ONE && -HALF_ONE <= py < HALF_ONE && r == #[trigger] v3_plus(
                    v3_scale(self.pixel_delta_u, px),
                    v3_scale(self.pixel_delta_v, py),
                ),
    {
        let px: i64 = fx_sub(random_unit_scalar(), HALF_ONE);
        let py: i64 = fx_sub(random_unit_scalar(), HALF_ONE);
        let r = self.pixel_delta_u.scaled(px).plus(&self.pixel_delta_v.scaled(py));
        proof {
            assert(-HALF_ONE <= px < HALF_ONE && -HALF_ONE <= py < HALF_ONE && r == v3_plus(
                v3_scale(self.pixel_delta_u, px),
                v3_scale(self.pixel_delta_v, py),
            ));
        }
        r
    }

    /// A point of the defocus disk, from draws of the unit disk.
    fn defocus_disk_sample(&self) -> (r: Point3D)
        ensures
            exists|dx: i64, dy: i64|
                -ONE <= dx < ONE && -ONE <= dy < ONE && r == #[trigger] v3_plus(
                    v3_plus(self.center, v3_scale(self.defocus_disk_u, dx)),
                    v3_scale(self.defocus_disk_v, dy),
                ),
    {
        let point = Vector3D::random_in_unit_disk();
        let r = self
            .center
            .plus(&self.defocus_disk_u.scaled(point.x))
            .plus(&self.defocus_disk_v.scaled(point.y));
        proof {
            assert(-ONE <= point.x < ONE && -ONE <= point.y < ONE && r == v3_plus(
                v3_plus(self.center, v3_scale(self.defocus_disk_u, point.x)),
                v3_scale(self.defocus_disk_v, point.y),
            ));
        }
        r
    }

    /// One jittered primary ray for pixel `(i, j)`.
    fn get_ray(&self, i: usize, j: usize) -> (r: Ray)
        requires
            i <= IMAGE_DIM_MAX,
            j <= IMAGE_DIM_MAX,
        ensures
            exists|px: i64, py: i64, dx: i64, dy: i64|
                -HALF_ONE <= px < HALF_ONE && -HALF_ONE <= py < HALF_ONE && -ONE <= dx < ONE
                    && -ONE <= dy < ONE && r == #[trigger] get_ray_s(*self, i, j, px, py, dx, dy),
            r.wf(),
    {
        let pixel_center = self
            .pixel_location_100
            .plus(&self.pixel_delta_u.scaled((i as i64) * ONE))
            .plus(&self.pixel_delta_v.scaled((j as i64) * ONE));
        let jitter = self.pixel_sample_square();
        let pixel_sample = pixel_center.plus(&jitter);

        let ray_origin = if self.tan_half_defocus <= 0 {
            self.center
        } else {
            self.defocus_disk_sample()
        };
        let ray_direction = pixel_sample.minus(&ray_origin);

        let r = Ray::new(ray_origin, ray_direction, 0);
        proof {
            let (px, py) = choose|px: i64, py: i64|
                -HALF_ONE <= px < HALF_ONE && -HALF_ONE <= py < HALF_ONE && jitter == #[trigger] v3_plus(
                    v3_scale(self.pixel_delta_u, px),
                    v3_scale(self.pixel_delta_v, py),
                );
            if self.tan_half_defocus <= 0 {
                assert(r == get_ray_s(*self, i, j, px, py, 0, 0));
                assert(-HALF_ONE <= px < HALF_ONE && -HALF_ONE <= py < HALF_ONE && -ONE <= 0 < ONE
                    && -ONE <= 0 < ONE && r == get_ray_s(*self, i, j, px, py, 0, 0));
            } else {
                let (dx, dy) = choose|dx: i64, dy: i64|
                    -ONE <= dx < ONE && -ONE <= dy < ONE && ray_origin == #[trigger] v3_plus(
                        v3_plus(self.center, v3_scale(self.defocus_disk_u, dx)),
                        v3_scale(self.defocus_disk_v, dy),
                    );
                assert(-HALF_ONE <= px < HALF_ONE && -HALF_ONE <= py < HALF_ONE && -ONE <= dx < ONE
                    && -ONE <= dy < ONE && r == get_ray_s(*self, i, j, px, py, dx, dy));
            }
        }
        r
    }

    /// The recursive radiance estimate of one ray: black at the bounce
    /// bound, the sky when nothing is hit, otherwise the scattered
    /// estimate dimmed by the material's attenuation.
    pub fn ray_color(ray: &Ray, max_depth: usize, world: &Hittable, materials: &Vec<Material>) -> (r:
        Color)
        requires
            ray.wf(),
        ensures
            max_depth == 0 ==> r == black(),
            (max_depth > 0 && world.hit_s(*ray, Interval { min: SHADOW_EPS, max: FX_MAX })
                == None::<crate::hittable::HitRecord>) ==> r == background_s(*ray),
            (max_depth > 0 && (match world.hit_s(*ray, Interval { min: SHADOW_EPS, max: FX_MAX }) {
                Some(rec) => match rec.material {
                    Some(handle) => handle >= materials@.len(),
                    None => true,
                },
                None => false,
            })) ==> r == black(),
            materials_wf(materials@) ==> color_in_unit(r),
        decreases max_depth,
    {
        if max_depth == 0 {
            return Color { x: 0, y: 0, z: 0 };
        }
        let interval = Interval::new(SHADOW_EPS, FX_MAX);
        match world.hit(ray, &interval) {
            Some(record) => {
                match record.material {
                    None => Color { x: 0, y: 0, z: 0 },
                    Some(handle) => {
                        if handle >= materials.len() {
                            Color { x: 0, y: 0, z: 0 }
                        } else {
                            let mut attenuation: Color = Color { x: 0, y: 0, z: 0 };
                            match materials[handle].scatter(
                                ray,
                                &record.point,
                                &record.normal,
                                record.front_face,
                                &mut attenuation,
                            ) {
                                Some(scattered) => {
                                    let bounced = Camera::ray_color(
                                        &scattered,
                                        max_depth - 1,
                                        world,
                                        materials,
                                    );
                                    let r = attenuation.hadamard(&bounced);
                                    proof {
                                        if materials_wf(materials@) {
                                            assert(material_wf(materials@[handle as int]));
                                            crate::fixed::lemma_fx_mul_unit_range(
                                                attenuation.x,
                                                bounced.x,
                                            );
                                            crate::fixed::lemma_fx_mul_unit_range(
                                                attenuation.y,
                                                bounced.y,
                                            );
                                            crate::fixed::lemma_fx_mul_unit_range(
                                                attenuation.z,
                                                bounced.z,
                                            );
                                        }
                                    }
                                    r
                                },
                                None => Color { x: 0, y: 0, z: 0 },
                            }
                        }
                    },
                }
            },
            None => {
                let direction_normal = ray.direction().normalized();
                let a: i64 = fx_mul(fx_add(direction_normal.y, ONE), HALF_ONE);
                let blended = Color { x: ONE, y: ONE, z: ONE }.scaled(fx_sub(ONE, a)).plus(
                    &Color { x: HALF_ONE, y: 45875, z: ONE }.scaled(a),
                );
                let cx: i64 = if blended.x < 0 {
                    0
                } else if blended.x > ONE {
                    ONE
                } else {
                    blended.x
                };
                let cy: i64 = if blended.y < 0 {
                    0
                } else if blended.y > ONE {
                    ONE
                } else {
                    blended.y
                };
                let cz: i64 = if blended.z < 0 {
                    0
                } else if blended.z > ONE {
                    ONE
                } else {
                    blended.z
                };
                Color { x: cx, y: cy, z: cz }
            },
        }
    }

    /// One scanline: every pixel's accumulated sample sum, left to
    /// right.
    fn render_row(&self, world: &Hittable, materials: &Vec<Material>, j: usize) -> (row: Vec<Color>)
        requires
            1 <= self.samples_per_pixel <= 0x7fffffff,
            self.image_width <= IMAGE_DIM_MAX,
            j <= IMAGE_DIM_MAX,
        ensures
            row@.len() == self.image_width as int,
            materials_wf(materials@) ==> row_in_range(row@, self.samples_per_pixel as int),
    {
        let mut row: Vec<Color> = Vec::new();
        let mut i: usize = 0;
        while i < self.image_width
            invariant
                i <= self.image_width,
                row@.len() == i as int,
                1 <= self.samples_per_pixel <= 0x7fffffff,
                self.image_width <= IMAGE_DIM_MAX,
                j <= IMAGE_DIM_MAX,
                materials_wf(materials@) ==> row_in_range(row@, self.samples_per_pixel as int),
            decreases self.image_width - i,
        {
            let mut pixel_color: Color = Color { x: 0, y: 0, z: 0 };
            let mut s: usize = 0;
            while s < self.samples_per_pixel
                invariant
                    s <= self.samples_per_pixel,
                    self.samples_per_pixel <= 0x7fffffff,
                    i <= IMAGE_DIM_MAX,
                    j <= IMAGE_DIM_MAX,
                    materials_wf(materials@) ==> (0 <= pixel_color.x <= s * ONE && 0
                        <= pixel_color.y <= s * ONE && 0 <= pixel_color.z <= s * ONE),
                decreases self.samples_per_pixel - s,
            {
                let ray = self.get_ray(i, j);
                let sample = Camera::ray_color(&ray, self.max_depth, world, materials);
                pixel_color = pixel_color.plus(&sample);
                s = s + 1;
            }
            row.push(pixel_color);
            i = i + 1;
        }
        row
    }

    /// Render the image row by row: each pixel holds the sum of its
    /// samples' colors, to be resolved by `resolve_color`.
    pub fn render(&mut self, world: &Hittable, materials: &Vec<Material>) -> (rows: Vec<Vec<Color>>)
        requires
            1 <= old(self).image_width <= IMAGE_DIM_MAX,
            1 <= old(self).samples_per_pixel <= 0x7fffffff,
        ensures
            *final(self) == initialized_camera(*old(self)),
            rows@.len() == final(self).image_height as int,
            forall|r: int|
                0 <= r < rows@.len() ==> (#[trigger] rows@[r])@.len() == final(self).image_width as int,
            materials_wf(materials@) ==> forall|r: int|
                0 <= r < rows@.len() ==> row_in_range((#[trigger] rows@[r])@, final(self).samples_per_pixel as int),
    {
        self.initialize();
        let mut rows: Vec<Vec<Color>> = Vec::new();
        let mut j: usize = 0;
        while j < self.image_height
            invariant
                j <= self.image_height,
                rows@.len() == j as int,
                1 <= self.samples_per_pixel <= 0x7fffffff,
                self.image_width <= IMAGE_DIM_MAX,
                self.image_height <= IMAGE_DIM_MAX,
                forall|r: int|
                    0 <= r < rows@.len() ==> (#[trigger] rows@[r])@.len()
                        == self.image_width as int,
                materials_wf(materials@) ==> forall|r: int|
                    0 <= r < rows@.len() ==> row_in_range(
                        (#[trigger] rows@[r])@,
                        self.samples_per_pixel as int,
                    ),
            decreases self.image_height - j,
        {
            let row = self.render_row(world, materials, j);
            rows.push(row);
            j = j + 1;
        }
        rows
    }

    /// Render with one parallel task per scanline. Relies on rayon's
    /// `into_par_iter().map(..).collect()` over a range: the collected
    /// vector has exactly one entry per row index, in index order, each
    /// produced by this camera's own `render_row`, whose contract gives
    /// the stated row lengths. Scene and materials are only read.
    #[verifier::external_body]
    fn par_rows(&self, world: &Hittable, materials: &Vec<Material>) -> (rows: Vec<Vec<Color>>)
        requires
            1 <= self.samples_per_pixel <= 0x7fffffff,
            self.image_width <= IMAGE_DIM_MAX,
            self.image_height <= IMAGE_DIM_MAX,
        ensures
            rows@.len() == self.image_height as int,
            forall|r: int|
                0 <= r < rows@.len() ==> (#[trigger] rows@[r])@.len() == self.image_width as int,
            materials_wf(materials@) ==> forall|r: int|
                0 <= r < rows@.len() ==> row_in_range(
                    (#[trigger] rows@[r])@,
                    self.samples_per_pixel as int,
                ),
    {
        (0..self.image_height).into_par_iter().map(|j| self.render_row(world, materials, j)).collect()
    }

    /// Render the image with scanlines distributed across parallel
    /// workers; row order in the result is row-major regardless of
    /// completion order.
    pub fn render_parallel(&mut self, world: &Hittable, materials: &Vec<Material>) -> (rows: Vec<
        Vec<Color>,
    >)
        requires
            1 <= old(self).image_width <= IMAGE_DIM_MAX,
            1 <= old(self).samples_per_pixel <= 0x7fffffff,
        ensures
            *final(self) == initialized_camera(*old(self)),
            rows@.len() == final(self).image_height as int,
            forall|r: int|
                0 <= r < rows@.len() ==> (#[trigger] rows@[r])@.len() == final(self).image_width as int,
            materials_wf(materials@) ==> forall|r: int|
                0 <= r < rows@.len() ==> row_in_range(
                    (#[trigger] rows@[r])@,
                    final(self).samples_per_pixel as int,
                ),
    {
        self.initialize();
        self.par_rows(world, materials)
    }
}

} // verus!
