use halide::bvh::BVHNode;
use halide::camera::Camera;
use halide::color::{resolve_channel, resolve_color, Color};
use halide::fixed::{FX_MAX, ONE};
use halide::hittable::{Hittable, HittableList};
use halide::interval::Interval;
use halide::material::{Dielectric, Lambertian, Material, Metal};
use halide::ray::Ray;
use halide::rng::{random_axis, random_in};
use halide::sphere::Sphere;
use halide::vector::Vector3D;

fn demo_spheres() -> Vec<Sphere> {
    vec![
        Sphere::new_static(Vector3D::new(0, -64 * ONE, 0), 63 * ONE, 0),
        Sphere::new_static(Vector3D::new(0, 0, -3 * ONE), ONE, 1),
        Sphere::new_static(Vector3D::new(-5 * ONE / 2, 0, -3 * ONE), ONE, 2),
        Sphere::new_static(Vector3D::new(2 * ONE, 0, -3 * ONE), ONE, 3),
        Sphere::new_static(Vector3D::new(0, 2 * ONE, -5 * ONE), ONE / 2, 1),
        Sphere::new_dynamic(
            Vector3D::new(ONE, ONE, -2 * ONE),
            Vector3D::new(ONE, 2 * ONE, -2 * ONE),
            ONE / 4,
            2,
        ),
    ]
}

fn demo_rays() -> Vec<Ray> {
    let mut rays = Vec::new();
    let dirs = [
        Vector3D::new(0, 0, -ONE),
        Vector3D::new(ONE / 2, 0, -ONE),
        Vector3D::new(-ONE / 2, ONE / 8, -ONE),
        Vector3D::new(0, -ONE, -ONE / 4),
        Vector3D::new(ONE, ONE, ONE),
        Vector3D::new(-ONE / 3, -ONE / 5, -ONE),
    ];
    let origins = [
        Vector3D::new(0, 0, 0),
        Vector3D::new(0, ONE / 2, 2 * ONE),
        Vector3D::new(-ONE, 0, 0),
    ];
    for o in origins {
        for d in dirs {
            rays.push(Ray::new(o, d, 0));
            rays.push(Ray::new(o, d, ONE / 2));
        }
    }
    rays
}

#[test]
fn bvh_agrees_with_brute_force_linear_scan() {
    let mut list = HittableList::default();
    for s in demo_spheres() {
        list.add_object(s);
    }
    let node = BVHNode::from_hittable_list(&list);
    for ray in demo_rays() {
        let brute = list.hit(&ray, &Interval::new(66, FX_MAX));
        let fast = node.hit(&ray, &Interval::new(66, FX_MAX));
        assert_eq!(brute, fast);
    }
}

#[test]
fn bvh_and_linear_scan_agree_on_depth_even_at_a_tangent_tie() {
    // Two spheres touching at (-1, 0, -3): a ray through the tangent
    // point hits both at the same depth. Which record wins depends on
    // scan order, but the reported depth is the same either way.
    let mut list = HittableList::default();
    list.add_object(Sphere::new_static(Vector3D::new(0, 0, -3 * ONE), ONE, 1));
    list.add_object(Sphere::new_static(Vector3D::new(-2 * ONE, 0, -3 * ONE), ONE, 2));
    let node = BVHNode::from_hittable_list(&list);
    let ray = Ray::new(Vector3D::new(-ONE, 0, 0), Vector3D::new(0, 0, -ONE), 0);
    let brute = list.hit(&ray, &Interval::new(66, FX_MAX)).expect("hit");
    let fast = node.hit(&ray, &Interval::new(66, FX_MAX)).expect("hit");
    assert_eq!(brute.depth, fast.depth);
    assert_eq!(brute.point, fast.point);
}

#[test]
fn bvh_of_a_single_object_behaves_like_that_object() {
    let sphere = Sphere::new_static(Vector3D::new(0, 0, -3 * ONE), ONE, 7);
    let list = HittableList::new(sphere);
    let node = BVHNode::from_hittable_list(&list);
    let ray = Ray::new(Vector3D::new(0, 0, 0), Vector3D::new(0, 0, -ONE), 0);
    assert_eq!(
        node.hit(&ray, &Interval::new(66, FX_MAX)),
        sphere.hit(&ray, &Interval::new(66, FX_MAX))
    );
}

#[test]
fn repeated_traversals_of_one_tree_are_reproducible() {
    let mut list = HittableList::default();
    for s in demo_spheres() {
        list.add_object(s);
    }
    let node = BVHNode::from_hittable_list(&list);
    for ray in demo_rays() {
        let first = node.hit(&ray, &Interval::new(66, FX_MAX));
        let second = node.hit(&ray, &Interval::new(66, FX_MAX));
        assert_eq!(first, second);
    }
}

#[test]
fn lambertian_scatter_never_absorbs_and_reports_its_albedo() {
    let albedo = Color { x: ONE / 2, y: ONE / 4, z: ONE / 8 };
    let material = Material::Lambertian(Lambertian::new(albedo));
    let ray = Ray::new(Vector3D::new(0, 0, 0), Vector3D::new(0, 0, -ONE), 0);
    for _ in 0..32 {
        let mut attenuation = Color { x: 0, y: 0, z: 0 };
        let scattered = material.scatter(
            &ray,
            &Vector3D::new(0, 0, -ONE),
            &Vector3D::new(0, 0, ONE),
            true,
            &mut attenuation,
        );
        assert!(scattered.is_some());
        assert_eq!(attenuation, albedo);
    }
}

#[test]
fn smooth_metal_reflects_exactly() {
    let albedo = Color { x: ONE, y: ONE, z: ONE };
    let material = Material::Metal(Metal::new(albedo, 0));
    // Incoming at 45 degrees onto a floor with an upward normal.
    let ray = Ray::new(Vector3D::new(0, ONE, 0), Vector3D::new(ONE, -ONE, 0), 0);
    let mut attenuation = Color { x: 0, y: 0, z: 0 };
    let scattered = material
        .scatter(
            &ray,
            &Vector3D::new(ONE, 0, 0),
            &Vector3D::new(0, ONE, 0),
            true,
            &mut attenuation,
        )
        .expect("mirror reflection leaves the surface");
    // normalized((1,-1,0)) reflected about +y flips the y component.
    let d = scattered.direction();
    assert_eq!(d.x, 46341);
    assert_eq!(d.y, 46341);
    assert_eq!(d.z, 0);
    assert_eq!(attenuation, albedo);
}

#[test]
fn fuzzy_metal_absorbs_rays_perturbed_into_the_surface() {
    // A grazing reflection with a large fuzz ball sometimes scatters
    // below the surface; those samples are absorbed, never returned.
    let material = Material::Metal(Metal::new(Color { x: ONE, y: ONE, z: ONE }, ONE));
    let ray = Ray::new(Vector3D::new(0, ONE, 0), Vector3D::new(ONE, -1, 0), 0);
    for _ in 0..64 {
        let mut attenuation = Color { x: 0, y: 0, z: 0 };
        if let Some(scattered) = material.scatter(
            &ray,
            &Vector3D::new(ONE, 0, 0),
            &Vector3D::new(0, ONE, 0),
            true,
            &mut attenuation,
        ) {
            // Whatever came back leaves the surface.
            assert!(Vector3D::dot(&scattered.direction(), &Vector3D::new(0, ONE, 0)) > 0);
        }
    }
}

#[test]
fn unity_dielectric_keeps_the_direction_at_normal_incidence() {
    let material = Material::Dielectric(Dielectric::new(ONE));
    let ray = Ray::new(Vector3D::new(0, 0, 0), Vector3D::new(0, 0, -ONE), 0);
    for _ in 0..32 {
        let mut attenuation = Color { x: 0, y: 0, z: 0 };
        let scattered = material
            .scatter(
                &ray,
                &Vector3D::new(0, 0, -ONE),
                &Vector3D::new(0, 0, ONE),
                true,
                &mut attenuation,
            )
            .expect("dielectric never absorbs");
        assert_eq!(scattered.direction(), Vector3D::new(0, 0, -ONE));
        assert_eq!(attenuation, Color { x: ONE, y: ONE, z: ONE });
    }
}

#[test]
fn unity_dielectric_refracts_straight_through_at_an_angle() {
    // At refraction ratio one the refracted direction equals the
    // incoming unit direction up to fixed-point quantization. The
    // Schlick term is still positive away from normal incidence, so a
    // small fraction of draws takes the mirror branch instead; those
    // flip the component along the normal and nothing else.
    let material = Material::Dielectric(Dielectric::new(ONE));
    let ray = Ray::new(Vector3D::new(0, 0, ONE), Vector3D::new(ONE, 0, -ONE), 0);
    let incoming_unit = Vector3D::new(46341, 0, -46341);
    for _ in 0..32 {
        let mut attenuation = Color { x: 0, y: 0, z: 0 };
        let scattered = material
            .scatter(
                &ray,
                &Vector3D::new(ONE, 0, 0),
                &Vector3D::new(0, 0, ONE),
                true,
                &mut attenuation,
            )
            .expect("dielectric never absorbs");
        let d = scattered.direction();
        assert!((d.x - incoming_unit.x).abs() <= 2);
        assert_eq!(d.y, 0);
        assert!((d.z.abs() - incoming_unit.z.abs()).abs() <= 2);
    }
}

#[test]
fn schlick_reflectance_at_normal_incidence_is_r0() {
    // Ratio 1.5: r0_root = -0.2 (truncated to -13107), r0 = 2621.
    assert_eq!(Dielectric::reflectance(ONE, 98304), 2621);
    // Ratio 1: r0 = 0, so the reflectance vanishes at normal incidence.
    assert_eq!(Dielectric::reflectance(ONE, ONE), 0);
}

#[test]
fn resolving_identical_samples_equals_a_single_sample() {
    let c: i64 = 30000;
    for n in [1i64, 2, 7, 100] {
        assert_eq!(resolve_channel(n * c, n), resolve_channel(c, 1));
    }
    assert_eq!(resolve_channel(30000, 1), 173);
}

#[test]
fn resolve_color_clamps_into_byte_range() {
    let white_sum = Color { x: 10 * ONE, y: 10 * ONE, z: 10 * ONE };
    let (r, g, b) = resolve_color(&white_sum, 10);
    assert_eq!((r, g, b), (255, 255, 255));
    let black_sum = Color { x: 0, y: 0, z: 0 };
    assert_eq!(resolve_color(&black_sum, 10), (0, 0, 0));
    let over = Color { x: 100 * ONE, y: 0, z: ONE };
    let (r2, g2, b2) = resolve_color(&over, 1);
    assert_eq!(r2, 255);
    assert_eq!(g2, 0);
    assert!(0 <= b2 && b2 <= 255);
}

#[test]
fn empty_scene_renders_the_sky_gradient() {
    let world = Hittable::List(HittableList::default());
    let materials: Vec<Material> = Vec::new();
    // Looking up: more blue than red; both channels inside the unit range.
    let up = Ray::new(Vector3D::new(0, 0, 0), Vector3D::new(0, ONE, 0), 0);
    let c = Camera::ray_color(&up, 8, &world, &materials);
    assert!(0 <= c.x && c.x <= ONE);
    assert!(c.z >= c.x);
    // Straight down blends toward white: channels nearly equal.
    let down = Ray::new(Vector3D::new(0, 0, 0), Vector3D::new(0, -ONE, 0), 0);
    let w = Camera::ray_color(&down, 8, &world, &materials);
    assert!((w.x - ONE).abs() <= 2);
    assert!((w.y - ONE).abs() <= 2);
    assert!((w.z - ONE).abs() <= 2);
}

#[test]
fn exhausted_bounce_budget_returns_black() {
    let world = Hittable::List(HittableList::default());
    let materials: Vec<Material> = Vec::new();
    let ray = Ray::new(Vector3D::new(0, 0, 0), Vector3D::new(0, ONE, 0), 0);
    let c = Camera::ray_color(&ray, 0, &world, &materials);
    assert_eq!(c, Color { x: 0, y: 0, z: 0 });
}

#[test]
fn render_produces_the_full_pixel_grid() {
    let mut camera = Camera::new(
        2 * ONE,
        16,
        2,
        4,
        ONE,
        Vector3D::new(0, 0, 0),
        Vector3D::new(0, 0, -ONE),
        Vector3D::new(0, ONE, 0),
        0,
        10 * ONE,
    );
    let world = Hittable::List(HittableList::default());
    let materials: Vec<Material> = Vec::new();
    let rows = camera.render(&world, &materials);
    assert_eq!(rows.len(), 8);
    for row in &rows {
        assert_eq!(row.len(), 16);
    }
}

#[test]
fn parallel_render_produces_the_same_grid_shape() {
    let mut camera = Camera::new(
        2 * ONE,
        16,
        2,
        4,
        ONE,
        Vector3D::new(0, 0, 0),
        Vector3D::new(0, 0, -ONE),
        Vector3D::new(0, ONE, 0),
        0,
        10 * ONE,
    );
    let world = Hittable::List(HittableList::default());
    let materials: Vec<Material> = Vec::new();
    let rows = camera.render_parallel(&world, &materials);
    assert_eq!(rows.len(), 8);
    for row in &rows {
        assert_eq!(row.len(), 16);
    }
}

#[test]
fn rendering_a_scene_with_materials_stays_in_range() {
    let materials = vec![
        Material::Lambertian(Lambertian::new(Color { x: ONE / 2, y: ONE / 2, z: ONE / 2 })),
        Material::Metal(Metal::new(Color { x: 3 * ONE / 4, y: 3 * ONE / 4, z: 3 * ONE / 4 }, ONE / 10)),
        Material::Dielectric(Dielectric::new(98304)),
    ];
    let mut list = HittableList::default();
    list.add_object(Sphere::new_static(Vector3D::new(0, -64 * ONE, 0), 63 * ONE, 0));
    list.add_object(Sphere::new_static(Vector3D::new(0, 0, -3 * ONE), ONE, 1));
    list.add_object(Sphere::new_static(Vector3D::new(2 * ONE, 0, -3 * ONE), ONE, 2));
    let world = Hittable::Node(BVHNode::from_hittable_list(&list));
    let mut camera = Camera::new(
        ONE,
        8,
        4,
        6,
        ONE,
        Vector3D::new(0, 0, 2 * ONE),
        Vector3D::new(0, 0, -ONE),
        Vector3D::new(0, ONE, 0),
        0,
        5 * ONE,
    );
    let rows = camera.render(&world, &materials);
    assert_eq!(rows.len(), 8);
    for row in &rows {
        for pixel in row {
            // Four samples, each in the unit range.
            assert!(0 <= pixel.x && pixel.x <= 4 * ONE);
            assert!(0 <= pixel.y && pixel.y <= 4 * ONE);
            assert!(0 <= pixel.z && pixel.z <= 4 * ONE);
            let (r, g, b) = resolve_color(pixel, 4);
            assert!((0..=255).contains(&r));
            assert!((0..=255).contains(&g));
            assert!((0..=255).contains(&b));
        }
    }
}

#[test]
fn random_draws_respect_their_ranges() {
    for _ in 0..256 {
        assert!(random_axis() < 3);
        let v = random_in(-5 * ONE, 5 * ONE);
        assert!((-5 * ONE..5 * ONE).contains(&v));
        let w = random_in(7, 7);
        assert_eq!(w, 7);
    }
    let u = Vector3D::random_in_unit_sphere();
    assert!(u.length_squared() < ONE);
    let d = Vector3D::random_in_unit_disk();
    assert_eq!(d.z, 0);
    assert!(d.length_squared() < ONE);
}
