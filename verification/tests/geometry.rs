use halide::aabb::AABB;
use halide::fixed::{fx_abs, fx_add, fx_div, fx_mul, fx_neg, fx_sqrt, fx_sub, FX_MAX, FX_MIN, ONE};
use halide::hittable::{Hittable, HittableList};
use halide::interval::Interval;
use halide::ray::Ray;
use halide::sphere::Sphere;
use halide::vector::Vector3D;

#[test]
fn fixed_point_products_are_exact_on_representable_values() {
    assert_eq!(fx_mul(3 * ONE / 2, 2 * ONE), 3 * ONE);
    assert_eq!(fx_mul(-ONE, -ONE), ONE);
    assert_eq!(fx_mul(ONE / 4, ONE / 2), ONE / 8);
    assert_eq!(fx_mul(0, 12345), 0);
}

#[test]
fn fixed_point_division_saturates_on_zero_divisor_instead_of_panicking() {
    assert_eq!(fx_div(ONE, 0), FX_MAX);
    assert_eq!(fx_div(-ONE, 0), FX_MIN);
    assert_eq!(fx_div(0, 0), 0);
    assert_eq!(fx_div(ONE, 2 * ONE), ONE / 2);
    assert_eq!(fx_div(-3 * ONE, 2 * ONE), -3 * ONE / 2);
}

#[test]
fn fixed_point_square_root_is_exact_on_squares() {
    assert_eq!(fx_sqrt(ONE), ONE);
    assert_eq!(fx_sqrt(4 * ONE), 2 * ONE);
    assert_eq!(fx_sqrt(ONE / 4), ONE / 2);
    assert_eq!(fx_sqrt(0), 0);
}

#[test]
fn saturating_addition_clamps_at_the_ends() {
    assert_eq!(fx_add(FX_MAX, 1), FX_MAX);
    assert_eq!(fx_sub(FX_MIN, 1), FX_MIN);
    assert_eq!(fx_neg(FX_MIN), FX_MAX);
    assert_eq!(fx_abs(FX_MIN), FX_MAX);
    assert_eq!(fx_add(2 * ONE, 3 * ONE), 5 * ONE);
}

#[test]
fn vector_algebra_matches_hand_computed_values() {
    let a = Vector3D::new(ONE, 2 * ONE, 3 * ONE);
    let b = Vector3D::new(-ONE, ONE / 2, 0);
    assert_eq!(a.plus(&b), Vector3D::new(0, 5 * ONE / 2, 3 * ONE));
    assert_eq!(a.minus(&b), Vector3D::new(2 * ONE, 3 * ONE / 2, 3 * ONE));
    assert_eq!(Vector3D::dot(&a, &b), -ONE + ONE);
    let cx = Vector3D::cross(&Vector3D::new(ONE, 0, 0), &Vector3D::new(0, ONE, 0));
    assert_eq!(cx, Vector3D::new(0, 0, ONE));
    assert_eq!(a.length_squared(), 14 * ONE);
    assert_eq!(Vector3D::new(3 * ONE, 4 * ONE, 0).length(), 5 * ONE);
}

#[test]
fn reflection_about_an_axis_flips_the_component() {
    let v = Vector3D::new(ONE, -ONE, 0);
    let n = Vector3D::new(0, ONE, 0);
    assert_eq!(Vector3D::reflect(&v, &n), Vector3D::new(ONE, ONE, 0));
}

#[test]
fn interval_membership_is_closed_and_strict_as_documented() {
    let iv = Interval::new(-ONE, ONE);
    assert!(iv.contains(ONE));
    assert!(iv.contains(-ONE));
    assert!(!iv.surrounds(ONE));
    assert!(iv.surrounds(0));
    assert!(!Interval::empty().contains(0));
    assert!(Interval::universe().contains(FX_MAX));
    assert_eq!(iv.clamp(2 * ONE), ONE);
    assert_eq!(iv.clamp(-2 * ONE), -ONE);
    assert_eq!(iv.clamp(7), 7);
}

#[test]
fn aabb_union_is_commutative_associative_and_idempotent() {
    let a = AABB::new(
        Interval::new(-ONE, ONE),
        Interval::new(0, 2 * ONE),
        Interval::new(-3 * ONE, -ONE),
    );
    let b = AABB::new(
        Interval::new(0, 4 * ONE),
        Interval::new(-ONE, ONE),
        Interval::new(-2 * ONE, 2 * ONE),
    );
    let c = AABB::new(
        Interval::new(-5 * ONE, -4 * ONE),
        Interval::new(0, ONE),
        Interval::new(0, ONE),
    );
    assert_eq!(AABB::from_aabb_bounds(&a, &b), AABB::from_aabb_bounds(&b, &a));
    assert_eq!(
        AABB::from_aabb_bounds(&AABB::from_aabb_bounds(&a, &b), &c),
        AABB::from_aabb_bounds(&a, &AABB::from_aabb_bounds(&b, &c))
    );
    assert_eq!(AABB::from_aabb_bounds(&a, &a), a);
}

#[test]
fn slab_test_hits_any_ray_cast_from_inside_the_box() {
    let bbox = AABB::new(
        Interval::new(-ONE, ONE),
        Interval::new(-ONE, ONE),
        Interval::new(-ONE, ONE),
    );
    let directions = [
        Vector3D::new(ONE, 0, 0),
        Vector3D::new(0, -ONE, 0),
        Vector3D::new(ONE / 3, ONE / 7, -ONE),
        Vector3D::new(0, 0, 0),
    ];
    for d in directions {
        let ray = Ray::new(Vector3D::new(0, 0, 0), d, 0);
        assert!(bbox.hit(&ray, &Interval::new(-ONE, ONE)));
        assert!(bbox.hit(&ray, &Interval::universe()));
    }
}

#[test]
fn slab_test_rejects_the_empty_box_for_every_ray() {
    let empty = AABB::default();
    let rays = [
        Ray::new(Vector3D::new(0, 0, 0), Vector3D::new(0, 0, -ONE), 0),
        Ray::new(Vector3D::new(ONE, 2 * ONE, 3 * ONE), Vector3D::new(ONE, ONE, ONE), 0),
        Ray::new(Vector3D::new(-ONE, 0, 0), Vector3D::new(0, 0, 0), 0),
    ];
    for ray in rays {
        assert!(!empty.hit(&ray, &Interval::universe()));
    }
}

#[test]
fn slab_test_misses_a_box_behind_the_window() {
    let bbox = AABB::new(
        Interval::new(9 * ONE, 10 * ONE),
        Interval::new(-ONE, ONE),
        Interval::new(-ONE, ONE),
    );
    let ray = Ray::new(Vector3D::new(0, 0, 0), Vector3D::new(ONE, 0, 0), 0);
    // The box spans depths [9, 10]; a window ending at depth 8 misses it.
    assert!(!bbox.hit(&ray, &Interval::new(0, 8 * ONE)));
    assert!(bbox.hit(&ray, &Interval::new(0, 20 * ONE)));
}

#[test]
fn sphere_hit_depth_matches_the_analytic_root() {
    // Sphere at (0,0,-1) with radius one half, ray from the origin
    // along -z: the nearest hit sits at depth one half exactly.
    let sphere = Sphere::new_static(Vector3D::new(0, 0, -ONE), ONE / 2, 0);
    let ray = Ray::new(Vector3D::new(0, 0, 0), Vector3D::new(0, 0, -ONE), 0);
    let hit = sphere.hit(&ray, &Interval::new(66, FX_MAX)).expect("ray must hit");
    assert_eq!(hit.depth, ONE / 2);
    assert_eq!(hit.point, Vector3D::new(0, 0, -ONE / 2));
    assert_eq!(hit.normal, Vector3D::new(0, 0, ONE));
    assert!(hit.front_face);
    assert_eq!(hit.material, Some(0));
}

#[test]
fn sphere_hit_from_inside_reports_the_far_root_with_flipped_normal() {
    let sphere = Sphere::new_static(Vector3D::new(0, 0, -ONE), ONE / 2, 0);
    // Cast from the sphere's center: only the far root lies ahead.
    let ray = Ray::new(Vector3D::new(0, 0, -ONE), Vector3D::new(0, 0, -ONE), 0);
    let hit = sphere.hit(&ray, &Interval::new(66, FX_MAX)).expect("ray must hit");
    assert_eq!(hit.depth, ONE / 2);
    assert!(!hit.front_face);
    // The stored normal still opposes the ray's direction.
    assert!(Vector3D::dot(&ray.direction(), &hit.normal) <= 0);
}

#[test]
fn normal_always_opposes_the_incoming_ray() {
    let sphere = Sphere::new_static(Vector3D::new(0, 0, -2 * ONE), ONE, 0);
    let dirs = [
        Vector3D::new(0, 0, -ONE),
        Vector3D::new(ONE / 5, -ONE / 9, -ONE),
        Vector3D::new(-ONE / 3, ONE / 4, -ONE),
    ];
    for d in dirs {
        let ray = Ray::new(Vector3D::new(0, 0, 0), d, 0);
        if let Some(hit) = sphere.hit(&ray, &Interval::new(66, FX_MAX)) {
            assert!(Vector3D::dot(&ray.direction(), &hit.normal) <= 0);
        }
    }
}

#[test]
fn moving_sphere_center_interpolates_linearly() {
    let sphere = Sphere::new_dynamic(
        Vector3D::new(0, 0, 0),
        Vector3D::new(2 * ONE, 0, 0),
        ONE / 2,
        0,
    );
    assert_eq!(sphere.center(0), Vector3D::new(0, 0, 0));
    assert_eq!(sphere.center(ONE), Vector3D::new(2 * ONE, 0, 0));
    assert_eq!(sphere.center(ONE / 2), Vector3D::new(ONE, 0, 0));
}

#[test]
fn hittable_list_returns_the_nearest_hit_not_the_first() {
    let mut list = HittableList::default();
    // Farther sphere added first.
    list.add_object(Sphere::new_static(Vector3D::new(0, 0, -4 * ONE), ONE, 0));
    list.add_object(Sphere::new_static(Vector3D::new(0, 0, -2 * ONE), ONE, 1));
    let ray = Ray::new(Vector3D::new(0, 0, 0), Vector3D::new(0, 0, -ONE), 0);
    let hit = list.hit(&ray, &Interval::new(66, FX_MAX)).expect("must hit");
    assert_eq!(hit.depth, ONE);
    assert_eq!(hit.material, Some(1));
}

#[test]
fn ray_at_walks_along_the_direction() {
    let ray = Ray::new(Vector3D::new(ONE, 0, 0), Vector3D::new(0, 2 * ONE, 0), 0);
    assert_eq!(ray.at(ONE / 2), Vector3D::new(ONE, ONE, 0));
    assert_eq!(ray.at(0), Vector3D::new(ONE, 0, 0));
}

#[test]
fn interval_size_and_expand_match_their_formulas() {
    let iv = Interval::new(-ONE, 3 * ONE);
    assert_eq!(iv.size(), 4 * ONE);
    let wider = iv.expand(2 * ONE);
    assert_eq!(wider.min, -2 * ONE);
    assert_eq!(wider.max, 4 * ONE);
}

#[test]
fn axis_accessors_pick_the_named_component() {
    let v = Vector3D::new(7, 8, 9);
    assert_eq!(v.axis(0), 7);
    assert_eq!(v.axis(1), 8);
    assert_eq!(v.axis(2), 9);
    assert_eq!(v.x(), 7);
    assert_eq!(v.y(), 8);
    assert_eq!(v.z(), 9);
    let bbox = AABB::new(
        Interval::new(1, 2),
        Interval::new(3, 4),
        Interval::new(5, 6),
    );
    assert_eq!(bbox.axis(0), Interval::new(1, 2));
    assert_eq!(bbox.axis(1), Interval::new(3, 4));
    assert_eq!(bbox.axis(2), Interval::new(5, 6));
}

#[test]
fn refraction_bends_toward_the_surface_for_a_denser_medium() {
    // Entering glass-like material (ratio 2/3) at 45 degrees: the
    // refracted direction is closer to the negated normal than the
    // incoming one.
    let uv = Vector3D::new(46341, 0, -46341);
    let n = Vector3D::new(0, 0, ONE);
    let bent = Vector3D::refract(&uv, &n, 2 * ONE / 3);
    // The tangential part shrinks by the ratio.
    assert_eq!(bent.x, halide::fixed::fx_mul(46341, 2 * ONE / 3));
    assert!(bent.z < 0);
    // More downward than sideways now.
    assert!(bent.z.abs() > bent.x.abs());
}

#[test]
fn near_zero_detects_exact_cancellation_only() {
    assert!(Vector3D::new(0, 0, 0).near_zero());
    assert!(!Vector3D::new(1, 0, 0).near_zero());
    assert!(!Vector3D::new(0, -1, 0).near_zero());
}

#[test]
fn hittable_enum_dispatches_to_each_variant() {
    let sphere = Sphere::new_static(Vector3D::new(0, 0, -2 * ONE), ONE, 0);
    let as_shape = Hittable::Sphere(sphere);
    let ray = Ray::new(Vector3D::new(0, 0, 0), Vector3D::new(0, 0, -ONE), 0);
    let direct = sphere.hit(&ray, &Interval::new(66, FX_MAX));
    let dispatched = as_shape.hit(&ray, &Interval::new(66, FX_MAX));
    assert_eq!(direct, dispatched);
    assert_eq!(as_shape.bounding_box(), sphere.bounding_box());
}
