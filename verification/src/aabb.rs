//! Axis-aligned bounding boxes and the ray-slab test.
//!
//! The slab test here is exact: instead of dividing by direction
//! components (and rounding), it keeps each slab crossing as a rational
//! bound `n / p` with `p > 0` and compares bounds by cross
//! multiplication in 128-bit arithmetic. The test reports a hit exactly
//! when the intersection of the per-axis depth ranges and the caller's
//! depth window is nonempty, which makes bounding-volume pruning
//! provably lossless.

use vstd::prelude::*;

use crate::fixed::{fx_max, fx_min, ONE};
use crate::interval::{iv_union, Interval};
use crate::ray::Ray;

verus! {

/// Bound on slab numerators held in the running state: `ONE` times a
/// difference of two scalars always fits.
pub const SLAB_NUM_BOUND: i128 = 0x200000000000000000000i128;

/// Bound on slab denominators: one more than the direction budget.
pub const SLAB_DEN_BOUND: i128 = 0x80000000i128;

/// An axis-aligned box: one extent interval per axis.
#[derive(Debug, Clone, Copy, PartialEq, Eq, Structural)]
pub struct AABB {
    pub x: Interval,
    pub y: Interval,
    pub z: Interval,
}

/// `n1 / p1 <= n2 / p2` for positive denominators, by cross
/// multiplication.
pub open spec fn rle(n1: int, p1: int, n2: int, p2: int) -> bool {
    n1 * p2 <= n2 * p1
}

/// Whether depth `t` keeps the ray inside the slab `[lo, hi]` on one
/// axis: `lo <= o + t * d / ONE <= hi`, scaled by `ONE` to stay in
/// integers.
pub open spec fn axis_ok(o: i64, d: i64, lo: i64, hi: i64, t: int) -> bool {
    ONE * (lo - o) <= t * d && t * d <= ONE * (hi - o)
}

/// Whether the ray's point at integer depth `t` lies inside the box.
pub open spec fn point_within(bbox: AABB, ray: Ray, t: int) -> bool {
    &&& axis_ok(ray.origin.x, ray.direction.x, bbox.x.min, bbox.x.max, t)
    &&& axis_ok(ray.origin.y, ray.direction.y, bbox.y.min, bbox.y.max, t)
    &&& axis_ok(ray.origin.z, ray.direction.z, bbox.z.min, bbox.z.max, t)
}

/// One axis of the slab fold. The state is the tightest known depth
/// range as two rationals `(ln/lp, un/up)` plus a liveness flag that
/// clears as soon as the range empties.
pub open spec fn slab_axis_s(
    st: (int, int, int, int, bool),
    o: i64,
    d: i64,
    lo: i64,
    hi: i64,
) -> (int, int, int, int, bool) {
    let a = ONE * (lo - o);
    let b = ONE * (hi - o);
    if !st.4 {
        st
    } else if d == 0 {
        if a <= 0 && 0 <= b {
            st
        } else {
            (st.0, st.1, st.2, st.3, false)
        }
    } else {
        let cln = if d > 0 { a } else { -b };
        let clp = if d > 0 { d as int } else { -(d as int) };
        let cun = if d > 0 { b } else { -a };
        let cup = if d > 0 { d as int } else { -(d as int) };
        let ln2 = if rle(cln, clp, st.0, st.1) { st.0 } else { cln };
        let lp2 = if rle(cln, clp, st.0, st.1) { st.1 } else { clp };
        let un2 = if rle(st.2, st.3, cun, cup) { st.2 } else { cun };
        let up2 = if rle(st.2, st.3, cun, cup) { st.3 } else { cup };
        (ln2, lp2, un2, up2, rle(ln2, lp2, un2, up2))
    }
}

/// The slab fold's starting state: the caller's depth window.
pub open spec fn slab_init(interval: Interval) -> (int, int, int, int, bool) {
    (interval.min as int, 1, interval.max as int, 1, interval.min <= interval.max)
}

/// The exact slab test: whether the caller's depth window and the three
/// per-axis slab ranges have a nonempty common intersection.
pub open spec fn aabb_hit_s(bbox: AABB, ray: Ray, interval: Interval) -> bool {
    let s0 = slab_init(interval);
    let s1 = slab_axis_s(s0, ray.origin.x, ray.direction.x, bbox.x.min, bbox.x.max);
    let s2 = slab_axis_s(s1, ray.origin.y, ray.direction.y, bbox.y.min, bbox.y.max);
    let s3 = slab_axis_s(s2, ray.origin.z, ray.direction.z, bbox.z.min, bbox.z.max);
    s3.4
}

/// One interval lies inside another.
pub open spec fn iv_contains_iv(outer: Interval, inner: Interval) -> bool {
    outer.min <= inner.min && inner.max <= outer.max
}

/// One box lies inside another, axis by axis.
pub open spec fn box_contains(outer: AABB, inner: AABB) -> bool {
    &&& iv_contains_iv(outer.x, inner.x)
    &&& iv_contains_iv(outer.y, inner.y)
    &&& iv_contains_iv(outer.z, inner.z)
}

/// The union of two boxes, axis by axis.
pub open spec fn aabb_union(a: AABB, b: AABB) -> AABB {
    AABB { x: iv_union(a.x, b.x), y: iv_union(a.y, b.y), z: iv_union(a.z, b.z) }
}

/// Box union is commutative.
pub proof fn lemma_aabb_union_commutative(a: AABB, b: AABB)
    ensures
        aabb_union(a, b) == aabb_union(b, a),
{
}

/// Box union is associative.
pub proof fn lemma_aabb_union_associative(a: AABB, b: AABB, c: AABB)
    ensures
        aabb_union(aabb_union(a, b), c) == aabb_union(a, aabb_union(b, c)),
{
}

/// Box union is idempotent.
pub proof fn lemma_aabb_union_idempotent(a: AABB)
    ensures
        aabb_union(a, a) == a,
{
}

/// A union contains both of its arguments.
pub proof fn lemma_aabb_union_contains(a: AABB, b: AABB)
    ensures
        box_contains(aabb_union(a, b), a),
        box_contains(aabb_union(a, b), b),
{
}

/// Containment of boxes is transitive.
pub proof fn lemma_box_contains_transitive(a: AABB, b: AABB, c: AABB)
    requires
        box_contains(a, b),
        box_contains(b, c),
    ensures
        box_contains(a, c),
{
}

/// A point inside an inner box is inside every containing box.
pub proof fn lemma_point_within_monotone(outer: AABB, inner: AABB, ray: Ray, t: int)
    requires
        box_contains(outer, inner),
        point_within(inner, ray, t),
    ensures
        point_within(outer, ray, t),
{
}

/// A depth `t` satisfies a slab state when it sits inside the state's
/// rational range.
pub open spec fn state_admits(st: (int, int, int, int, bool), t: int) -> bool {
    &&& st.4
    &&& st.0 <= t * st.1
    &&& t * st.3 <= st.2
    &&& st.1 >= 1
    &&& st.3 >= 1
}

/// A depth inside the axis slab stays admitted across the axis step.
proof fn lemma_slab_axis_admits(
    st: (int, int, int, int, bool),
    o: i64,
    d: i64,
    lo: i64,
    hi: i64,
    t: int,
)
    requires
        state_admits(st, t),
        axis_ok(o, d, lo, hi, t),
        -(SLAB_DEN_BOUND as int) < (d as int) < (SLAB_DEN_BOUND as int),
    ensures
        state_admits(slab_axis_s(st, o, d, lo, hi), t),
{
    let a = ONE * (lo - o);
    let b = ONE * (hi - o);
    let s2 = slab_axis_s(st, o, d, lo, hi);
    if d == 0 {
        assert(t * d == 0) by (nonlinear_arith)
            requires
                d == 0,
        ;
        assert(a <= 0 && 0 <= b);
    } else {
        let cln = if d > 0 { a } else { -b };
        let clp = if d > 0 { d as int } else { -(d as int) };
        let cun = if d > 0 { b } else { -a };
        let cup = if d > 0 { d as int } else { -(d as int) };
        assert(cln <= t * clp && t * cup <= cun) by (nonlinear_arith)
            requires
                a <= t * d,
                t * d <= b,
                cln == if d > 0 { a } else { -b },
                clp == if d > 0 { d as int } else { -(d as int) },
                cun == if d > 0 { b } else { -a },
                cup == if d > 0 { d as int } else { -(d as int) },
                d != 0,
        ;
        assert(s2.0 <= t * s2.1 && t * s2.3 <= s2.2 && s2.1 >= 1 && s2.3 >= 1);
        assert(rle(s2.0, s2.1, s2.2, s2.3)) by (nonlinear_arith)
            requires
                s2.0 <= t * s2.1,
                t * s2.3 <= s2.2,
                s2.1 >= 1,
                s2.3 >= 1,
        ;
    }
}

/// Once the slab fold is dead it stays dead.
proof fn lemma_slab_axis_dead(st: (int, int, int, int, bool), o: i64, d: i64, lo: i64, hi: i64)
    requires
        !st.4,
    ensures
        !slab_axis_s(st, o, d, lo, hi).4,
{
}

/// Soundness of the slab test: if any integer depth in the caller's
/// window puts the ray inside the box, the test reports a hit.
pub proof fn lemma_slab_sound(bbox: AABB, ray: Ray, interval: Interval, t: int)
    requires
        ray.wf(),
        interval.min <= t <= interval.max,
        point_within(bbox, ray, t),
    ensures
        aabb_hit_s(bbox, ray, interval),
{
    let s0 = slab_init(interval);
    assert(state_admits(s0, t)) by (nonlinear_arith)
        requires
            s0 == (interval.min as int, 1int, interval.max as int, 1int, true),
            interval.min <= t <= interval.max,
    ;
    lemma_slab_axis_admits(s0, ray.origin.x, ray.direction.x, bbox.x.min, bbox.x.max, t);
    let s1 = slab_axis_s(s0, ray.origin.x, ray.direction.x, bbox.x.min, bbox.x.max);
    lemma_slab_axis_admits(s1, ray.origin.y, ray.direction.y, bbox.y.min, bbox.y.max, t);
    let s2 = slab_axis_s(s1, ray.origin.y, ray.direction.y, bbox.y.min, bbox.y.max);
    lemma_slab_axis_admits(s2, ray.origin.z, ray.direction.z, bbox.z.min, bbox.z.max, t);
}

/// The slab test reports a hit whenever the ray's origin lies inside
/// the box and the depth window admits zero: depth zero is a witness.
pub proof fn lemma_hit_from_inside(bbox: AABB, ray: Ray, interval: Interval)
    requires
        ray.wf(),
        interval.min <= 0 <= interval.max,
        bbox.x.min <= ray.origin.x <= bbox.x.max,
        bbox.y.min <= ray.origin.y <= bbox.y.max,
        bbox.z.min <= ray.origin.z <= bbox.z.max,
    ensures
        aabb_hit_s(bbox, ray, interval),
{
    assert(point_within(bbox, ray, 0)) by (nonlinear_arith)
        requires
            bbox.x.min <= ray.origin.x <= bbox.x.max,
            bbox.y.min <= ray.origin.y <= bbox.y.max,
            bbox.z.min <= ray.origin.z <= bbox.z.max,
    ;
    lemma_slab_sound(bbox, ray, interval, 0);
}

/// The empty box is the identity for union.
pub proof fn lemma_aabb_union_identity(a: AABB)
    ensures
        aabb_union(
            AABB {
                x: Interval { min: i64::MAX, max: i64::MIN },
                y: Interval { min: i64::MAX, max: i64::MIN },
                z: Interval { min: i64::MAX, max: i64::MIN },
            },
            a,
        ) == a,
{
}

/// Comparing rationals with positive denominators is transitive.
proof fn lemma_rle_trans(n1: int, p1: int, n2: int, p2: int, n3: int, p3: int)
    requires
        p1 >= 1,
        p2 >= 1,
        p3 >= 1,
        rle(n1, p1, n2, p2),
        rle(n2, p2, n3, p3),
    ensures
        rle(n1, p1, n3, p3),
{
    assert(n1 * p3 <= n3 * p1) by (nonlinear_arith)
        requires
            p1 >= 1,
            p2 >= 1,
            p3 >= 1,
            n1 * p2 <= n2 * p1,
            n2 * p3 <= n3 * p2,
    ;
}

/// An axis step keeps the state's denominators positive.
proof fn lemma_slab_axis_pos(st: (int, int, int, int, bool), o: i64, d: i64, lo: i64, hi: i64)
    requires
        st.1 >= 1,
        st.3 >= 1,
    ensures
        slab_axis_s(st, o, d, lo, hi).1 >= 1,
        slab_axis_s(st, o, d, lo, hi).3 >= 1,
{
}

/// An axis whose slab is empty kills the fold: the step's own range
/// check fails whichever bounds were kept.
proof fn lemma_slab_axis_kills_empty(
    st: (int, int, int, int, bool),
    o: i64,
    d: i64,
    lo: i64,
    hi: i64,
)
    requires
        st.1 >= 1,
        st.3 >= 1,
        lo > hi,
    ensures
        !slab_axis_s(st, o, d, lo, hi).4,
{
    if st.4 && d != 0 {
        let a = ONE * (lo - o);
        let b = ONE * (hi - o);
        let cln = if d > 0 { a } else { -b };
        let clp = if d > 0 { d as int } else { -(d as int) };
        let cun = if d > 0 { b } else { -a };
        let cup = if d > 0 { d as int } else { -(d as int) };
        assert(!rle(cln, clp, cun, cup)) by (nonlinear_arith)
            requires
                cln > cun,
                clp == cup,
                clp >= 1,
        ;
        let s2 = slab_axis_s(st, o, d, lo, hi);
        assert(rle(cln, clp, s2.0, s2.1));
        assert(rle(s2.2, s2.3, cun, cup));
        if rle(s2.0, s2.1, s2.2, s2.3) {
            lemma_rle_trans(cln, clp, s2.0, s2.1, s2.2, s2.3);
            lemma_rle_trans(cln, clp, s2.2, s2.3, cun, cup);
            assert(false);
        }
    }
}

/// A degenerate box — empty on any axis — reports no intersection
/// against any ray over any depth window.
pub proof fn lemma_empty_box_misses(bbox: AABB, ray: Ray, interval: Interval)
    requires
        bbox.x.min > bbox.x.max || bbox.y.min > bbox.y.max || bbox.z.min > bbox.z.max,
    ensures
        !aabb_hit_s(bbox, ray, interval),
{
    let s0 = slab_init(interval);
    let s1 = slab_axis_s(s0, ray.origin.x, ray.direction.x, bbox.x.min, bbox.x.max);
    let s2 = slab_axis_s(s1, ray.origin.y, ray.direction.y, bbox.y.min, bbox.y.max);
    lemma_slab_axis_pos(s0, ray.origin.x, ray.direction.x, bbox.x.min, bbox.x.max);
    lemma_slab_axis_pos(s1, ray.origin.y, ray.direction.y, bbox.y.min, bbox.y.max);
    if bbox.x.min > bbox.x.max {
        lemma_slab_axis_kills_empty(s0, ray.origin.x, ray.direction.x, bbox.x.min, bbox.x.max);
        lemma_slab_axis_dead(s1, ray.origin.y, ray.direction.y, bbox.y.min, bbox.y.max);
        lemma_slab_axis_dead(s2, ray.origin.z, ray.direction.z, bbox.z.min, bbox.z.max);
    } else if bbox.y.min > bbox.y.max {
        lemma_slab_axis_kills_empty(s1, ray.origin.y, ray.direction.y, bbox.y.min, bbox.y.max);
        lemma_slab_axis_dead(s2, ray.origin.z, ray.direction.z, bbox.z.min, bbox.z.max);
    } else {
        lemma_slab_axis_kills_empty(s2, ray.origin.z, ray.direction.z, bbox.z.min, bbox.z.max);
    }
}

/// Exact rational comparison `n1 / p1 <= n2 / p2` by cross
/// multiplication in 128-bit arithmetic.
fn rat_le(n1: i128, p1: i128, n2: i128, p2: i128) -> (r: bool)
    requires
        -SLAB_NUM_BOUND <= n1 <= SLAB_NUM_BOUND,
        -SLAB_NUM_BOUND <= n2 <= SLAB_NUM_BOUND,
        1 <= p1 <= SLAB_DEN_BOUND,
        1 <= p2 <= SLAB_DEN_BOUND,
    ensures
        r == rle(n1 as int, p1 as int, n2 as int, p2 as int),
{
    proof {
        assert(-(SLAB_NUM_BOUND * SLAB_DEN_BOUND) <= n1 * p2 <= SLAB_NUM_BOUND * SLAB_DEN_BOUND
            && -(SLAB_NUM_BOUND * SLAB_DEN_BOUND) <= n2 * p1 <= SLAB_NUM_BOUND
            * SLAB_DEN_BOUND) by (nonlinear_arith)
            requires
                -SLAB_NUM_BOUND <= n1 <= SLAB_NUM_BOUND,
                -SLAB_NUM_BOUND <= n2 <= SLAB_NUM_BOUND,
                1 <= p1 <= SLAB_DEN_BOUND,
                1 <= p2 <= SLAB_DEN_BOUND,
        ;
    }
    n1 * p2 <= n2 * p1
}

/// One executable axis step of the slab fold, mirroring `slab_axis_s`.
#[verifier::rlimit(30)]
fn slab_axis(
    st: (i128, i128, i128, i128, bool),
    o: i64,
    d: i64,
    lo: i64,
    hi: i64,
) -> (r: (i128, i128, i128, i128, bool))
    requires
        -SLAB_NUM_BOUND <= st.0 <= SLAB_NUM_BOUND,
        -SLAB_NUM_BOUND <= st.2 <= SLAB_NUM_BOUND,
        1 <= st.1 <= SLAB_DEN_BOUND,
        1 <= st.3 <= SLAB_DEN_BOUND,
        -0x80000000 < (d as int),
        (d as int) < 0x80000000,
    ensures
        ({
            let sp = slab_axis_s((st.0 as int, st.1 as int, st.2 as int, st.3 as int, st.4), o, d, lo, hi);
            r.0 as int == sp.0 && r.1 as int == sp.1 && r.2 as int == sp.2 && r.3 as int == sp.3
                && r.4 == sp.4
        }),
        -SLAB_NUM_BOUND <= r.0 <= SLAB_NUM_BOUND,
        -SLAB_NUM_BOUND <= r.2 <= SLAB_NUM_BOUND,
        1 <= r.1 <= SLAB_DEN_BOUND,
        1 <= r.3 <= SLAB_DEN_BOUND,
{
    let a: i128 = (lo as i128 - o as i128) * 65536i128;
    let b: i128 = (hi as i128 - o as i128) * 65536i128;
    if !st.4 {
        st
    } else if d == 0 {
        if a <= 0 && 0 <= b {
            st
        } else {
            (st.0, st.1, st.2, st.3, false)
        }
    } else {
        let cln: i128 = if d > 0 { a } else { -b };
        let clp: i128 = if d > 0 { d as i128 } else { -(d as i128) };
        let cun: i128 = if d > 0 { b } else { -a };
        let cup: i128 = if d > 0 { d as i128 } else { -(d as i128) };
        let keep_lower: bool = rat_le(cln, clp, st.0, st.1);
        let ln2: i128 = if keep_lower { st.0 } else { cln };
        let lp2: i128 = if keep_lower { st.1 } else { clp };
        let keep_upper: bool = rat_le(st.2, st.3, cun, cup);
        let un2: i128 = if keep_upper { st.2 } else { cun };
        let up2: i128 = if keep_upper { st.3 } else { cup };
        let alive: bool = rat_le(ln2, lp2, un2, up2);
        (ln2, lp2, un2, up2, alive)
    }
}

/// Exact check of one axis constraint at integer depth `t`.
fn axis_ok_check(o: i64, d: i64, lo: i64, hi: i64, t: i64) -> (r: bool)
    requires
        -0x80000000 < (d as int),
        (d as int) < 0x80000000,
    ensures
        r == axis_ok(o, d, lo, hi, t as int),
{
    proof {
        assert(-0x80000000000000000000000000i128 <= (t as i128) * (d as i128)
            <= 0x80000000000000000000000000i128) by (nonlinear_arith)
            requires
                -0x8000000000000000i128 <= t as i128 <= 0x8000000000000000i128,
                -0x80000000i128 <= d as i128 <= 0x80000000i128,
        ;
    }
    let td: i128 = (t as i128) * (d as i128);
    let a: i128 = (lo as i128 - o as i128) * 65536i128;
    let b: i128 = (hi as i128 - o as i128) * 65536i128;
    a <= td && td <= b
}

/// Exact check that the ray's point at integer depth `t` lies inside
/// the box.
pub fn point_within_check(bbox: &AABB, ray: &Ray, t: i64) -> (r: bool)
    requires
        ray.wf(),
    ensures
        r == point_within(*bbox, *ray, t as int),
{
    axis_ok_check(ray.origin.x, ray.direction.x, bbox.x.min, bbox.x.max, t)
        && axis_ok_check(ray.origin.y, ray.direction.y, bbox.y.min, bbox.y.max, t)
        && axis_ok_check(ray.origin.z, ray.direction.z, bbox.z.min, bbox.z.max, t)
}

impl AABB {
    /// The empty box: the identity for union.
    pub fn default() -> (r: Self)
        ensures
            r.x == (Interval { min: i64::MAX, max: i64::MIN }),
            r.y == (Interval { min: i64::MAX, max: i64::MIN }),
            r.z == (Interval { min: i64::MAX, max: i64::MIN }),
    {
        AABB { x: Interval::empty(), y: Interval::empty(), z: Interval::empty() }
    }

    /// A box from three extent intervals.
    pub fn new(x: Interval, y: Interval, z: Interval) -> (r: Self)
        ensures
            r == (AABB { x, y, z }),
    {
        AABB { x, y, z }
    }

    /// The smallest box holding two corner points, in either order.
    pub fn from_vector_bounds(extrema1: &crate::vector::Point3D, extrema2: &crate::vector::Point3D) -> (r: Self)
        ensures
            r.x.min == crate::fixed::fx_min_i(extrema1.x, extrema2.x),
            r.x.max == crate::fixed::fx_max_i(extrema1.x, extrema2.x),
            r.y.min == crate::fixed::fx_min_i(extrema1.y, extrema2.y),
            r.y.max == crate::fixed::fx_max_i(extrema1.y, extrema2.y),
            r.z.min == crate::fixed::fx_min_i(extrema1.z, extrema2.z),
            r.z.max == crate::fixed::fx_max_i(extrema1.z, extrema2.z),
    {
        AABB {
            x: Interval { min: fx_min(extrema1.x, extrema2.x), max: fx_max(extrema1.x, extrema2.x) },
            y: Interval { min: fx_min(extrema1.y, extrema2.y), max: fx_max(extrema1.y, extrema2.y) },
            z: Interval { min: fx_min(extrema1.z, extrema2.z), max: fx_max(extrema1.z, extrema2.z) },
        }
    }

    /// The union of two boxes.
    pub fn from_aabb_bounds(box1: &Self, box2: &Self) -> (r: Self)
        ensures
            r == aabb_union(*box1, *box2),
    {
        AABB {
            x: Interval::from_interval_bounds(&box1.x, &box2.x),
            y: Interval::from_interval_bounds(&box1.y, &box2.y),
            z: Interval::from_interval_bounds(&box1.z, &box2.z),
        }
    }

    /// The extent on the given axis; only the three axes exist.
    pub fn axis(&self, index: usize) -> (r: Interval)
        requires
            index < 3,
        ensures
            r == if index == 0 {
                self.x
            } else if index == 1 {
                self.y
            } else {
                self.z
            },
    {
        if index == 0 {
            self.x
        } else if index == 1 {
            self.y
        } else {
            self.z
        }
    }

    /// The exact slab test over the caller's depth window.
    pub fn hit(&self, ray: &Ray, interval: &Interval) -> (r: bool)
        requires
            ray.wf(),
        ensures
            r == aabb_hit_s(*self, *ray, *interval),
    {
        let s0: (i128, i128, i128, i128, bool) =
            (interval.min as i128, 1, interval.max as i128, 1, interval.min <= interval.max);
        let s1 = slab_axis(s0, ray.origin.x, ray.direction.x, self.x.min, self.x.max);
        let s2 = slab_axis(s1, ray.origin.y, ray.direction.y, self.y.min, self.y.max);
        let s3 = slab_axis(s2, ray.origin.z, ray.direction.z, self.z.min, self.z.max);
        s3.4
    }
}

} // verus!
