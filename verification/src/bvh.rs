//! Bounding-volume hierarchy: a binary tree over hittable shapes,
//! built once from the full object set and read-only afterwards.
//!
//! A node's box is the union of its children's boxes, so the exact
//! slab test can prune whole subtrees without ever losing a hit.

use vstd::prelude::*;
use vstd::pervasive::VecAdditionalExecFns;

use crate::aabb::{aabb_union, AABB};
use crate::hittable::{HitRecord, Hittable, HittableList};
use crate::interval::Interval;
use crate::ray::Ray;
use crate::rng::random_axis;
use crate::sphere::Sphere;

verus! {

broadcast use vstd::seq_lib::group_to_multiset_ensures;

/// The comparator key: the low bound of the sphere's box on the given
/// axis.
pub open spec fn axis_key(s: Sphere, axis: usize) -> i64 {
    if axis == 0 {
        s.bounding_box.x.min
    } else if axis == 1 {
        s.bounding_box.y.min
    } else {
        s.bounding_box.z.min
    }
}

/// Nondecreasing by the axis key.
pub open spec fn sorted_by_axis(objs: Seq<Sphere>, axis: usize) -> bool {
    forall|i: int, j: int|
        0 <= i <= j < objs.len() ==> axis_key(#[trigger] objs[i], axis) <= axis_key(
            #[trigger] objs[j],
            axis,
        )
}

/// The key, executably.
fn key_of(s: &Sphere, axis: usize) -> (r: i64)
    requires
        axis < 3,
    ensures
        r == axis_key(*s, axis),
{
    s.bounding_box.axis(axis).min
}

/// A copy of a sphere vector.
fn clone_spheres(v: &Vec<Sphere>) -> (r: Vec<Sphere>)
    ensures
        r@ =~= v@,
{
    let mut r: Vec<Sphere> = Vec::new();
    let mut k: usize = 0;
    while k < v.len()
        invariant
            k <= v.len(),
            r@ =~= v@.subrange(0, k as int),
        decreases v.len() - k,
    {
        r.push(v[k]);
        proof {
            assert(r@ =~= v@.subrange(0, k + 1));
        }
        k = k + 1;
    }
    proof {
        assert(v@.subrange(0, v@.len() as int) =~= v@);
    }
    r
}

/// The index of a sphere with the smallest key.
fn min_key_index(v: &Vec<Sphere>, axis: usize) -> (m: usize)
    requires
        axis < 3,
        v.len() > 0,
    ensures
        m < v.len(),
        forall|k: int| 0 <= k < v@.len() ==> axis_key(v@[m as int], axis) <= axis_key(
            #[trigger] v@[k],
            axis,
        ),
{
    let mut m: usize = 0;
    let mut j: usize = 1;
    while j < v.len()
        invariant
            axis < 3,
            v.len() > 0,
            m < j,
            j <= v.len(),
            forall|k: int| 0 <= k < j ==> axis_key(v@[m as int], axis) <= axis_key(
                #[trigger] v@[k],
                axis,
            ),
        decreases v.len() - j,
    {
        if key_of(&v[j], axis) < key_of(&v[m], axis) {
            m = j;
        }
        j = j + 1;
    }
    m
}

/// Sort spheres by key: repeatedly move a smallest remaining sphere
/// over. The result is a permutation of the input, nondecreasing by
/// the key.
fn sort_spheres(v: Vec<Sphere>, axis: usize) -> (r: Vec<Sphere>)
    requires
        axis < 3,
    ensures
        r@.to_multiset() =~= v@.to_multiset(),
        r@.len() == v@.len(),
        sorted_by_axis(r@, axis),
{
    let ghost orig: Seq<Sphere> = v@;
    let mut work = v;
    let mut out: Vec<Sphere> = Vec::new();
    while work.len() > 0
        invariant
            axis < 3,
            out@.to_multiset().add(work@.to_multiset()) =~= orig.to_multiset(),
            out@.len() + work@.len() == orig.len(),
            sorted_by_axis(out@, axis),
            forall|i: int, k: int|
                0 <= i < out@.len() && 0 <= k < work@.len() ==> axis_key(#[trigger] out@[i], axis)
                    <= axis_key(#[trigger] work@[k], axis),
        decreases work.len(),
    {
        let ghost out0 = out@;
        let ghost work0 = work@;
        let m = min_key_index(&work, axis);
        let s = work.remove(m);
        out.push(s);
        proof {
            assert(work@ =~= work0.remove(m as int));
            assert(out@ =~= out0.push(s));
            assert(out@.to_multiset().add(work@.to_multiset()) =~= orig.to_multiset()) by {
                assert(out@.to_multiset() =~= out0.to_multiset().insert(s));
                assert(work@.to_multiset() =~= work0.to_multiset().remove(s));
                assert(work0.contains(s));
                assert(work0.to_multiset().count(s) > 0);
                assert(out@.to_multiset().add(work@.to_multiset()) =~= out0.to_multiset().add(
                    work0.to_multiset(),
                ));
            }
            assert(sorted_by_axis(out@, axis)) by {
                assert(forall|i: int|
                    0 <= i < out0.len() ==> axis_key(#[trigger] out@[i], axis) <= axis_key(
                        s,
                        axis,
                    ));
            }
            assert forall|i: int, k: int|
                0 <= i < out@.len() && 0 <= k < work@.len() implies axis_key(
                #[trigger] out@[i],
                axis,
            ) <= axis_key(#[trigger] work@[k], axis) by {
                assert(work@[k] == if k < m { work0[k] } else { work0[k + 1] });
                assert(axis_key(s, axis) <= axis_key(work@[k], axis));
            }
        }
    }
    out
}

/// Sort the subrange `[start, end)` in place; everything outside it is
/// untouched and the subrange keeps its members.
fn sort_subrange(v: &mut Vec<Sphere>, start: usize, end: usize, axis: usize)
    requires
        axis < 3,
        start <= end,
        end <= old(v).len(),
    ensures
        final(v)@.len() == old(v)@.len(),
        final(v)@.subrange(0, start as int) =~= old(v)@.subrange(0, start as int),
        final(v)@.subrange(end as int, old(v)@.len() as int) =~= old(v)@.subrange(
            end as int,
            old(v)@.len() as int,
        ),
        final(v)@.subrange(start as int, end as int).to_multiset() =~= old(v)@.subrange(
            start as int,
            end as int,
        ).to_multiset(),
        sorted_by_axis(final(v)@.subrange(start as int, end as int), axis),
{
    let mut work: Vec<Sphere> = Vec::new();
    let mut k: usize = start;
    while k < end
        invariant
            start <= k <= end,
            end <= v.len(),
            v@ == old(v)@,
            work@ =~= v@.subrange(start as int, k as int),
        decreases end - k,
    {
        work.push(v[k]);
        proof {
            assert(work@ =~= v@.subrange(start as int, k + 1));
        }
        k = k + 1;
    }
    let sorted = sort_spheres(work, axis);
    let mut k2: usize = 0;
    while k2 < sorted.len()
        invariant
            k2 <= sorted.len(),
            sorted.len() == end - start,
            end <= v@.len(),
            v@.len() == old(v)@.len(),
            start <= end,
            forall|i: int| 0 <= i < start ==> v@[i] == old(v)@[i],
            forall|i: int| end <= i < v@.len() ==> v@[i] == old(v)@[i],
            forall|i: int| 0 <= i < k2 ==> v@[start + i] == #[trigger] sorted@[i],
            forall|i: int| k2 <= i < sorted@.len() ==> #[trigger] v@[start + i] == old(v)@[start + i],
        decreases sorted.len() - k2,
    {
        v.set(start + k2, sorted[k2]);
        k2 = k2 + 1;
    }
    proof {
        assert(v@.subrange(0, start as int) =~= old(v)@.subrange(0, start as int));
        assert(v@.subrange(end as int, old(v)@.len() as int) =~= old(v)@.subrange(
            end as int,
            old(v)@.len() as int,
        ));
        assert(v@.subrange(start as int, end as int) =~= sorted@);
    }
}

/// One node of the hierarchy: two child shapes and their joint box.
pub struct BVHNode {
    /// The left child.
    pub left: Box<Hittable>,
    /// The right child.
    pub right: Box<Hittable>,
    /// The union of the children's boxes.
    pub bounding_box: AABB,
}

/// Membership in a concatenation is membership in either part.
proof fn lemma_concat_contains(a: Seq<Sphere>, b: Seq<Sphere>, x: Sphere)
    ensures
        (a + b).contains(x) <==> a.contains(x) || b.contains(x),
{
    if (a + b).contains(x) {
        let i = choose|i: int| 0 <= i < (a + b).len() && (a + b)[i] == x;
        if i < a.len() {
            assert(a[i] == x);
        } else {
            assert(b[i - a.len()] == x);
        }
    }
    if a.contains(x) {
        let i = choose|i: int| 0 <= i < a.len() && a[i] == x;
        assert((a + b)[i] == x);
    }
    if b.contains(x) {
        let i = choose|i: int| 0 <= i < b.len() && b[i] == x;
        assert((a + b)[a.len() + i] == x);
    }
}

/// A subrange splits into two adjacent subranges.
proof fn lemma_subrange_split(s: Seq<Sphere>, a: int, b: int, c: int)
    requires
        0 <= a <= b <= c <= s.len(),
    ensures
        s.subrange(a, c) =~= s.subrange(a, b) + s.subrange(b, c),
{
}

/// Sequences with equal multisets hold the same members.
proof fn lemma_multiset_eq_contains(a: Seq<Sphere>, b: Seq<Sphere>, x: Sphere)
    requires
        a.to_multiset() =~= b.to_multiset(),
    ensures
        a.contains(x) <==> b.contains(x),
{
    assert(a.contains(x) <==> a.to_multiset().count(x) > 0);
    assert(b.contains(x) <==> b.to_multiset().count(x) > 0);
}

impl BVHNode {
    /// Build a node over `objects[start..end)`: pick a random split
    /// axis, order the span by the per-axis box-minimum comparator,
    /// split at the midpoint and recurse; a span of one aliases the
    /// single object into both children. The built tree is
    /// well-formed and holds exactly the spheres of the span.
    pub fn new(objects: &Vec<Sphere>, start: usize, end: usize) -> (r: BVHNode)
        requires
            start < end,
            end <= objects.len(),
        ensures
            Hittable::Node(r).wf(),
            forall|s: Sphere|
                Hittable::Node(r).spheres_of().contains(s) <==> objects@.subrange(
                    start as int,
                    end as int,
                ).contains(s),
        decreases end - start,
    {
        let mut mut_objects = clone_spheres(objects);
        let axis = random_axis();
        let object_span = end - start;

        if object_span == 1 {
            let s = mut_objects[start];
            let bounding_box = AABB::from_aabb_bounds(&s.bounding_box, &s.bounding_box);
            let node = BVHNode {
                left: Box::new(Hittable::Sphere(s)),
                right: Box::new(Hittable::Sphere(s)),
                bounding_box,
            };
            proof {
                crate::aabb::lemma_aabb_union_contains(s.bounding_box, s.bounding_box);
                assert(*node.left == Hittable::Sphere(s));
                assert(*node.right == Hittable::Sphere(s));
                assert(Hittable::Sphere(s).spheres_of() =~= seq![s]);
                assert(Hittable::Sphere(s).wf());
                assert(Hittable::Sphere(s).bbox_of() == s.bounding_box);
                let sp = Hittable::Node(node).spheres_of();
                let sub = objects@.subrange(start as int, end as int);
                assert(sp =~= seq![s] + seq![s]);
                assert(sub.len() == 1 && sub[0] == s);
                assert forall|x: Sphere| sp.contains(x) <==> sub.contains(x) by {
                    lemma_concat_contains(seq![s], seq![s], x);
                    if sp.contains(x) {
                        assert(x == s);
                        assert(sub[0] == x);
                    }
                    if sub.contains(x) {
                        assert(x == s);
                        assert(seq![s][0] == x);
                    }
                }
            }
            node
        } else if object_span == 2 {
            let a0 = mut_objects[start];
            let b0 = mut_objects[start + 1];
            let less = key_of(&a0, axis) < key_of(&b0, axis);
            let first = if less {
                a0
            } else {
                b0
            };
            let second = if less {
                b0
            } else {
                a0
            };
            let bounding_box = AABB::from_aabb_bounds(&first.bounding_box, &second.bounding_box);
            let node = BVHNode {
                left: Box::new(Hittable::Sphere(first)),
                right: Box::new(Hittable::Sphere(second)),
                bounding_box,
            };
            proof {
                crate::aabb::lemma_aabb_union_contains(first.bounding_box, second.bounding_box);
                assert(*node.left == Hittable::Sphere(first));
                assert(*node.right == Hittable::Sphere(second));
                assert(Hittable::Sphere(first).spheres_of() =~= seq![first]);
                assert(Hittable::Sphere(second).spheres_of() =~= seq![second]);
                assert(Hittable::Sphere(first).wf() && Hittable::Sphere(second).wf());
                let sp = Hittable::Node(node).spheres_of();
                let sub = objects@.subrange(start as int, end as int);
                assert(sp =~= seq![first] + seq![second]);
                assert(sub.len() == 2 && sub[0] == a0 && sub[1] == b0);
                assert forall|x: Sphere| sp.contains(x) <==> sub.contains(x) by {
                    lemma_concat_contains(seq![first], seq![second], x);
                    if sp.contains(x) {
                        assert(x == first || x == second);
                        assert(sub[0] == x || sub[1] == x);
                    }
                    if sub.contains(x) {
                        assert(x == a0 || x == b0);
                        assert(seq![first][0] == x || seq![second][0] == x);
                    }
                }
            }
            node
        } else {
            let ghost before_sort = mut_objects@;
            sort_subrange(&mut mut_objects, start, end, axis);
            let middle = start + object_span / 2;
            let left_node = BVHNode::new(&mut_objects, start, middle);
            let right_node = BVHNode::new(&mut_objects, middle, end);
            let bounding_box = AABB::from_aabb_bounds(
                &left_node.bounding_box,
                &right_node.bounding_box,
            );
            let ghost left_sp = Hittable::Node(left_node).spheres_of();
            let ghost right_sp = Hittable::Node(right_node).spheres_of();
            let node = BVHNode {
                left: Box::new(Hittable::Node(left_node)),
                right: Box::new(Hittable::Node(right_node)),
                bounding_box,
            };
            proof {
                crate::aabb::lemma_aabb_union_contains(
                    left_node.bounding_box,
                    right_node.bounding_box,
                );
                assert(*node.left == Hittable::Node(left_node));
                assert(*node.right == Hittable::Node(right_node));
                assert(Hittable::Node(left_node).spheres_of() == left_sp);
                assert(Hittable::Node(right_node).spheres_of() == right_sp);
                assert(Hittable::Node(left_node).bbox_of() == left_node.bounding_box);
                assert(Hittable::Node(right_node).bbox_of() == right_node.bounding_box);
                let sp = Hittable::Node(node).spheres_of();
                let sorted = mut_objects@;
                let sub = objects@.subrange(start as int, end as int);
                assert(sp =~= left_sp + right_sp);
                lemma_subrange_split(sorted, start as int, middle as int, end as int);
                assert forall|x: Sphere| sp.contains(x) <==> sub.contains(x) by {
                    lemma_concat_contains(left_sp, right_sp, x);
                    lemma_concat_contains(
                        sorted.subrange(start as int, middle as int),
                        sorted.subrange(middle as int, end as int),
                        x,
                    );
                    lemma_multiset_eq_contains(
                        sorted.subrange(start as int, end as int),
                        before_sort.subrange(start as int, end as int),
                        x,
                    );
                    assert(before_sort.subrange(start as int, end as int) =~= sub);
                }
            }
            node
        }
    }

    /// A tree over every object of a list.
    pub fn from_hittable_list(list: &HittableList) -> (r: BVHNode)
        requires
            list.objects.len() > 0,
        ensures
            Hittable::Node(r).wf(),
            forall|s: Sphere|
                Hittable::Node(r).spheres_of().contains(s) <==> list.objects@.contains(s),
    {
        let r = BVHNode::new(&list.objects, 0, list.objects.len());
        proof {
            assert(list.objects@.subrange(0, list.objects@.len() as int) =~= list.objects@);
        }
        r
    }

    /// Prune by the box, then search the left child first and the
    /// right child only below the left hit's depth, so the right
    /// subtree can only report a strictly closer hit.
    pub fn hit(&self, ray: &Ray, interval: &Interval) -> (r: Option<HitRecord>)
        requires
            ray.wf(),
        ensures
            r == Hittable::Node(*self).hit_s(*ray, *interval),
        decreases *self,
    {
        if !self.bounding_box.hit(ray, interval) {
            return None;
        }

        let hit_left = (&*self.left).hit(ray, interval);
        let right_max: i64 = match &hit_left {
            Some(rec) => rec.depth,
            None => interval.max,
        };
        let hit_right = (&*self.right).hit(ray, &Interval { min: interval.min, max: right_max });

        match hit_right {
            Some(rec) => Some(rec),
            None => hit_left,
        }
    }

    /// The cached bounding box.
    pub fn bounding_box(&self) -> (r: AABB)
        ensures
            r == self.bounding_box,
    {
        self.bounding_box
    }
}

/// Reproducibility: a constructed tree is never mutated, and the hit
/// operation's contract pins its result to a function of the tree, the
/// ray and the depth window alone — so any two traversals of the same
/// tree with the same ray and window return the same result.
pub proof fn lemma_hit_reproducible(
    h: Hittable,
    ray: Ray,
    interval: Interval,
    r1: Option<HitRecord>,
    r2: Option<HitRecord>,
)
    requires
        r1 == h.hit_s(ray, interval),
        r2 == h.hit_s(ray, interval),
    ensures
        r1 == r2,
{
}

/// Hierarchy correctness: over any set of spheres and any ray, the
/// tree's hit and a brute-force linear scan of the same spheres agree
/// exactly — both miss, or both report a hit at the same depth.
pub proof fn lemma_bvh_matches_linear_scan(
    node: BVHNode,
    list: HittableList,
    ray: Ray,
    interval: Interval,
)
    requires
        Hittable::Node(node).wf(),
        ray.wf(),
        forall|s: Sphere|
            Hittable::Node(node).spheres_of().contains(s) <==> list.objects@.contains(s),
    ensures
        ({
            let a = Hittable::Node(node).hit_s(ray, interval);
            let b = crate::hittable::scan_spheres(list.objects@, ray, interval.min, interval.max);
            match (a, b) {
                (None, None) => true,
                (Some(ra), Some(rb)) => ra.depth == rb.depth,
                _ => false,
            }
        }),
{
    let h = Hittable::Node(node);
    crate::hittable::lemma_tree_hit_is_min(h, ray, interval);
    crate::hittable::lemma_scan_is_min(list.objects@, ray, interval.min, interval.max, 0);
    let a = h.hit_s(ray, interval);
    let b = crate::hittable::scan_spheres(list.objects@, ray, interval.min, interval.max);
    let sp = h.spheres_of();
    let objs = list.objects@;
    assert(Interval { min: interval.min, max: interval.max } == interval);
    match (a, b) {
        (None, None) => {},
        (Some(ra), Some(rb)) => {
            let ka = choose|k: int|
                0 <= k < sp.len() && #[trigger] crate::sphere::sphere_candidate(
                    sp[k],
                    ray,
                    interval,
                ) == Some(ra.depth) && ra == crate::sphere::sphere_record(sp[k], ray, ra.depth);
            assert(sp.contains(sp[ka]));
            assert(objs.contains(sp[ka]));
            let ja = choose|j: int| 0 <= j < objs.len() && objs[j] == sp[ka];
            assert(crate::sphere::sphere_candidate(objs[ja], ray, interval) == Some(ra.depth));
            assert(rb.depth <= ra.depth);
            let kb = choose|k: int|
                0 <= k < objs.len() && #[trigger] crate::sphere::sphere_candidate(
                    objs[k],
                    ray,
                    interval,
                ) == Some(rb.depth) && rb == crate::sphere::sphere_record(objs[k], ray, rb.depth);
            assert(objs.contains(objs[kb]));
            assert(sp.contains(objs[kb]));
            let jb = choose|j: int| 0 <= j < sp.len() && sp[j] == objs[kb];
            assert(crate::sphere::sphere_candidate(sp[jb], ray, interval) == Some(rb.depth));
            assert(ra.depth <= rb.depth);
        },
        (Some(ra), None) => {
            let ka = choose|k: int|
                0 <= k < sp.len() && #[trigger] crate::sphere::sphere_candidate(
                    sp[k],
                    ray,
                    interval,
                ) == Some(ra.depth) && ra == crate::sphere::sphere_record(sp[k], ray, ra.depth);
            assert(sp.contains(sp[ka]));
            assert(objs.contains(sp[ka]));
            let ja = choose|j: int| 0 <= j < objs.len() && objs[j] == sp[ka];
            assert(crate::sphere::sphere_candidate(objs[ja], ray, interval) == Some(ra.depth));
            assert(false);
        },
        (None, Some(rb)) => {
            let kb = choose|k: int|
                0 <= k < objs.len() && #[trigger] crate::sphere::sphere_candidate(
                    objs[k],
                    ray,
                    interval,
                ) == Some(rb.depth) && rb == crate::sphere::sphere_record(objs[k], ray, rb.depth);
            assert(objs.contains(objs[kb]));
            assert(sp.contains(objs[kb]));
            let jb = choose|j: int| 0 <= j < sp.len() && sp[j] == objs[kb];
            assert(crate::sphere::sphere_candidate(sp[jb], ray, interval) == Some(rb.depth));
            assert(false);
        },
    }
}

/// The sharper form: when no two spheres of the set produce distinct
/// records at the same accepted depth, the tree's hit and the linear
/// scan return the very same record (same point, depth and material).
pub proof fn lemma_bvh_matches_linear_scan_unique(
    node: BVHNode,
    list: HittableList,
    ray: Ray,
    interval: Interval,
)
    requires
        Hittable::Node(node).wf(),
        ray.wf(),
        forall|s: Sphere|
            Hittable::Node(node).spheres_of().contains(s) <==> list.objects@.contains(s),
        forall|x: Sphere, y: Sphere|
            list.objects@.contains(x) && list.objects@.contains(y) ==> (match (
            #[trigger] crate::sphere::sphere_candidate(x, ray, interval),
            #[trigger] crate::sphere::sphere_candidate(y, ray, interval),
            ) {
                (Some(t1), Some(t2)) => t1 != t2 || crate::sphere::sphere_record(x, ray, t1)
                    == crate::sphere::sphere_record(y, ray, t2),
                _ => true,
            }),
    ensures
        Hittable::Node(node).hit_s(ray, interval) == crate::hittable::scan_spheres(
            list.objects@,
            ray,
            interval.min,
            interval.max,
        ),
{
    lemma_bvh_matches_linear_scan(node, list, ray, interval);
    let h = Hittable::Node(node);
    crate::hittable::lemma_tree_hit_is_min(h, ray, interval);
    crate::hittable::lemma_scan_is_min(list.objects@, ray, interval.min, interval.max, 0);
    let a = h.hit_s(ray, interval);
    let b = crate::hittable::scan_spheres(list.objects@, ray, interval.min, interval.max);
    let sp = h.spheres_of();
    let objs = list.objects@;
    assert(Interval { min: interval.min, max: interval.max } == interval);
    match (a, b) {
        (Some(ra), Some(rb)) => {
            let ka = choose|k: int|
                0 <= k < sp.len() && #[trigger] crate::sphere::sphere_candidate(
                    sp[k],
                    ray,
                    interval,
                ) == Some(ra.depth) && ra == crate::sphere::sphere_record(sp[k], ray, ra.depth);
            let kb = choose|k: int|
                0 <= k < objs.len() && #[trigger] crate::sphere::sphere_candidate(
                    objs[k],
                    ray,
                    interval,
                ) == Some(rb.depth) && rb == crate::sphere::sphere_record(objs[k], ray, rb.depth);
            assert(sp.contains(sp[ka]));
            assert(objs.contains(sp[ka]));
            assert(objs.contains(objs[kb]));
            assert(ra.depth == rb.depth);
            assert(ra == rb);
        },
        _ => {},
    }
}

} // verus!
