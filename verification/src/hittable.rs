//! The hittable abstraction: hit records, the closed family of
//! hittable shapes, and the linear-scan aggregate.
//!
//! Shapes form a closed sum type — a sphere, a list of spheres, or a
//! bounding-volume-hierarchy node — each exposing a bounding box and a
//! hit operation over a depth window. Materials are referred to by
//! arena handle, so records stay plain data.

use vstd::prelude::*;

use crate::aabb::{aabb_hit_s, aabb_union, box_contains, AABB};
use crate::bvh::BVHNode;
use crate::interval::Interval;
use crate::ray::Ray;
use crate::sphere::{sphere_candidate, sphere_hit_s, sphere_record, Sphere};
use crate::vector::{v3_dot, v3_neg, Point3D, Vector3D};

verus! {

/// The result of a successful ray-object intersection.
#[derive(Debug, Clone, Copy, PartialEq, Eq)]
pub struct HitRecord {
    /// The point hit.
    pub point: Point3D,
    /// The unit-scale normal at the point, flipped to oppose the ray.
    pub normal: Vector3D,
    /// Handle into the scene's material arena, if any.
    pub material: Option<usize>,
    /// The ray parameter of the hit.
    pub depth: i64,
    /// Whether the outward normal already opposed the ray.
    pub front_face: bool,
}

impl HitRecord {
    /// An empty record.
    pub fn default() -> (r: Self)
        ensures
            r == (HitRecord {
                point: Point3D { x: 0, y: 0, z: 0 },
                normal: Vector3D { x: 0, y: 0, z: 0 },
                material: None::<usize>,
                depth: 0,
                front_face: false,
            }),
    {
        HitRecord {
            point: Point3D { x: 0, y: 0, z: 0 },
            normal: Vector3D { x: 0, y: 0, z: 0 },
            material: None,
            depth: 0,
            front_face: false,
        }
    }

    /// A record from its parts.
    pub fn new(
        point: Point3D,
        normal: Vector3D,
        material: Option<usize>,
        depth: i64,
        front_face: bool,
    ) -> (r: Self)
        ensures
            r == (HitRecord { point, normal, material, depth, front_face }),
    {
        HitRecord { point, normal, material, depth, front_face }
    }

    /// Resolve the facing flag and flip the normal against the ray:
    /// afterwards the stored normal opposes `ray.direction` whenever
    /// the dot products do not saturate.
    pub fn set_face_normal(&mut self, ray: &Ray, outward_normal: &Vector3D)
        ensures
            final(self).front_face == (v3_dot(ray.direction, *outward_normal) < 0),
            final(self).normal == if v3_dot(ray.direction, *outward_normal) < 0 {
                *outward_normal
            } else {
                v3_neg(*outward_normal)
            },
            final(self).point == old(self).point,
            final(self).material == old(self).material,
            final(self).depth == old(self).depth,
    {
        self.front_face = Vector3D::dot(&ray.direction(), outward_normal) < 0;
        self.normal = if self.front_face {
            *outward_normal
        } else {
            outward_normal.negated()
        };
    }
}

/// A hittable shape: the closed family the scene is made of.
pub enum Hittable {
    /// A single sphere primitive.
    Sphere(Sphere),
    /// A list of spheres, scanned linearly.
    List(HittableList),
    /// A bounding-volume-hierarchy node over two child shapes.
    Node(BVHNode),
}

/// An aggregate of spheres with a cached bounding box.
pub struct HittableList {
    /// The spheres, in insertion order.
    pub objects: Vec<Sphere>,
    /// The union of the objects' boxes.
    pub bounding_box: AABB,
}

/// The linear scan from index `i` on: try the object at `i` over the
/// window, then the rest over a window narrowed to the hit's depth, so
/// a later object can only replace the best by being strictly closer.
pub open spec fn scan_from(objs: Seq<Sphere>, ray: Ray, lo: i64, hi: i64, i: int) -> Option<
    HitRecord,
>
    decreases objs.len() - i,
{
    if i < 0 || i >= objs.len() {
        None
    } else {
        match sphere_hit_s(objs[i], ray, Interval { min: lo, max: hi }) {
            Some(rec) => match scan_from(objs, ray, lo, rec.depth, i + 1) {
                Some(rec2) => Some(rec2),
                None => Some(rec),
            },
            None => scan_from(objs, ray, lo, hi, i + 1),
        }
    }
}

/// The nearest hit of a linear scan of the whole sequence.
pub open spec fn scan_spheres(objs: Seq<Sphere>, ray: Ray, lo: i64, hi: i64) -> Option<HitRecord> {
    scan_from(objs, ray, lo, hi, 0)
}

/// The closest-hit characterization over the indices `i..` of `objs`:
/// a `None` means no sphere there has an accepted root in the window;
/// a `Some` carries the record of a sphere with an accepted root of
/// minimal depth.
pub open spec fn is_min_hit_from(
    result: Option<HitRecord>,
    objs: Seq<Sphere>,
    ray: Ray,
    lo: i64,
    hi: i64,
    i: int,
) -> bool {
    match result {
        None => forall|k: int|
            i <= k < objs.len() ==> #[trigger] sphere_candidate(
                objs[k],
                ray,
                Interval { min: lo, max: hi },
            ) == None::<i64>,
        Some(rec) => {
            &&& lo < rec.depth < hi
            &&& exists|k: int|
                i <= k < objs.len() && #[trigger] sphere_candidate(
                    objs[k],
                    ray,
                    Interval { min: lo, max: hi },
                ) == Some(rec.depth) && rec == sphere_record(objs[k], ray, rec.depth)
            &&& forall|k: int|
                i <= k < objs.len() ==> (match #[trigger] sphere_candidate(
                    objs[k],
                    ray,
                    Interval { min: lo, max: hi },
                ) {
                    Some(t) => rec.depth <= t,
                    None => true,
                })
        },
    }
}

/// The closest-hit characterization over a whole sphere sequence.
pub open spec fn is_min_hit(
    result: Option<HitRecord>,
    objs: Seq<Sphere>,
    ray: Ray,
    lo: i64,
    hi: i64,
) -> bool {
    is_min_hit_from(result, objs, ray, lo, hi, 0)
}

/// The linear scan returns the closest accepted hit of its suffix.
#[verifier::spinoff_prover]
#[verifier::rlimit(100)]
pub proof fn lemma_scan_is_min(objs: Seq<Sphere>, ray: Ray, lo: i64, hi: i64, i: int)
    requires
        0 <= i <= objs.len(),
    ensures
        is_min_hit_from(scan_from(objs, ray, lo, hi, i), objs, ray, lo, hi, i),
    decreases objs.len() - i,
{
    let itv = Interval { min: lo, max: hi };
    if i == objs.len() {
    } else {
        let first = sphere_hit_s(objs[i], ray, itv);
        match first {
            Some(rec) => {
                assert(sphere_candidate(objs[i], ray, itv) == Some(rec.depth) && rec
                    == sphere_record(objs[i], ray, rec.depth));
                assert(lo < rec.depth < hi);
                lemma_scan_is_min(objs, ray, lo, rec.depth, i + 1);
                let rest = scan_from(objs, ray, lo, rec.depth, i + 1);
                let nitv = Interval { min: lo, max: rec.depth };
                assert forall|k: int| i + 1 <= k < objs.len() implies #[trigger] sphere_candidate(
                    objs[k],
                    ray,
                    nitv,
                ) == crate::sphere::narrowed_candidate(
                    sphere_candidate(objs[k], ray, itv),
                    rec.depth,
                ) by {
                    crate::sphere::lemma_candidate_narrow(objs[k], ray, lo, hi, rec.depth);
                }
                match rest {
                    Some(rec2) => {
                        assert(scan_from(objs, ray, lo, hi, i) == Some(rec2));
                        let k0 = choose|k: int|
                            i + 1 <= k < objs.len() && #[trigger] sphere_candidate(
                                objs[k],
                                ray,
                                nitv,
                            ) == Some(rec2.depth) && rec2 == sphere_record(
                                objs[k],
                                ray,
                                rec2.depth,
                            );
                        assert(sphere_candidate(objs[k0], ray, itv) == Some(rec2.depth));
                        assert forall|k: int| i <= k < objs.len() implies (
                        match #[trigger] sphere_candidate(objs[k], ray, itv) {
                            Some(t) => rec2.depth <= t,
                            None => true,
                        }) by {
                            if k > i {
                                match sphere_candidate(objs[k], ray, itv) {
                                    Some(t) => {
                                        if t < rec.depth {
                                            assert(sphere_candidate(objs[k], ray, nitv) == Some(
                                                t,
                                            ));
                                        }
                                    },
                                    None => {},
                                }
                            }
                        }
                    },
                    None => {
                        assert(scan_from(objs, ray, lo, hi, i) == Some(rec));
                        assert forall|k: int| i <= k < objs.len() implies (
                        match #[trigger] sphere_candidate(objs[k], ray, itv) {
                            Some(t) => rec.depth <= t,
                            None => true,
                        }) by {
                            if k > i {
                                match sphere_candidate(objs[k], ray, itv) {
                                    Some(t) => {
                                        if t < rec.depth {
                                            assert(sphere_candidate(objs[k], ray, nitv) == Some(
                                                t,
                                            ));
                                        }
                                    },
                                    None => {},
                                }
                            }
                        }
                    },
                }
            },
            None => {
                assert(sphere_candidate(objs[i], ray, itv) == None::<i64>);
                lemma_scan_is_min(objs, ray, lo, hi, i + 1);
            },
        }
    }
}

/// A scene with no objects never reports a hit, so every sample of
/// such a scene evaluates to the background alone.
pub proof fn lemma_empty_list_never_hits(l: HittableList, ray: Ray, interval: Interval)
    requires
        l.objects@.len() == 0,
    ensures
        Hittable::List(l).hit_s(ray, interval) == None::<HitRecord>,
{
}

/// Every sphere below a well-formed shape has its box inside the
/// shape's box.
pub proof fn lemma_wf_boxes(h: Hittable)
    requires
        h.wf(),
    ensures
        forall|k: int|
            0 <= k < h.spheres_of().len() ==> box_contains(
                h.bbox_of(),
                #[trigger] h.spheres_of()[k].bounding_box,
            ),
    decreases h,
{
    match h {
        Hittable::Sphere(s) => {
            assert(h.spheres_of() =~= seq![s]);
        },
        Hittable::List(_) => {},
        Hittable::Node(n) => {
            lemma_wf_boxes(*n.left);
            lemma_wf_boxes(*n.right);
            let ls = (*n.left).spheres_of();
            let rs = (*n.right).spheres_of();
            assert(h.spheres_of() =~= ls + rs);
            assert forall|k: int| 0 <= k < h.spheres_of().len() implies box_contains(
                h.bbox_of(),
                #[trigger] h.spheres_of()[k].bounding_box,
            ) by {
                if k < ls.len() {
                    assert(h.spheres_of()[k] == ls[k]);
                    crate::aabb::lemma_box_contains_transitive(
                        n.bounding_box,
                        (*n.left).bbox_of(),
                        ls[k].bounding_box,
                    );
                } else {
                    assert(h.spheres_of()[k] == rs[k - ls.len()]);
                    crate::aabb::lemma_box_contains_transitive(
                        n.bounding_box,
                        (*n.right).bbox_of(),
                        rs[k - ls.len()].bounding_box,
                    );
                }
            }
        },
    }
}

/// A box the slab test rejects hides no accepted root of any sphere
/// whose own box it contains: pruning by the box is lossless.
pub proof fn lemma_prune(bbox: AABB, s: Sphere, ray: Ray, interval: Interval)
    requires
        ray.wf(),
        box_contains(bbox, s.bounding_box),
        !aabb_hit_s(bbox, ray, interval),
    ensures
        sphere_candidate(s, ray, interval) == None::<i64>,
{
    match sphere_candidate(s, ray, interval) {
        Some(t) => {
            assert(crate::sphere::sphere_accepts(s, ray, interval, t));
            crate::aabb::lemma_point_within_monotone(bbox, s.bounding_box, ray, t as int);
            crate::aabb::lemma_slab_sound(bbox, ray, interval, t as int);
            assert(false);
        },
        None => {},
    }
}

/// The tree traversal returns the closest accepted hit among the
/// spheres below it.
#[verifier::spinoff_prover]
#[verifier::rlimit(100)]
pub proof fn lemma_tree_hit_is_min(h: Hittable, ray: Ray, interval: Interval)
    requires
        h.wf(),
        ray.wf(),
    ensures
        is_min_hit(h.hit_s(ray, interval), h.spheres_of(), ray, interval.min, interval.max),
    decreases h,
{
    let lo = interval.min;
    let hi = interval.max;
    assert(Interval { min: lo, max: hi } == interval);
    match h {
        Hittable::Sphere(s) => {
            assert(h.spheres_of() =~= seq![s]);
            match sphere_candidate(s, ray, interval) {
                Some(t) => {
                    assert(crate::sphere::sphere_accepts(s, ray, interval, t));
                    assert(h.spheres_of()[0] == s);
                    let rec = sphere_record(s, ray, t);
                    assert(rec.depth == t);
                    assert(sphere_candidate(h.spheres_of()[0], ray, interval) == Some(rec.depth)
                        && rec == sphere_record(h.spheres_of()[0], ray, rec.depth));
                },
                None => {},
            }
        },
        Hittable::List(l) => {
            lemma_scan_is_min(l.objects@, ray, lo, hi, 0);
        },
        Hittable::Node(n) => {
            let sp = h.spheres_of();
            let ls = (*n.left).spheres_of();
            let rs = (*n.right).spheres_of();
            assert(sp =~= ls + rs);
            if !aabb_hit_s(n.bounding_box, ray, interval) {
                assert(h.hit_s(ray, interval) == None::<HitRecord>);
                lemma_wf_boxes(h);
                assert forall|k: int| 0 <= k < sp.len() implies #[trigger] sphere_candidate(
                    sp[k],
                    ray,
                    interval,
                ) == None::<i64> by {
                    lemma_prune(n.bounding_box, sp[k], ray, interval);
                }
            } else {
                lemma_tree_hit_is_min(*n.left, ray, interval);
                let left = (*n.left).hit_s(ray, interval);
                let right_max: i64 = match left {
                    Some(rec) => rec.depth,
                    None => hi,
                };
                let nitv = Interval { min: lo, max: right_max };
                lemma_tree_hit_is_min(*n.right, ray, nitv);
                let right = (*n.right).hit_s(ray, nitv);
                assert(h.hit_s(ray, interval) == (match right {
                    Some(rec) => Some(rec),
                    None => left,
                }));
                assert(right_max <= hi);
                assert forall|k: int| 0 <= k < rs.len() implies #[trigger] sphere_candidate(
                    rs[k],
                    ray,
                    nitv,
                ) == crate::sphere::narrowed_candidate(
                    sphere_candidate(rs[k], ray, interval),
                    right_max,
                ) by {
                    crate::sphere::lemma_candidate_narrow(rs[k], ray, lo, hi, right_max);
                }
                assert(forall|k: int| 0 <= k < ls.len() ==> sp[k] == #[trigger] ls[k]);
                assert(forall|k: int|
                    0 <= k < rs.len() ==> sp[ls.len() + k] == #[trigger] rs[k]);
                match right {
                    Some(rec2) => {
                        assert(lo < rec2.depth < right_max <= hi);
                        let k0 = choose|k: int|
                            0 <= k < rs.len() && #[trigger] sphere_candidate(rs[k], ray, nitv)
                                == Some(rec2.depth) && rec2 == sphere_record(
                                rs[k],
                                ray,
                                rec2.depth,
                            );
                        assert(sphere_candidate(rs[k0], ray, interval) == Some(rec2.depth));
                        assert(sp[ls.len() + k0] == rs[k0]);
                        assert(sphere_candidate(sp[ls.len() + k0], ray, interval) == Some(
                            rec2.depth,
                        ) && rec2 == sphere_record(sp[ls.len() + k0], ray, rec2.depth));
                        assert forall|k: int| 0 <= k < sp.len() implies (
                        match #[trigger] sphere_candidate(sp[k], ray, interval) {
                            Some(t) => rec2.depth <= t,
                            None => true,
                        }) by {
                            if k < ls.len() {
                                assert(sp[k] == ls[k]);
                                match left {
                                    Some(lrec) => {
                                        match sphere_candidate(ls[k], ray, interval) {
                                            Some(t) => {
                                                assert(lrec.depth <= t);
                                                assert(rec2.depth < right_max == lrec.depth);
                                            },
                                            None => {},
                                        }
                                    },
                                    None => {
                                        assert(sphere_candidate(ls[k], ray, interval)
                                            == None::<i64>);
                                    },
                                }
                            } else {
                                let j = k - ls.len();
                                assert(sp[k] == rs[j]);
                                match sphere_candidate(rs[j], ray, interval) {
                                    Some(t) => {
                                        if t < right_max {
                                            assert(sphere_candidate(rs[j], ray, nitv) == Some(t));
                                        } else {
                                            assert(rec2.depth < right_max <= t);
                                        }
                                    },
                                    None => {},
                                }
                            }
                        }
                    },
                    None => {
                        match left {
                            Some(lrec) => {
                                assert(lo < lrec.depth < hi);
                                let k0 = choose|k: int|
                                    0 <= k < ls.len() && #[trigger] sphere_candidate(
                                        ls[k],
                                        ray,
                                        interval,
                                    ) == Some(lrec.depth) && lrec == sphere_record(
                                        ls[k],
                                        ray,
                                        lrec.depth,
                                    );
                                assert(sp[k0] == ls[k0]);
                                assert forall|k: int| 0 <= k < sp.len() implies (
                                match #[trigger] sphere_candidate(sp[k], ray, interval) {
                                    Some(t) => lrec.depth <= t,
                                    None => true,
                                }) by {
                                    if k < ls.len() {
                                        assert(sp[k] == ls[k]);
                                    } else {
                                        let j = k - ls.len();
                                        assert(sp[k] == rs[j]);
                                        match sphere_candidate(rs[j], ray, interval) {
                                            Some(t) => {
                                                if t < right_max {
                                                    assert(sphere_candidate(rs[j], ray, nitv)
                                                        == Some(t));
                                                    assert(false);
                                                }
                                            },
                                            None => {},
                                        }
                                    }
                                }
                            },
                            None => {
                                assert forall|k: int| 0 <= k < sp.len() implies #[trigger] sphere_candidate(
                                    sp[k],
                                    ray,
                                    interval,
                                ) == None::<i64> by {
                                    if k < ls.len() {
                                        assert(sp[k] == ls[k]);
                                    } else {
                                        let j = k - ls.len();
                                        assert(sp[k] == rs[j]);
                                        assert(sphere_candidate(rs[j], ray, nitv) == None::<i64>);
                                        assert(right_max == hi);
                                        assert(nitv == interval);
                                    }
                                }
                            },
                        }
                    },
                }
            }
        },
    }
}

impl HittableList {
    /// The spheres below this list: its objects.
    pub open spec fn spheres_of(self) -> Seq<Sphere> {
        self.objects@
    }

    /// The cached box contains every object's box.
    pub open spec fn wf(self) -> bool {
        forall|i: int|
            0 <= i < self.objects@.len() ==> box_contains(
                self.bounding_box,
                #[trigger] self.objects@[i].bounding_box,
            )
    }

    /// An empty list with an empty box.
    pub fn default() -> (r: Self)
        ensures
            r.objects@ =~= Seq::<Sphere>::empty(),
            r.bounding_box == (AABB {
                x: Interval { min: i64::MAX, max: i64::MIN },
                y: Interval { min: i64::MAX, max: i64::MIN },
                z: Interval { min: i64::MAX, max: i64::MIN },
            }),
            r.wf(),
    {
        HittableList { objects: Vec::new(), bounding_box: AABB::default() }
    }

    /// A list holding one object.
    pub fn new(object: Sphere) -> (r: Self)
        ensures
            r.objects@ =~= seq![object],
            r.bounding_box == object.bounding_box,
            r.wf(),
    {
        let bounding_box = object.bounding_box;
        let mut objects: Vec<Sphere> = Vec::new();
        objects.push(object);
        HittableList { objects, bounding_box }
    }

    /// Append an object, growing the cached box to hold it.
    pub fn add_object(&mut self, object: Sphere)
        requires
            old(self).wf(),
        ensures
            final(self).objects@ =~= old(self).objects@.push(object),
            final(self).bounding_box == aabb_union(old(self).bounding_box, object.bounding_box),
            final(self).wf(),
    {
        proof {
            crate::aabb::lemma_aabb_union_contains(self.bounding_box, object.bounding_box);
            let newbox = aabb_union(self.bounding_box, object.bounding_box);
            assert forall|i: int| 0 <= i < self.objects@.len() implies box_contains(
                newbox,
                #[trigger] self.objects@[i].bounding_box,
            ) by {
                crate::aabb::lemma_box_contains_transitive(
                    newbox,
                    self.bounding_box,
                    self.objects@[i].bounding_box,
                );
            }
        }
        self.bounding_box = AABB::from_aabb_bounds(&self.bounding_box, &object.bounding_box);
        self.objects.push(object);
    }

    /// The nearest hit among the objects, by linear scan with a
    /// narrowing window.
    pub fn hit(&self, ray: &Ray, interval: &Interval) -> (r: Option<HitRecord>)
        requires
            ray.wf(),
        ensures
            r == scan_spheres(self.objects@, *ray, interval.min, interval.max),
    {
        self.hit_from(ray, interval, 0)
    }

    /// The scan from index `i` on, mirroring `scan_from`.
    fn hit_from(&self, ray: &Ray, interval: &Interval, i: usize) -> (r: Option<HitRecord>)
        requires
            ray.wf(),
            i <= self.objects.len(),
        ensures
            r == scan_from(self.objects@, *ray, interval.min, interval.max, i as int),
        decreases self.objects.len() - i,
    {
        if i == self.objects.len() {
            None
        } else {
            match self.objects[i].hit(ray, interval) {
                Some(rec) => {
                    let narrowed = Interval { min: interval.min, max: rec.depth };
                    match self.hit_from(ray, &narrowed, i + 1) {
                        Some(rec2) => Some(rec2),
                        None => Some(rec),
                    }
                },
                None => self.hit_from(ray, interval, i + 1),
            }
        }
    }

    /// The cached bounding box.
    pub fn bounding_box(&self) -> (r: AABB)
        ensures
            r == self.bounding_box,
    {
        self.bounding_box
    }
}

impl Hittable {
    /// All sphere primitives below this shape.
    pub open spec fn spheres_of(self) -> Seq<Sphere>
        decreases self,
    {
        match self {
            Hittable::Sphere(s) => seq![s],
            Hittable::List(l) => l.objects@,
            Hittable::Node(n) => (*n.left).spheres_of() + (*n.right).spheres_of(),
        }
    }

    /// The shape's cached bounding box.
    pub open spec fn bbox_of(self) -> AABB {
        match self {
            Hittable::Sphere(s) => s.bounding_box,
            Hittable::List(l) => l.bounding_box,
            Hittable::Node(n) => n.bounding_box,
        }
    }

    /// Well-formedness: every cached box contains the boxes below it.
    pub open spec fn wf(self) -> bool
        decreases self,
    {
        match self {
            Hittable::Sphere(_) => true,
            Hittable::List(l) => l.wf(),
            Hittable::Node(n) => {
                &&& (*n.left).wf()
                &&& (*n.right).wf()
                &&& box_contains(n.bounding_box, (*n.left).bbox_of())
                &&& box_contains(n.bounding_box, (*n.right).bbox_of())
            },
        }
    }

    /// The shape's hit result, as a function of shape, ray and window.
    pub open spec fn hit_s(self, ray: Ray, interval: Interval) -> Option<HitRecord>
        decreases self,
    {
        match self {
            Hittable::Sphere(s) => sphere_hit_s(s, ray, interval),
            Hittable::List(l) => scan_spheres(l.objects@, ray, interval.min, interval.max),
            Hittable::Node(n) => if !aabb_hit_s(n.bounding_box, ray, interval) {
                None
            } else {
                let left = (*n.left).hit_s(ray, interval);
                let right_max = match left {
                    Some(rec) => rec.depth,
                    None => interval.max,
                };
                let right = (*n.right).hit_s(ray, Interval { min: interval.min, max: right_max });
                match right {
                    Some(rec) => Some(rec),
                    None => left,
                }
            },
        }
    }

    /// The nearest hit within the window, dispatched by shape.
    pub fn hit(&self, ray: &Ray, interval: &Interval) -> (r: Option<HitRecord>)
        requires
            ray.wf(),
        ensures
            r == self.hit_s(*ray, *interval),
        decreases *self,
    {
        match self {
            Hittable::Sphere(s) => s.hit(ray, interval),
            Hittable::List(l) => l.hit(ray, interval),
            Hittable::Node(n) => n.hit(ray, interval),
        }
    }

    /// The shape's cached bounding box.
    pub fn bounding_box(&self) -> (r: AABB)
        ensures
            r == self.bbox_of(),
    {
        match self {
            Hittable::Sphere(s) => s.bounding_box(),
            Hittable::List(l) => l.bounding_box(),
            Hittable::Node(n) => n.bounding_box(),
        }
    }
}

} // verus!
