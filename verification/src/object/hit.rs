//! Hit records: what an intersection query reports.

use crate::fixed::abs_i;
use crate::fixed::Fx;
use crate::fixed::FX_MUL_LIM;
use crate::fixed::FX_ONE;
use crate::object::aabb::aabb_bounded_s;
use crate::object::aabb::aabb_contains_aabb;
use crate::object::aabb::aabb_hit_s;
use crate::object::aabb::aabb_union_s;
use crate::object::aabb::aabb_valid;
use crate::object::aabb::AABB;
use crate::object::material::Material;
use crate::ray::Interval;
use crate::ray::Ray;
use crate::ray::FX_INF;
use crate::rng::Prng;
use crate::vec3d::bounded_s;
use crate::vec3d::dot;
use crate::vec3d::dot_s;
use crate::vec3d::Point3d;
use crate::vec3d::Vec3d;
use crate::vec3d::GEOM_LIM;
use std::sync::Arc;
use vstd::prelude::*;

verus! {

/// The geometric data of an intersection, with no material attached;
/// the specifications of the intersection routines speak in these.
pub struct HitData {
    pub t: Fx,
    pub u: Fx,
    pub v: Fx,
    pub point: Point3d,
    pub normal: Vec3d,
    pub front_face: bool,
}

/// A ray whose origin and direction stay inside the ranges the
/// intersection arithmetic needs.
pub open spec fn ray_wf(ray: Ray) -> bool {
    bounded_s(ray.origin, crate::vec3d::VEC_LIM as int) && bounded_s(
        ray.direction,
        crate::vec3d::VEC_LIM as int,
    ) && 0 <= ray.time <= crate::fixed::FX_ONE
}

/// The data of an intersection: ray parameter, surface coordinates,
/// point, sign-corrected normal, and which face was struck.
pub struct HitRecord<'m> {
    pub t: Fx,
    pub u: Fx,
    pub v: Fx,
    pub point: Point3d,
    pub normal: Vec3d,
    pub front_face: bool,
    pub material: &'m Material,
}

impl<'m> HitRecord<'m> {
    /// A record with the normal still unset.
    pub fn new(material: &'m Material, t: Fx, u: Fx, v: Fx, point: Point3d) -> (r: Self)
        ensures
            r.t == t,
            r.u == u,
            r.v == v,
            r.point == point,
            r.normal == (Vec3d { x: 0 as Fx, y: 0 as Fx, z: 0 as Fx }),
            r.front_face == false,
            r.material == material,
    {
        HitRecord { t, u, v, point, normal: Vec3d::zero(), front_face: false, material }
    }

    /// A record holding no real intersection, for callers that only ask
    /// whether something was hit; it carries the absorbing material.
    pub fn empty() -> (r: HitRecord<'static>)
        ensures
            r.t == 0,
            r.u == 0,
            r.v == 0,
            r.point == (Vec3d { x: 0 as Fx, y: 0 as Fx, z: 0 as Fx }),
            r.front_face == false,
            r.material == &Material::Empty(crate::object::material::Empty {  }),
    {
        HitRecord::new(
            &Material::Empty(crate::object::material::Empty {  }),
            0,
            0,
            0,
            Vec3d::zero(),
        )
    }

    /// Sets the face flag and the normal so the normal opposes the ray.
    pub fn set_face_normal(&mut self, ray: &Ray, outward_normal: Vec3d)
        requires
            bounded_s(ray.direction, FX_MUL_LIM as int - 1),
            bounded_s(outward_normal, FX_MUL_LIM as int - 1),
        ensures
            final(self).front_face == (dot_s(ray.direction, outward_normal) < 0),
            final(self).normal == if dot_s(ray.direction, outward_normal) < 0 {
                outward_normal
            } else {
                Vec3d {
                    x: (-outward_normal.x) as Fx,
                    y: (-outward_normal.y) as Fx,
                    z: (-outward_normal.z) as Fx,
                }
            },
            final(self).t == old(self).t,
            final(self).u == old(self).u,
            final(self).v == old(self).v,
            final(self).point == old(self).point,
            final(self).material == old(self).material,
    {
        self.front_face = dot(&ray.direction, &outward_normal) < 0;
        self.normal = if self.front_face {
            outward_normal
        } else {
            outward_normal.neg()
        };
    }
}

/// Relies on alloc::sync::Arc's Clone: cloning an Arc yields another
/// pointer to the same allocation, so the cloned handle carries the
/// very same value.
#[verifier::external_body]
fn share<T>(v: &Arc<T>) -> (r: Arc<T>)
    ensures
        r == *v,
{
    v.clone()
}

/// Any geometric entity answerable for ray intersection and bounding
/// box: a closed set of variants dispatched by match.
pub enum Hittable {
    Sphere(crate::object::sphere::Sphere),
    Quad(crate::object::quad::Quad),
    List(HittableVec),
    Node(BVHNode),
    Translate(crate::object::instance::Translate),
    RotateY(crate::object::instance::RotateY),
    Medium(crate::object::medium::Medium),
}

/// A flat collection of objects with an aggregate bounding box.
pub struct HittableVec {
    pub objects: Vec<Hittable>,
    pub bbox: AABB,
}

/// A binary spatial index node: two shared children and the union of
/// their bounding boxes.  Sharing lets a single-object range alias the
/// one primitive on both sides, as the degenerate leaf wants.
pub struct BVHNode {
    pub left: Arc<Hittable>,
    pub right: Arc<Hittable>,
    pub bbox: AABB,
}

/// The bounding box an object reports.
pub open spec fn bounding_box_s(h: Hittable) -> AABB
    decreases h,
{
    match h {
        Hittable::Sphere(s) => s.bbox,
        Hittable::Quad(q) => q.bbox,
        Hittable::List(v) => v.bbox,
        Hittable::Node(n) => n.bbox,
        Hittable::Translate(t) => t.bbox,
        Hittable::RotateY(r) => r.bbox,
        Hittable::Medium(m) => bounding_box_s(*m.boundary),
    }
}

/// Structural well-formedness of an object tree.  For an index node it
/// includes the tree's central invariant: the node's box is the exact
/// union of its two children's boxes.
pub open spec fn hittable_wf(h: Hittable) -> bool
    decreases h,
{
    match h {
        Hittable::Sphere(s) => crate::object::sphere::sphere_wf(s),
        Hittable::Quad(q) => crate::object::quad::quad_wf(q),
        Hittable::List(v) => crate::object::aabb::aabb_proper(v.bbox) && forall|i: int|
            0 <= i < v.objects.len() ==> hittable_wf(#[trigger] v.objects[i]),
        Hittable::Node(n) => hittable_wf(*n.left) && hittable_wf(*n.right) && aabb_valid(n.bbox)
            && n.bbox == aabb_union_s(bounding_box_s(*n.left), bounding_box_s(*n.right)),
        Hittable::Translate(t) => hittable_wf(*t.object) && bounded_s(t.offset, GEOM_LIM as int)
            && t.bbox == crate::object::aabb::aabb_shift_s(bounding_box_s(*t.object), t.offset)
            && aabb_bounded_s(t.bbox, 2 * FX_INF as int) && crate::object::aabb::aabb_proper(
            t.bbox,
        ),
        Hittable::RotateY(r) => hittable_wf(*r.object) && abs_i(r.sin_theta as int) <= 2 * FX_ONE
            && abs_i(r.cos_theta as int) <= 2 * FX_ONE && aabb_valid(r.bbox)
            && aabb_bounded_s(bounding_box_s(*r.object), 2 * FX_INF as int),
        Hittable::Medium(m) => hittable_wf(*m.boundary) && crate::object::material::material_wf(
            m.phase_func,
        ) && -4294967296 <= m.neg_inv_density < 0,
    }
}

/// Whether a tree is free of participating media, whose interactions
/// draw randomness; everything else intersects deterministically.
pub open spec fn deterministic_s(h: Hittable) -> bool
    decreases h,
{
    match h {
        Hittable::Sphere(_) => true,
        Hittable::Quad(_) => true,
        Hittable::List(v) => forall|i: int|
            0 <= i < v.objects.len() ==> deterministic_s(#[trigger] v.objects[i]),
        Hittable::Node(n) => deterministic_s(*n.left) && deterministic_s(*n.right),
        Hittable::Translate(t) => deterministic_s(*t.object),
        Hittable::RotateY(r) => deterministic_s(*r.object),
        Hittable::Medium(_) => false,
    }
}

/// The primitives at the leaves of an object tree, in tree order: an
/// index node contributes its children's leaves, and everything else is
/// itself a leaf.  A single-object node holds the same leaf on both
/// sides and so contributes it twice.
pub open spec fn leaves_s(h: Hittable) -> Seq<Hittable>
    decreases h,
{
    match h {
        Hittable::Node(n) => leaves_s(*n.left) + leaves_s(*n.right),
        _ => seq![h],
    }
}

/// The union of the bounding boxes of a sequence of objects; the empty
/// sequence owns the empty box.
pub open spec fn boxes_union_s(objs: Seq<Hittable>) -> AABB
    decreases objs.len(),
{
    if objs.len() == 0 {
        crate::object::aabb::aabb_empty_s()
    } else if objs.len() == 1 {
        bounding_box_s(objs[0])
    } else {
        aabb_union_s(boxes_union_s(objs.drop_last()), bounding_box_s(objs.last()))
    }
}

/// Every object's box stays inside the finite range.
pub open spec fn boxes_in_range_s(objs: Seq<Hittable>) -> bool {
    forall|k: int|
        0 <= k < objs.len() ==> aabb_bounded_s(bounding_box_s(#[trigger] objs[k]), FX_INF as int)
}

/// The box union over a concatenation splits into the two unions.
proof fn lemma_boxes_union_append(s1: Seq<Hittable>, s2: Seq<Hittable>)
    requires
        s1.len() > 0,
        s2.len() > 0,
        boxes_in_range_s(s1),
        boxes_in_range_s(s2),
    ensures
        boxes_union_s(s1 + s2) == aabb_union_s(boxes_union_s(s1), boxes_union_s(s2)),
    decreases s2.len(),
{
    if s2.len() == 1 {
        assert((s1 + s2).drop_last() =~= s1);
        assert((s1 + s2).last() == s2[0]);
        assert(boxes_union_s(s1 + s2) == aabb_union_s(boxes_union_s(s1), bounding_box_s(s2[0])));
    } else {
        let s2p = s2.drop_last();
        assert(boxes_in_range_s(s2p)) by {
            assert forall|k: int| 0 <= k < s2p.len() implies aabb_bounded_s(
                bounding_box_s(#[trigger] s2p[k]),
                FX_INF as int,
            ) by {
                assert(s2p[k] == s2[k]);
            }
        }
        lemma_boxes_union_append(s1, s2p);
        assert((s1 + s2).drop_last() =~= s1 + s2p);
        assert((s1 + s2).last() == s2.last());
        assert(boxes_union_s(s1 + s2) == aabb_union_s(
            aabb_union_s(boxes_union_s(s1), boxes_union_s(s2p)),
            bounding_box_s(s2.last()),
        ));
    }
}

/// Removing one element and uniting its box back restores the union.
proof fn lemma_boxes_union_remove(s: Seq<Hittable>, j: int)
    requires
        0 <= j < s.len(),
        boxes_in_range_s(s),
    ensures
        boxes_union_s(s) == if s.len() == 1 {
            bounding_box_s(s[j])
        } else {
            aabb_union_s(boxes_union_s(s.remove(j)), bounding_box_s(s[j]))
        },
    decreases s.len(),
{
    if s.len() == 1 {
    } else if j == s.len() - 1 {
        assert(s.remove(j) =~= s.drop_last());
    } else {
        let sp = s.drop_last();
        assert(boxes_in_range_s(sp)) by {
            assert forall|k: int| 0 <= k < sp.len() implies aabb_bounded_s(
                bounding_box_s(#[trigger] sp[k]),
                FX_INF as int,
            ) by {
                assert(sp[k] == s[k]);
            }
        }
        lemma_boxes_union_remove(sp, j);
        assert(s.remove(j).drop_last() =~= sp.remove(j));
        assert(s.remove(j).last() == s.last());
        if sp.len() == 1 {
            // s has two elements and j names the first.
            assert(s.remove(j) =~= seq![s.last()]);
            assert(boxes_union_s(s) == aabb_union_s(bounding_box_s(s[j]), bounding_box_s(s.last())));
            lemma_aabb_union_swap(
                crate::object::aabb::aabb_empty_s(),
                bounding_box_s(s[j]),
                bounding_box_s(s.last()),
            );
        } else {
            assert(boxes_union_s(s.remove(j)) == aabb_union_s(
                boxes_union_s(sp.remove(j)),
                bounding_box_s(s.last()),
            ));
            lemma_aabb_union_swap(
                boxes_union_s(sp.remove(j)),
                bounding_box_s(s[j]),
                bounding_box_s(s.last()),
            );
        }
    }
}

/// Uniting two boxes into a base commutes.
proof fn lemma_aabb_union_swap(base: AABB, b1: AABB, b2: AABB)
    ensures
        aabb_union_s(aabb_union_s(base, b1), b2) == aabb_union_s(aabb_union_s(base, b2), b1),
{
}

/// Sequences with equal multisets own equal box unions: the union does
/// not depend on the order the objects arrive in.
pub proof fn lemma_boxes_union_permutation(s1: Seq<Hittable>, s2: Seq<Hittable>)
    requires
        s1.to_multiset() == s2.to_multiset(),
        boxes_in_range_s(s1),
        boxes_in_range_s(s2),
    ensures
        boxes_union_s(s1) == boxes_union_s(s2),
    decreases s1.len(),
{
    broadcast use vstd::seq_lib::group_to_multiset_ensures;

    assert(s1.to_multiset().len() == s1.len());
    assert(s2.to_multiset().len() == s2.len());
    if s1.len() == 0 {
        assert(s2.len() == 0);
    } else {
        let x = s1.last();
        let s1p = s1.drop_last();
        assert(s1.to_multiset().contains(x));
        assert(s2.to_multiset().contains(x));
        assert(s2.contains(x));
        let j = choose|j: int| 0 <= j < s2.len() && s2[j] == x;
        let s2p = s2.remove(j);
        assert(s2p =~= s2.subrange(0, j) + s2.subrange(j + 1, s2.len() as int));
        assert(s1p =~= s1.remove(s1.len() - 1));
        assert(s1p.to_multiset() =~= s1.to_multiset().remove(x));
        assert(s2p.to_multiset() =~= s2.to_multiset().remove(x));
        assert(boxes_in_range_s(s1p)) by {
            assert forall|k: int| 0 <= k < s1p.len() implies aabb_bounded_s(
                bounding_box_s(#[trigger] s1p[k]),
                FX_INF as int,
            ) by {
                assert(s1p[k] == s1[k]);
            }
        }
        assert(boxes_in_range_s(s2p)) by {
            assert forall|k: int| 0 <= k < s2p.len() implies aabb_bounded_s(
                bounding_box_s(#[trigger] s2p[k]),
                FX_INF as int,
            ) by {
                if k < j {
                    assert(s2p[k] == s2[k]);
                } else {
                    assert(s2p[k] == s2[k + 1]);
                }
            }
        }
        lemma_boxes_union_permutation(s1p, s2p);
        lemma_boxes_union_remove(s1, s1.len() - 1);
        lemma_boxes_union_remove(s2, j);
        if s1.len() == 1 {
            assert(s2.len() == 1);
            assert(s2[j] == x);
        }
    }
}

/// Every box a well-formed object reports is proper: wide enough on
/// every axis, or the exact empty sentinel.
pub proof fn lemma_wf_box_proper(h: Hittable)
    requires
        hittable_wf(h),
    ensures
        crate::object::aabb::aabb_proper(bounding_box_s(h)),
    decreases h,
{
    match h {
        Hittable::Medium(m) => {
            lemma_wf_box_proper(*m.boundary);
        },
        _ => {},
    }
}

/// What a deterministic intersection query answers, over the whole tree.
/// A medium answers nothing here; its stochastic behavior is outside
/// this mirror.
pub open spec fn hittable_hit_s(h: Hittable, ray: Ray, itv: Interval) -> Option<HitData>
    decreases h,
{
    match h {
        Hittable::Sphere(s) => crate::object::sphere::sphere_hit_s(s, ray, itv),
        Hittable::Quad(q) => crate::object::quad::quad_hit_s(q, ray, itv),
        Hittable::List(v) => list_hit_s(v.objects@, ray, itv),
        Hittable::Node(n) => node_hit_s(n, ray, itv),
        Hittable::Translate(t) => crate::object::instance::translate_hit_s(t, ray, itv),
        Hittable::RotateY(r) => crate::object::instance::rotate_y_hit_s(r, ray, itv),
        Hittable::Medium(_) => None,
    }
}

/// The nearest hit over a list: each object is queried with the upper
/// bound shrunk to the closest hit found so far.
pub open spec fn list_hit_s(objs: Seq<Hittable>, ray: Ray, itv: Interval) -> Option<HitData>
    decreases objs,
{
    if objs.len() == 0 {
        None
    } else {
        let prefix = list_hit_s(objs.subrange(0, objs.len() - 1), ray, itv);
        let shrunk = Interval {
            min: itv.min,
            max: match prefix {
                Some(d) => d.t,
                None => itv.max,
            },
        };
        match hittable_hit_s(objs[objs.len() - 1], ray, shrunk) {
            Some(d) => Some(d),
            None => prefix,
        }
    }
}

/// The traversal of an index node: prune by the node's box, query the
/// left child, shrink the interval to its hit, query the right child,
/// and report the nearer hit.
pub open spec fn node_hit_s(n: BVHNode, ray: Ray, itv: Interval) -> Option<HitData>
    decreases n,
{
    if !aabb_hit_s(n.bbox, ray, itv) {
        None
    } else {
        let hl = hittable_hit_s(*n.left, ray, itv);
        let right_itv = Interval {
            min: itv.min,
            max: match hl {
                Some(d) => d.t,
                None => itv.max,
            },
        };
        let hr = hittable_hit_s(*n.right, ray, right_itv);
        match (hl, hr) {
            (Some(l), Some(r)) => if l.t < r.t {
                Some(l)
            } else {
                Some(r)
            },
            (Some(l), None) => Some(l),
            (None, _) => hr,
        }
    }
}

/// The wrapped object of a translation, as a value.
pub open spec fn translate_child_s(t: crate::object::instance::Translate) -> Hittable {
    *t.object
}

/// The wrapped object of a rotation, as a value.
pub open spec fn rotate_child_s(r: crate::object::instance::RotateY) -> Hittable {
    *r.object
}

/// The left child of an index node, as a value.
pub open spec fn node_left_s(n: BVHNode) -> Hittable {
    *n.left
}

/// The right child of an index node, as a value.
pub open spec fn node_right_s(n: BVHNode) -> Hittable {
    *n.right
}

/// A mirror hit always lies inside the closed query interval.
pub proof fn lemma_mirror_hit_in_interval(h: Hittable, ray: Ray, itv: Interval)
    ensures
        match hittable_hit_s(h, ray, itv) {
            Some(d) => itv.min <= d.t <= itv.max,
            None => true,
        },
    decreases h, 1int,
{
    match h {
        Hittable::List(v) => {
            lemma_mirror_list_hit_in_interval(v.objects@, ray, itv);
        },
        Hittable::Node(n) => {
            if aabb_hit_s(n.bbox, ray, itv) {
                let hl = hittable_hit_s(node_left_s(n), ray, itv);
                lemma_mirror_hit_in_interval(node_left_s(n), ray, itv);
                let right_itv = Interval {
                    min: itv.min,
                    max: match hl {
                        Some(d) => d.t,
                        None => itv.max,
                    },
                };
                lemma_mirror_hit_in_interval(node_right_s(n), ray, right_itv);
            }
        },
        Hittable::Translate(t) => {
            let moved = Ray {
                origin: Vec3d {
                    x: (ray.origin.x - t.offset.x) as Fx,
                    y: (ray.origin.y - t.offset.y) as Fx,
                    z: (ray.origin.z - t.offset.z) as Fx,
                },
                direction: ray.direction,
                time: ray.time,
            };
            lemma_mirror_hit_in_interval(translate_child_s(t), moved, itv);
        },
        Hittable::RotateY(r) => {
            let sc = r.sin_theta as int;
            let cc = r.cos_theta as int;
            let o = crate::object::instance::rot_in_s(
                sc,
                cc,
                ray.origin.x as int,
                ray.origin.z as int,
            );
            let d = crate::object::instance::rot_in_s(
                sc,
                cc,
                ray.direction.x as int,
                ray.direction.z as int,
            );
            let rotated = Ray {
                origin: Vec3d { x: o.0 as Fx, y: ray.origin.y, z: o.1 as Fx },
                direction: Vec3d { x: d.0 as Fx, y: ray.direction.y, z: d.1 as Fx },
                time: ray.time,
            };
            lemma_mirror_hit_in_interval(rotate_child_s(r), rotated, itv);
        },
        _ => {},
    }
}

/// A mirror hit over a list lies inside the closed query interval.
proof fn lemma_mirror_list_hit_in_interval(objs: Seq<Hittable>, ray: Ray, itv: Interval)
    ensures
        match list_hit_s(objs, ray, itv) {
            Some(d) => itv.min <= d.t <= itv.max,
            None => true,
        },
    decreases objs, 0int,
{
    if objs.len() > 0 {
        let prefix = list_hit_s(objs.subrange(0, objs.len() - 1), ray, itv);
        lemma_mirror_list_hit_in_interval(objs.subrange(0, objs.len() - 1), ray, itv);
        let shrunk = Interval {
            min: itv.min,
            max: match prefix {
                Some(d) => d.t,
                None => itv.max,
            },
        };
        lemma_mirror_hit_in_interval(objs[objs.len() - 1], ray, shrunk);
    }
}

/// Soundness of the indexed traversal: every hit the tree's mirror
/// reports is a hit that one of its leaves reports, within a
/// sub-interval of the query whose lower end is the query's own.  (The
/// converse — that pruning never loses a leaf hit — would need the
/// truncated slab test to be conservative with respect to the
/// primitives' own rounded root computations, which truncation does
/// not provide.)
pub proof fn lemma_hit_comes_from_a_leaf(h: Hittable, ray: Ray, itv: Interval)
    ensures
        match hittable_hit_s(h, ray, itv) {
            Some(d) => exists|li: int, up: Fx|
                0 <= li < leaves_s(h).len() && itv.min <= d.t <= up <= itv.max
                    && #[trigger] hittable_hit_s(
                    leaves_s(h)[li],
                    ray,
                    Interval { min: itv.min, max: up },
                ) == Some(d),
            None => true,
        },
    decreases h,
{
    match h {
        Hittable::Node(n) => {
            if aabb_hit_s(n.bbox, ray, itv) {
                let hl = hittable_hit_s(node_left_s(n), ray, itv);
                let right_itv = Interval {
                    min: itv.min,
                    max: match hl {
                        Some(d) => d.t,
                        None => itv.max,
                    },
                };
                let hr = hittable_hit_s(node_right_s(n), ray, right_itv);
                lemma_hit_comes_from_a_leaf(node_left_s(n), ray, itv);
                lemma_hit_comes_from_a_leaf(node_right_s(n), ray, right_itv);
                lemma_mirror_hit_in_interval(node_left_s(n), ray, itv);
                let result = node_hit_s(n, ray, itv);
                if result is Some {
                    let d = result->0;
                    if hl is Some && result == hl {
                        let (li, up) = choose|li: int, up: Fx|
                            0 <= li < leaves_s(node_left_s(n)).len() && itv.min <= d.t <= up <= itv.max
                                && #[trigger] hittable_hit_s(
                                leaves_s(node_left_s(n))[li],
                                ray,
                                Interval { min: itv.min, max: up },
                            ) == Some(d);
                        assert(leaves_s(h)[li] == leaves_s(node_left_s(n))[li]);
                        assert(0 <= li < leaves_s(h).len() && itv.min <= d.t <= up <= itv.max
                            && hittable_hit_s(
                            leaves_s(h)[li],
                            ray,
                            Interval { min: itv.min, max: up },
                        ) == Some(d));
                    } else {
                        assert(result == hr);
                        let (li, up) = choose|li: int, up: Fx|
                            0 <= li < leaves_s(node_right_s(n)).len() && right_itv.min <= d.t <= up
                                <= right_itv.max && #[trigger] hittable_hit_s(
                                leaves_s(node_right_s(n))[li],
                                ray,
                                Interval { min: right_itv.min, max: up },
                            ) == Some(d);
                        assert(right_itv.max <= itv.max);
                        assert(leaves_s(h)[leaves_s(node_left_s(n)).len() + li] == leaves_s(
                            node_right_s(n),
                        )[li]);
                        assert(0 <= leaves_s(node_left_s(n)).len() + li < leaves_s(h).len() && itv.min
                            <= d.t <= up <= itv.max && hittable_hit_s(
                            leaves_s(h)[leaves_s(node_left_s(n)).len() + li],
                            ray,
                            Interval { min: itv.min, max: up },
                        ) == Some(d));
                    }
                }
            }
        },
        _ => {
            let result = hittable_hit_s(h, ray, itv);
            if result is Some {
                let d = result->0;
                lemma_mirror_hit_in_interval(h, ray, itv);
                assert(leaves_s(h)[0] == h);
                assert(Interval { min: itv.min, max: itv.max } == itv);
                assert(0 <= 0 < leaves_s(h).len() && itv.min <= d.t <= itv.max <= itv.max
                    && hittable_hit_s(
                    leaves_s(h)[0],
                    ray,
                    Interval { min: itv.min, max: itv.max },
                ) == Some(d));
            }
        },
    }
}

/// The material of the mirror hit, following the same branch decisions
/// the data mirror takes; meaningful only where that mirror answers a
/// hit.
pub open spec fn hit_material_s(h: Hittable, ray: Ray, itv: Interval) -> Material
    decreases h,
{
    match h {
        Hittable::Sphere(s) => s.material,
        Hittable::Quad(q) => q.material,
        Hittable::List(v) => list_hit_material_s(v.objects@, ray, itv),
        Hittable::Node(n) => {
            let hl = hittable_hit_s(*n.left, ray, itv);
            let right_itv = Interval {
                min: itv.min,
                max: match hl {
                    Some(d) => d.t,
                    None => itv.max,
                },
            };
            let hr = hittable_hit_s(*n.right, ray, right_itv);
            match (hl, hr) {
                (Some(l), Some(r)) => if l.t < r.t {
                    hit_material_s(*n.left, ray, itv)
                } else {
                    hit_material_s(*n.right, ray, right_itv)
                },
                (Some(l), None) => hit_material_s(*n.left, ray, itv),
                (None, _) => hit_material_s(*n.right, ray, right_itv),
            }
        },
        Hittable::Translate(t) => {
            let moved = Ray {
                origin: Vec3d {
                    x: (ray.origin.x - t.offset.x) as Fx,
                    y: (ray.origin.y - t.offset.y) as Fx,
                    z: (ray.origin.z - t.offset.z) as Fx,
                },
                direction: ray.direction,
                time: ray.time,
            };
            hit_material_s(*t.object, moved, itv)
        },
        Hittable::RotateY(r) => {
            let sc = r.sin_theta as int;
            let cc = r.cos_theta as int;
            let o = crate::object::instance::rot_in_s(
                sc,
                cc,
                ray.origin.x as int,
                ray.origin.z as int,
            );
            let d = crate::object::instance::rot_in_s(
                sc,
                cc,
                ray.direction.x as int,
                ray.direction.z as int,
            );
            let rotated = Ray {
                origin: Vec3d { x: o.0 as Fx, y: ray.origin.y, z: o.1 as Fx },
                direction: Vec3d { x: d.0 as Fx, y: ray.direction.y, z: d.1 as Fx },
                time: ray.time,
            };
            hit_material_s(*r.object, rotated, itv)
        },
        Hittable::Medium(m) => m.phase_func,
    }
}

/// The material of a list's mirror hit: the material of whichever
/// object's hit survived the nearest-hit fold.
pub open spec fn list_hit_material_s(objs: Seq<Hittable>, ray: Ray, itv: Interval) -> Material
    decreases objs,
{
    if objs.len() == 0 {
        Material::Empty(crate::object::material::Empty {  })
    } else {
        let prefix = list_hit_s(objs.subrange(0, objs.len() - 1), ray, itv);
        let shrunk = Interval {
            min: itv.min,
            max: match prefix {
                Some(d) => d.t,
                None => itv.max,
            },
        };
        match hittable_hit_s(objs[objs.len() - 1], ray, shrunk) {
            Some(d) => hit_material_s(objs[objs.len() - 1], ray, shrunk),
            None => list_hit_material_s(objs.subrange(0, objs.len() - 1), ray, itv),
        }
    }
}

/// On a deterministic tree, the reported material is the mirror's.
pub open spec fn hit_material_post(
    h: Hittable,
    ray: Ray,
    itv: Interval,
    r_mat: Option<Material>,
) -> bool {
    deterministic_s(h) ==> match r_mat {
        Some(m) => m == hit_material_s(h, ray, itv),
        None => true,
    }
}

/// The uniform contract of every intersection query: a reported hit
/// lies inside the closed query interval with a near-unit normal, and
/// on a deterministic tree the result and the generator state are
/// exactly those of the pure mirror.
pub open spec fn hit_post(
    h: Hittable,
    ray: Ray,
    itv: Interval,
    rng0: Prng,
    rng1: Prng,
    r: Option<HitData>,
) -> bool {
    &&& match r {
        Some(d) => itv.min <= d.t <= itv.max && bounded_s(d.normal, 8 * FX_ONE as int),
        None => true,
    }
    &&& (deterministic_s(h) ==> rng1 == rng0 && r == hittable_hit_s(h, ray, itv))
    &&& match h {
        Hittable::Medium(m) => deterministic_s(*m.boundary) ==> r
            == crate::object::medium::medium_hit_s(m, ray, itv, rng0.state) && rng1.state
            == crate::object::medium::medium_state_s(m, ray, itv, rng0.state),
        _ => true,
    }
}

impl Hittable {
    /// The bounding box of the object.
    pub fn bounding_box(&self) -> (r: AABB)
        ensures
            r == bounding_box_s(*self),
        decreases *self,
    {
        match self {
            Hittable::Sphere(s) => s.bounding_box(),
            Hittable::Quad(q) => q.bounding_box(),
            Hittable::List(v) => v.bbox,
            Hittable::Node(n) => n.bbox,
            Hittable::Translate(t) => t.bbox,
            Hittable::RotateY(r) => r.bbox,
            Hittable::Medium(m) => m.boundary.bounding_box(),
        }
    }

    /// Where the ray first strikes the object within the interval, if
    /// anywhere.
    pub fn hit(&self, ray: &Ray, interval: &Interval, rng: &mut Prng) -> (r: Option<HitRecord>)
        requires
            hittable_wf(*self),
            ray_wf(*ray),
        ensures
            hit_post(
                *self,
                *ray,
                *interval,
                *old(rng),
                *final(rng),
                match r {
                    Some(rec) => Some(
                        HitData {
                            t: rec.t,
                            u: rec.u,
                            v: rec.v,
                            point: rec.point,
                            normal: rec.normal,
                            front_face: rec.front_face,
                        },
                    ),
                    None => None,
                },
            ),
            match r {
                Some(rec) => crate::object::material::material_wf(*rec.material),
                None => true,
            },
            hit_material_post(
                *self,
                *ray,
                *interval,
                match r {
                    Some(rec) => Some(*rec.material),
                    None => None::<Material>,
                },
            ),
        decreases *self,
    {
        match self {
            Hittable::Sphere(s) => s.hit(ray, interval),
            Hittable::Quad(q) => q.hit(ray, interval),
            Hittable::List(v) => v.hit(ray, interval, rng),
            Hittable::Node(n) => n.hit(ray, interval, rng),
            Hittable::Translate(t) => t.hit(ray, interval, rng),
            Hittable::RotateY(r) => r.hit(ray, interval, rng),
            Hittable::Medium(m) => m.hit(ray, interval, rng),
        }
    }
}

impl HittableVec {
    /// An empty collection.
    pub fn new() -> (r: HittableVec)
        ensures
            r.objects@.len() == 0,
            r.bbox == crate::object::aabb::aabb_empty_s(),
            hittable_wf(Hittable::List(r)),
    {
        HittableVec { objects: Vec::new(), bbox: AABB::empty() }
    }

    /// Adds an object, growing the aggregate box around its box.
    pub fn add(&mut self, object: Hittable)
        requires
            hittable_wf(Hittable::List(*old(self))),
            hittable_wf(object),
            aabb_bounded_s(bounding_box_s(object), 2 * FX_INF as int),
        ensures
            final(self).objects@ == old(self).objects@.push(object),
            final(self).bbox == crate::object::aabb::aabb_pad_s(
                aabb_union_s(old(self).bbox, bounding_box_s(object)),
            ),
            hittable_wf(Hittable::List(*final(self))),
    {
        let obox = object.bounding_box();
        proof {
            lemma_wf_box_proper(object);
            crate::object::aabb::lemma_union_pad_proper(self.bbox, obox);
        }
        self.bbox = AABB::surrounding_box(&self.bbox, &obox);
        self.objects.push(object);
        proof {
            assert forall|i: int| 0 <= i < self.objects.len() implies hittable_wf(
                #[trigger] self.objects[i],
            ) by {
                if i < old(self).objects.len() {
                    assert(hittable_wf(old(self).objects[i]));
                }
            }
        }
    }

    /// Removes every object; the aggregate box keeps its last value.
    pub fn clear(&mut self)
        requires
            hittable_wf(Hittable::List(*old(self))),
        ensures
            final(self).objects@.len() == 0,
            final(self).bbox == old(self).bbox,
            hittable_wf(Hittable::List(*final(self))),
    {
        self.objects.clear();
    }

    /// The nearest hit over the collection.
    pub fn hit(&self, ray: &Ray, interval: &Interval, rng: &mut Prng) -> (r: Option<HitRecord>)
        requires
            hittable_wf(Hittable::List(*self)),
            ray_wf(*ray),
        ensures
            hit_post(
                Hittable::List(*self),
                *ray,
                *interval,
                *old(rng),
                *final(rng),
                match r {
                    Some(rec) => Some(
                        HitData {
                            t: rec.t,
                            u: rec.u,
                            v: rec.v,
                            point: rec.point,
                            normal: rec.normal,
                            front_face: rec.front_face,
                        },
                    ),
                    None => None,
                },
            ),
            match r {
                Some(rec) => crate::object::material::material_wf(*rec.material),
                None => true,
            },
            hit_material_post(
                Hittable::List(*self),
                *ray,
                *interval,
                match r {
                    Some(rec) => Some(*rec.material),
                    None => None::<Material>,
                },
            ),
        decreases *self,
    {
        let mut hit_record: Option<HitRecord> = None;
        let mut closest_so_far = interval.max;
        let n = self.objects.len();
        let mut i: usize = 0;
        while i < n
            invariant
                hittable_wf(Hittable::List(*self)),
                ray_wf(*ray),
                n == self.objects.len(),
                0 <= i <= n,
                match hit_record {
                    Some(rec) => {
                        &&& closest_so_far == rec.t
                        &&& interval.min <= rec.t <= interval.max
                        &&& bounded_s(rec.normal, 8 * FX_ONE as int)
                        &&& crate::object::material::material_wf(*rec.material)
                    },
                    None => closest_so_far == interval.max,
                },
                deterministic_s(Hittable::List(*self)) ==> match hit_record {
                    Some(rec) => *rec.material == list_hit_material_s(
                        self.objects@.subrange(0, i as int),
                        *ray,
                        *interval,
                    ),
                    None => true,
                },
                deterministic_s(Hittable::List(*self)) ==> *rng == *old(rng) && list_hit_s(
                    self.objects@.subrange(0, i as int),
                    *ray,
                    *interval,
                ) == match hit_record {
                    Some(rec) => Some(
                        HitData {
                            t: rec.t,
                            u: rec.u,
                            v: rec.v,
                            point: rec.point,
                            normal: rec.normal,
                            front_face: rec.front_face,
                        },
                    ),
                    None => None::<HitData>,
                },
            decreases n - i,
        {
            proof {
                assert(hittable_wf(self.objects[i as int]));
            }
            let shrunk = Interval { min: interval.min, max: closest_so_far };
            let this_hit = self.objects[i].hit(ray, &shrunk, rng);
            proof {
                reveal(list_hit_material_s);
                if deterministic_s(Hittable::List(*self)) {
                    assert(deterministic_s(self.objects[i as int]));
                    assert(self.objects@.subrange(0, i + 1).subrange(0, i as int)
                        =~= self.objects@.subrange(0, i as int));
                    assert(self.objects@.subrange(0, i + 1)[i as int] == self.objects[i as int]);
                    assert(self.objects@.subrange(0, i + 1).len() == i + 1);
                }
            }
            proof {
                if deterministic_s(Hittable::List(*self)) {
                    let sub1 = self.objects@.subrange(0, i + 1);
                    assert(sub1[sub1.len() - 1] == self.objects[i as int]);
                    assert(sub1.subrange(0, sub1.len() - 1) =~= self.objects@.subrange(
                        0,
                        i as int,
                    ));
                    let prefix_data = list_hit_s(self.objects@.subrange(0, i as int), *ray, *interval);
                    let shrunk_m = Interval {
                        min: interval.min,
                        max: match prefix_data {
                            Some(d) => d.t,
                            None => interval.max,
                        },
                    };
                    assert(shrunk == shrunk_m);
                    assert(hittable_hit_s(self.objects[i as int], *ray, shrunk) == match &this_hit {
                        Some(rec) => Some(
                            HitData {
                                t: rec.t,
                                u: rec.u,
                                v: rec.v,
                                point: rec.point,
                                normal: rec.normal,
                                front_face: rec.front_face,
                            },
                        ),
                        None => None,
                    });
                    let def_prefix = sub1.subrange(0, sub1.len() - 1);
                    assert(def_prefix == self.objects@.subrange(0, i as int));
                    assert(list_hit_s(def_prefix, *ray, *interval) == prefix_data);
                    assert(Interval {
                        min: interval.min,
                        max: match list_hit_s(def_prefix, *ray, *interval) {
                            Some(d) => d.t,
                            None => interval.max,
                        },
                    } == shrunk_m);
                    match &this_hit {
                        Some(rec) => {
                            assert(*rec.material == hit_material_s(
                                self.objects[i as int],
                                *ray,
                                shrunk,
                            ));
                            assert(hittable_hit_s(sub1[sub1.len() - 1], *ray, shrunk_m) is Some);
                            assert(list_hit_material_s(sub1, *ray, *interval) == hit_material_s(
                                sub1[sub1.len() - 1],
                                *ray,
                                shrunk_m,
                            ));
                            assert(list_hit_material_s(sub1, *ray, *interval) == hit_material_s(
                                self.objects[i as int],
                                *ray,
                                shrunk,
                            ));
                        },
                        None => {
                            assert(hittable_hit_s(sub1[sub1.len() - 1], *ray, shrunk_m) is None);
                            assert(list_hit_material_s(sub1, *ray, *interval)
                                == list_hit_material_s(def_prefix, *ray, *interval));
                            assert(list_hit_material_s(sub1, *ray, *interval)
                                == list_hit_material_s(
                                self.objects@.subrange(0, i as int),
                                *ray,
                                *interval,
                            ));
                        },
                    }
                }
            }
            if let Some(rec) = this_hit {
                closest_so_far = rec.t;
                hit_record = Some(rec);
            }
            i = i + 1;
        }
        proof {
            if deterministic_s(Hittable::List(*self)) {
                assert(self.objects@.subrange(0, n as int) =~= self.objects@);
            }
        }
        hit_record
    }
}

/// The sort key of an object on an axis: the lower bound of its box.
pub open spec fn axis_key_s(h: Hittable, axis: int) -> int {
    bounding_box_s(h).axis_interval_s(axis).min as int
}

/// The first `n` objects are ordered by their box minima on the axis.
pub open spec fn sorted_prefix_s(objs: Seq<Hittable>, n: int, axis: int) -> bool {
    forall|i: int, j: int|
        0 <= i < j < n ==> axis_key_s(#[trigger] objs[i], axis) <= axis_key_s(
            #[trigger] objs[j],
            axis,
        )
}

/// The objects are ordered by their box minima along the axis.
pub open spec fn sorted_by_axis_s(objs: Seq<Hittable>, axis: int) -> bool {
    sorted_prefix_s(objs, objs.len() as int, axis)
}

/// Stable insertion of an object into a run: it lands after every
/// element whose key is at or below its own, so equal keys keep their
/// arrival order.
#[verifier::opaque]
pub open spec fn stable_insert_s(s: Seq<Hittable>, x: Hittable, axis: int) -> Seq<Hittable>
    decreases s.len(),
{
    if s.len() == 0 || axis_key_s(s.last(), axis) <= axis_key_s(x, axis) {
        s.push(x)
    } else {
        stable_insert_s(s.drop_last(), x, axis).push(s.last())
    }
}

/// The stable insertion sort by box minima along an axis: each object
/// in arrival order is stably inserted into the sorted run.
#[verifier::opaque]
pub open spec fn stable_sort_s(s: Seq<Hittable>, axis: int) -> Seq<Hittable>
    decreases s.len(),
{
    if s.len() == 0 {
        Seq::empty()
    } else {
        stable_insert_s(stable_sort_s(s.drop_last(), axis), s.last(), axis)
    }
}

/// Inserting at the found position is the stable insertion: everything
/// from the position on has a strictly greater key, and the element
/// just before does not.
proof fn lemma_stable_insert_at(s: Seq<Hittable>, x: Hittable, j: int, axis: int)
    requires
        0 <= j <= s.len(),
        forall|k: int| j <= k < s.len() ==> axis_key_s(#[trigger] s[k], axis) > axis_key_s(x, axis),
        j > 0 ==> axis_key_s(s[j - 1], axis) <= axis_key_s(x, axis),
    ensures
        stable_insert_s(s, x, axis) == s.insert(j, x),
    decreases s.len(),
{
    reveal(stable_insert_s);
    if j == s.len() {
        assert(s.insert(j, x) =~= s.push(x));
    } else {
        assert(axis_key_s(s.last(), axis) > axis_key_s(x, axis));
        let sp = s.drop_last();
        lemma_stable_insert_at(sp, x, j, axis);
        assert(s.insert(j, x) =~= sp.insert(j, x).push(s.last()));
    }
}

/// Stable insertion sort of objects by their box minima along an axis.
#[verifier::rlimit(100)]
#[verifier::spinoff_prover]
fn sort_by_axis(objects: Vec<Hittable>, axis: usize) -> (r: Vec<Hittable>)
    requires
        axis < 3,
        forall|i: int| 0 <= i < objects.len() ==> hittable_wf(#[trigger] objects[i]),
    ensures
        r.len() == objects.len(),
        forall|i: int| 0 <= i < r.len() ==> hittable_wf(#[trigger] r[i]),
        sorted_by_axis_s(r@, axis as int),
        r@.to_multiset() == objects@.to_multiset(),
        r@ == stable_sort_s(objects@, axis as int),
{
    proof {
        broadcast use vstd::seq_lib::group_to_multiset_ensures;

        reveal(stable_insert_s);
        reveal(stable_sort_s);
    }
    let ghost orig = objects@;
    let mut v = objects;
    if v.len() <= 1 {
        proof {
            if orig.len() == 1 {
                assert(orig.drop_last() =~= Seq::<Hittable>::empty());
                assert(stable_sort_s(Seq::<Hittable>::empty(), axis as int)
                    =~= Seq::<Hittable>::empty());
                assert(stable_sort_s(orig, axis as int) == stable_insert_s(
                    stable_sort_s(orig.drop_last(), axis as int),
                    orig.last(),
                    axis as int,
                ));
                assert(stable_sort_s(orig, axis as int) =~= orig);
            } else {
                assert(stable_sort_s(orig, axis as int) =~= orig);
            }
        }
        return v;
    }
    proof {
        assert(orig.subrange(0, 1).drop_last() =~= Seq::<Hittable>::empty());
        assert(orig.subrange(0, 1).last() == orig[0]);
        assert(stable_sort_s(Seq::<Hittable>::empty(), axis as int)
            =~= Seq::<Hittable>::empty());
        assert(stable_sort_s(orig.subrange(0, 1), axis as int) == stable_insert_s(
            stable_sort_s(orig.subrange(0, 1).drop_last(), axis as int),
            orig[0],
            axis as int,
        ));
        assert(stable_sort_s(orig.subrange(0, 1), axis as int) =~= orig.subrange(0, 1));
        assert(v@.subrange(0, 1) =~= orig.subrange(0, 1));
        assert(v@.subrange(1, v@.len() as int) =~= orig.subrange(1, orig.len() as int));
    }
    let mut i: usize = 1;
    while i < v.len()
        invariant
            1 <= i <= v.len(),
            v.len() == orig.len(),
            axis < 3,
            forall|k: int| 0 <= k < v.len() ==> hittable_wf(#[trigger] v[k]),
            sorted_prefix_s(v@, i as int, axis as int),
            v@.to_multiset() == orig.to_multiset(),
            v@.subrange(0, i as int) == stable_sort_s(orig.subrange(0, i as int), axis as int),
            v@.subrange(i as int, v@.len() as int) =~= orig.subrange(
                i as int,
                orig.len() as int,
            ),
        decreases v.len() - i,
    {
        proof {
            broadcast use vstd::seq_lib::group_to_multiset_ensures;

        }
        let ghost pre = v@;
        let x = v.remove(i);
        proof {
            assert forall|k: int| 0 <= k < v.len() implies hittable_wf(#[trigger] v[k]) by {
                if k < i {
                    assert(v[k] == pre[k]);
                } else {
                    assert(v[k] == pre[k + 1]);
                }
            }
            assert forall|a: int, b: int| 0 <= a < b < i implies axis_key_s(
                #[trigger] v@[a],
                axis as int,
            ) <= axis_key_s(#[trigger] v@[b], axis as int) by {
                assert(v@[a] == pre[a]);
                assert(v@[b] == pre[b]);
            }
        }
        let mut j: usize = i;
        while j > 0 && key_of(&v[j - 1], axis) > key_of(&x, axis)
            invariant
                0 <= j <= i,
                i < orig.len(),
                v.len() == orig.len() - 1,
                axis < 3,
                hittable_wf(x),
                forall|k: int| 0 <= k < v.len() ==> hittable_wf(#[trigger] v[k]),
                sorted_prefix_s(v@, i as int, axis as int),
                forall|k: int|
                    j <= k < i ==> axis_key_s(#[trigger] v@[k], axis as int) > axis_key_s(
                        x,
                        axis as int,
                    ),
            decreases j,
        {
            j = j - 1;
        }
        let ghost before = v@;
        v.insert(j, x);
        proof {
            assert(v@.remove(j as int) =~= before);
            assert(v@.to_multiset().remove(x) =~= before.to_multiset());
            assert(v@[j as int] == x);
            assert(v@.to_multiset().contains(x));
            assert(v@.to_multiset() =~= before.to_multiset().insert(x));
            assert(before.to_multiset() =~= orig.to_multiset().remove(pre[i as int]));
            assert(v@.to_multiset() =~= orig.to_multiset());
            assert forall|a: int, b: int| 0 <= a < b < i + 1 implies axis_key_s(
                #[trigger] v@[a],
                axis as int,
            ) <= axis_key_s(#[trigger] v@[b], axis as int) by {
                let jj = j as int;
                if a < jj {
                    assert(v@[a] == before[a]);
                } else if a > jj {
                    assert(v@[a] == before[a - 1]);
                }
                if b < jj {
                    assert(v@[b] == before[b]);
                } else if b > jj {
                    assert(v@[b] == before[b - 1]);
                }
                if a < jj && b == jj {
                    assert(axis_key_s(before[jj - 1], axis as int) <= axis_key_s(
                        x,
                        axis as int,
                    ));
                    if a < jj - 1 {
                        assert(axis_key_s(before[a], axis as int) <= axis_key_s(
                            before[jj - 1],
                            axis as int,
                        ));
                    }
                }
                if a == jj && b > jj {
                    assert(axis_key_s(before[b - 1], axis as int) > axis_key_s(x, axis as int));
                }
            }
            lemma_sort_step(
                orig,
                pre,
                before,
                v@,
                x,
                i as int,
                j as int,
                axis as int,
            );
        }
        i = i + 1;
    }
    proof {
        assert(v@.subrange(0, v@.len() as int) =~= v@);
        assert(orig.subrange(0, orig.len() as int) =~= orig);
    }
    v
}

/// One pass of the insertion sort advances the stable-sort mirror: the
/// freshly inserted prefix is the stable sort of one more arrival, and
/// the tail beyond it is untouched.
proof fn lemma_sort_step(
    orig: Seq<Hittable>,
    pre: Seq<Hittable>,
    before: Seq<Hittable>,
    vafter: Seq<Hittable>,
    x: Hittable,
    ii: int,
    jj: int,
    axis: int,
)
    requires
        1 <= ii < orig.len(),
        0 <= jj <= ii,
        pre.len() == orig.len(),
        pre.subrange(0, ii) == stable_sort_s(orig.subrange(0, ii), axis),
        pre.subrange(ii, pre.len() as int) =~= orig.subrange(ii, orig.len() as int),
        x == pre[ii],
        before == pre.remove(ii),
        vafter == before.insert(jj, x),
        forall|k: int| jj <= k < ii ==> axis_key_s(#[trigger] before[k], axis) > axis_key_s(x, axis),
        jj > 0 ==> axis_key_s(before[jj - 1], axis) <= axis_key_s(x, axis),
    ensures
        vafter.subrange(0, ii + 1) == stable_sort_s(orig.subrange(0, ii + 1), axis),
        vafter.subrange(ii + 1, vafter.len() as int) =~= orig.subrange(
            ii + 1,
            orig.len() as int,
        ),
{
    reveal(stable_insert_s);
    reveal(stable_sort_s);
    assert(pre.subrange(ii, pre.len() as int)[0] == orig.subrange(ii, orig.len() as int)[0]);
    assert(x == orig[ii]);
    assert(before.subrange(0, ii) =~= pre.subrange(0, ii));
    assert forall|k: int|
        jj <= k < ii implies axis_key_s(#[trigger] before.subrange(0, ii)[k], axis)
        > axis_key_s(x, axis) by {
        assert(before.subrange(0, ii)[k] == before[k]);
    }
    if jj > 0 {
        assert(before.subrange(0, ii)[jj - 1] == before[jj - 1]);
    }
    lemma_stable_insert_at(before.subrange(0, ii), x, jj, axis);
    assert(orig.subrange(0, ii + 1).drop_last() =~= orig.subrange(0, ii));
    assert(orig.subrange(0, ii + 1).last() == orig[ii]);
    assert(stable_sort_s(orig.subrange(0, ii + 1), axis) == stable_insert_s(
        stable_sort_s(orig.subrange(0, ii), axis),
        orig[ii],
        axis,
    ));
    assert(before.subrange(0, ii).insert(jj, x) =~= before.subrange(0, jj) + seq![x]
        + before.subrange(jj, ii));
    assert(vafter =~= before.subrange(0, jj) + seq![x] + before.subrange(
        jj,
        before.len() as int,
    ));
    assert forall|p: int| 0 <= p < ii + 1 implies #[trigger] vafter.subrange(0, ii + 1)[p]
        == before.subrange(0, ii).insert(jj, x)[p] by {
        if p < jj {
            assert(vafter[p] == before[p]);
        } else if p == jj {
            assert(vafter[p] == x);
        } else {
            assert(vafter[p] == before[p - 1]);
        }
    }
    assert(vafter.subrange(0, ii + 1) =~= before.subrange(0, ii).insert(jj, x));
    assert forall|p: int| ii + 1 <= p < vafter.len() implies #[trigger] vafter[p] == orig[p] by {
        assert(vafter[p] == before[p - 1]);
        assert(before[p - 1] == pre[p]);
        assert(pre.subrange(ii, pre.len() as int)[p - ii] == orig.subrange(
            ii,
            orig.len() as int,
        )[p - ii]);
    }
    assert(vafter.subrange(ii + 1, vafter.len() as int) =~= orig.subrange(
        ii + 1,
        orig.len() as int,
    ));
}

/// The sort key of an object on an axis.
fn key_of(h: &Hittable, axis: usize) -> (r: Fx)
    requires
        axis < 3,
    ensures
        r as int == axis_key_s(*h, axis as int),
{
    let b = h.bounding_box();
    b.axis_interval(axis).min
}

impl BVHNode {
    /// The spatial index over a whole collection: its leaves are the
    /// collection's objects and its root box is the union of their
    /// boxes.
    pub fn from_hittable_vec(hittable_vec: HittableVec) -> (r: BVHNode)
        requires
            hittable_wf(Hittable::List(hittable_vec)),
            hittable_vec.objects.len() >= 1,
            forall|i: int|
                0 <= i < hittable_vec.objects.len() ==> aabb_valid(
                    bounding_box_s(#[trigger] hittable_vec.objects[i]),
                ),
            boxes_in_range_s(hittable_vec.objects@),
        ensures
            hittable_wf(Hittable::Node(r)),
            aabb_valid(r.bbox),
            r.bbox == boxes_union_s(hittable_vec.objects@),
            (forall|k: int|
                !((#[trigger] hittable_vec.objects@[k]) is Node) || !(0 <= k
                < hittable_vec.objects@.len())) ==> (forall|x: Hittable|
                leaves_s(Hittable::Node(r)).contains(x) <==> hittable_vec.objects@.contains(x)),
            hittable_vec.objects@.len() == 1 ==> *r.left == hittable_vec.objects@[0] && *r.right
                == hittable_vec.objects@[0],
    {
        let len = hittable_vec.objects.len();
        proof {
            assert(hittable_vec.objects@.subrange(0, len as int) =~= hittable_vec.objects@);
        }
        BVHNode::new(hittable_vec.objects, 0, len)
    }

    /// The spatial index over the range `[start, end)` of a collection:
    /// its leaves are the range's objects and its root box is the union
    /// of their boxes.  An empty range is a configuration error the
    /// caller must rule out.
    pub fn new(hittable_vec: Vec<Hittable>, start: usize, end: usize) -> (r: BVHNode)
        requires
            start < end <= hittable_vec.len(),
            forall|i: int| 0 <= i < hittable_vec.len() ==> hittable_wf(#[trigger] hittable_vec[i]),
            forall|i: int|
                0 <= i < hittable_vec.len() ==> aabb_valid(
                    bounding_box_s(#[trigger] hittable_vec[i]),
                ),
            boxes_in_range_s(hittable_vec@),
        ensures
            hittable_wf(Hittable::Node(r)),
            aabb_valid(r.bbox),
            r.bbox == boxes_union_s(hittable_vec@.subrange(start as int, end as int)),
            (forall|k: int| !((#[trigger] hittable_vec@[k]) is Node) || !(start <= k < end))
                ==> (forall|x: Hittable|
                leaves_s(Hittable::Node(r)).contains(x) <==> hittable_vec@.subrange(
                    start as int,
                    end as int,
                ).contains(x)),
            end - start == 1 ==> *r.left == hittable_vec@[start as int] && *r.right
                == hittable_vec@[start as int],
    {
        let ghost orig = hittable_vec@;
        let mut range: Vec<Hittable> = Vec::new();
        let mut v = hittable_vec;
        let mut k: usize = 0;
        while k < end - start
            invariant
                start < end <= orig.len(),
                range.len() == k,
                k <= end - start,
                start + (end - start - k) <= v.len(),
                range@ =~= orig.subrange(start as int, start + k as int),
                v@ =~= orig.subrange(0, start as int) + orig.subrange(
                    start + k as int,
                    orig.len() as int,
                ),
                forall|m: int| 0 <= m < orig.len() ==> hittable_wf(#[trigger] orig[m]),
                forall|m: int|
                    0 <= m < orig.len() ==> aabb_valid(bounding_box_s(#[trigger] orig[m])),
                boxes_in_range_s(orig),
            decreases end - start - k,
        {
            let ghost before = v@;
            let x = v.remove(start);
            proof {
                assert(before[start as int] == orig[start + k as int]);
                assert(v@ =~= orig.subrange(0, start as int) + orig.subrange(
                    start + k + 1 as int,
                    orig.len() as int,
                ));
                assert(range@.push(x) =~= orig.subrange(start as int, start + k + 1 as int));
            }
            range.push(x);
            k = k + 1;
        }
        proof {
            assert(range@ =~= orig.subrange(start as int, end as int));
            assert forall|m: int| 0 <= m < range@.len() implies hittable_wf(#[trigger] range@[m])
                && aabb_valid(bounding_box_s(range@[m])) && aabb_bounded_s(
                bounding_box_s(range@[m]),
                FX_INF as int,
            ) by {
                assert(range@[m] == orig[start + m]);
            }
        }
        let r = BVHNode::build(range);
        proof {
            assert forall|m: int|
                !((#[trigger] orig[m]) is Node) || !(start <= m < end) implies !((
            orig.subrange(start as int, end as int)[m - start]) is Node) || !(0 <= m - start < end
                - start) by {}
            if forall|m: int| !((#[trigger] orig[m]) is Node) || !(start <= m < end) {
                assert forall|m: int|
                    !((#[trigger] orig.subrange(start as int, end as int)[m]) is Node) || !(0 <= m
                    < orig.subrange(start as int, end as int).len()) by {
                    if 0 <= m < end - start {
                        assert(orig.subrange(start as int, end as int)[m] == orig[start + m]);
                        assert(!((orig[start + m]) is Node) || !(start <= start + m < end));
                    }
                }
            }
        }
        r
    }

    /// Builds the index over a non-empty set of objects: unions their
    /// boxes, picks the longest axis, and splits the objects, sorted by
    /// their box minima on that axis, at the midpoint.  The tree's
    /// leaves are exactly the given objects and the root box is the
    /// union of their boxes.
    #[verifier::rlimit(100)]
    #[verifier::spinoff_prover]
    fn build(objects: Vec<Hittable>) -> (r: BVHNode)
        requires
            objects.len() >= 1,
            forall|i: int| 0 <= i < objects.len() ==> hittable_wf(#[trigger] objects[i]),
            forall|i: int|
                0 <= i < objects.len() ==> aabb_valid(bounding_box_s(#[trigger] objects[i])),
            boxes_in_range_s(objects@),
        ensures
            hittable_wf(Hittable::Node(r)),
            aabb_valid(r.bbox),
            aabb_bounded_s(r.bbox, FX_INF as int),
            r.bbox == boxes_union_s(objects@),
            (forall|k: int| !((#[trigger] objects@[k]) is Node) || !(0 <= k < objects@.len()))
                ==> (forall|x: Hittable|
                leaves_s(Hittable::Node(r)).contains(x) <==> objects@.contains(x)),
            objects@.len() == 1 ==> *r.left == objects@[0] && *r.right == objects@[0],
            objects@.len() == 2 ==> *r.left == objects@[0] && *r.right == objects@[1],
            objects@.len() >= 3 ==> (*r.left) is Node && (*r.right) is Node,
            objects@.len() >= 3 && (forall|k: int|
                !((#[trigger] objects@[k]) is Node) || !(0 <= k < objects@.len())) ==> (forall|
                x: Hittable,
                y: Hittable,
            |
                leaves_s(*r.left).contains(x) && leaves_s(*r.right).contains(y)
                    ==> #[trigger] axis_key_s(x, boxes_union_s(objects@).longest_axis_s())
                    <= #[trigger] axis_key_s(y, boxes_union_s(objects@).longest_axis_s())),
        decreases objects.len(),
    {
        proof {
            broadcast use vstd::seq_lib::group_to_multiset_ensures;
            broadcast use vstd::seq_lib::lemma_multiset_commutative;

        }
        let mut bbox = AABB::empty();
        let mut i: usize = 0;
        while i < objects.len()
            invariant
                0 <= i <= objects.len(),
                forall|k: int| 0 <= k < objects.len() ==> hittable_wf(#[trigger] objects[k]),
                forall|k: int|
                    0 <= k < objects.len() ==> aabb_valid(bounding_box_s(#[trigger] objects[k])),
                boxes_in_range_s(objects@),
                crate::object::aabb::aabb_proper(bbox),
                aabb_bounded_s(bbox, FX_INF as int),
                bbox == boxes_union_s(objects@.subrange(0, i as int)),
            decreases objects.len() - i,
        {
            let ob = objects[i].bounding_box();
            proof {
                assert(hittable_wf(objects[i as int]));
                lemma_wf_box_proper(objects[i as int]);
                crate::object::aabb::lemma_union_pad_proper(bbox, ob);
                assert(objects@.subrange(0, i + 1).drop_last() =~= objects@.subrange(0, i as int));
                assert(objects@.subrange(0, i + 1).last() == objects@[i as int]);
                if i == 0 {
                    assert(aabb_bounded_s(ob, FX_INF as int));
                }
            }
            bbox = AABB::surrounding_box(&bbox, &ob);
            i = i + 1;
        }
        proof {
            assert(objects@.subrange(0, objects.len() as int) =~= objects@);
        }
        let axis = bbox.longest_axis();
        let object_span = objects.len();
        if object_span == 1 {
            let mut v = objects;
            let only = v.pop().unwrap();
            let obox = only.bounding_box();
            let joined = AABB::surrounding_box(&obox, &obox);
            let shared = Arc::new(only);
            let other = share(&shared);
            let ghost objs = objects@;
            proof {
                assert(objs =~= seq![only]);
                assert(aabb_union_s(obox, obox) == obox);
                assert(crate::object::aabb::aabb_pad_s(obox) == obox);
                assert(boxes_union_s(objs) == obox);
                if forall|k: int| !((#[trigger] objs[k]) is Node) || !(0 <= k < objs.len()) {
                    assert(!(objs[0] is Node));
                    assert(leaves_s(only) =~= seq![only]);
                    assert forall|x: Hittable| (leaves_s(only) + leaves_s(only)).contains(x)
                        <==> objs.contains(x) by {
                        if (leaves_s(only) + leaves_s(only)).contains(x) {
                            let idx = choose|idx: int|
                                0 <= idx < (leaves_s(only) + leaves_s(only)).len() && (leaves_s(
                                    only,
                                ) + leaves_s(only))[idx] == x;
                            assert(x == only);
                            assert(objs[0] == x);
                        }
                        if objs.contains(x) {
                            assert(x == only);
                            assert((leaves_s(only) + leaves_s(only))[0] == x);
                        }
                    }
                }
            }
            BVHNode { left: shared, right: other, bbox: joined }
        } else if object_span == 2 {
            let mut v = objects;
            let b = v.pop().unwrap();
            let a = v.pop().unwrap();
            let abox = a.bounding_box();
            let bbox2 = b.bounding_box();
            let joined = AABB::surrounding_box(&abox, &bbox2);
            let ghost objs = objects@;
            proof {
                broadcast use vstd::seq_lib::group_to_multiset_ensures;
                broadcast use vstd::seq_lib::lemma_multiset_commutative;

                assert(objs =~= seq![a, b]);
                assert(objs.drop_last() =~= seq![a]);
                assert(boxes_union_s(seq![a]) == abox);
                assert(boxes_union_s(objs) == aabb_union_s(abox, bbox2));
                assert(crate::object::aabb::aabb_pad_s(aabb_union_s(abox, bbox2))
                    == aabb_union_s(abox, bbox2));
                if forall|k: int| !((#[trigger] objs[k]) is Node) || !(0 <= k < objs.len()) {
                    assert(!(objs[0] is Node) && !(objs[1] is Node));
                    assert(leaves_s(a) =~= seq![a]);
                    assert(leaves_s(b) =~= seq![b]);
                    assert((seq![a] + seq![b]) =~= objs);
                }
            }
            BVHNode { left: Arc::new(a), right: Arc::new(b), bbox: joined }
        } else {
            let ghost objs = objects@;
            let sorted = sort_by_axis(objects, axis);
            let ghost sorted0 = sorted@;
            proof {
                broadcast use vstd::seq_lib::group_to_multiset_ensures;

                assert forall|k: int| 0 <= k < sorted.len() implies aabb_valid(
                    bounding_box_s(#[trigger] sorted[k]),
                ) && aabb_bounded_s(bounding_box_s(sorted[k]), FX_INF as int) by {
                    assert(sorted@.to_multiset().contains(sorted@[k]));
                }
                lemma_boxes_union_permutation(objs, sorted@);
            }
            let mid = object_span / 2;
            let mut left_half = sorted;
            let right_half = left_half.split_off(mid);
            proof {
                assert(left_half@ + right_half@ =~= sorted0);
                lemma_boxes_union_append(left_half@, right_half@);
            }
            let ghost sorted_view = left_half@ + right_half@;
            let left_node = BVHNode::build(left_half);
            let right_node = BVHNode::build(right_half);
            let joined = AABB::surrounding_box(&left_node.bbox, &right_node.bbox);
            proof {
                if forall|k: int| !((#[trigger] objs[k]) is Node) || !(0 <= k < objs.len()) {
                    assert forall|k: int|
                        !((#[trigger] sorted_view[k]) is Node) || !(0 <= k
                        < sorted_view.len()) by {
                        if 0 <= k < sorted_view.len() {
                            assert(sorted_view.to_multiset().contains(sorted_view[k]));
                            assert(objs.to_multiset().contains(sorted_view[k]));
                            assert(objs.contains(sorted_view[k]));
                            let j = choose|j: int|
                                0 <= j < objs.len() && objs[j] == sorted_view[k];
                            assert(!(objs[j] is Node));
                        }
                    }
                    assert forall|k: int|
                        !((#[trigger] left_half@[k]) is Node) || !(0 <= k
                        < left_half@.len()) by {
                        if 0 <= k < left_half@.len() {
                            assert(sorted_view[k] == left_half@[k]);
                        }
                    }
                    assert forall|k: int|
                        !((#[trigger] right_half@[k]) is Node) || !(0 <= k
                        < right_half@.len()) by {
                        if 0 <= k < right_half@.len() {
                            assert(sorted_view[left_half@.len() + k] == right_half@[k]);
                        }
                    }
                    let ll = leaves_s(Hittable::Node(left_node));
                    let rr = leaves_s(Hittable::Node(right_node));
                    assert forall|x: Hittable| (ll + rr).contains(x) <==> objs.contains(x) by {
                        if (ll + rr).contains(x) {
                            let idx = choose|idx: int|
                                0 <= idx < (ll + rr).len() && (ll + rr)[idx] == x;
                            if idx < ll.len() {
                                assert(ll[idx] == x);
                                assert(ll.contains(x));
                                assert(left_half@.contains(x));
                                let k = choose|k: int|
                                    0 <= k < left_half@.len() && left_half@[k] == x;
                                assert(sorted_view[k] == x);
                                assert(sorted_view.to_multiset().contains(x));
                                assert(objs.to_multiset().contains(x));
                                assert(objs.contains(x));
                            } else {
                                assert(rr[idx - ll.len()] == x);
                                assert(rr.contains(x));
                                assert(right_half@.contains(x));
                                let k = choose|k: int|
                                    0 <= k < right_half@.len() && right_half@[k] == x;
                                assert(sorted_view[left_half@.len() + k] == x);
                                assert(sorted_view.to_multiset().contains(x));
                                assert(objs.to_multiset().contains(x));
                                assert(objs.contains(x));
                            }
                        }
                        if objs.contains(x) {
                            assert(objs.to_multiset().contains(x));
                            assert(sorted_view.to_multiset().contains(x));
                            assert(sorted_view.contains(x));
                            let k = choose|k: int|
                                0 <= k < sorted_view.len() && sorted_view[k] == x;
                            if k < left_half@.len() {
                                assert(left_half@[k] == x);
                                assert(left_half@.contains(x));
                                assert(ll.contains(x));
                                let m = choose|m: int| 0 <= m < ll.len() && ll[m] == x;
                                assert((ll + rr)[m] == x);
                            } else {
                                assert(right_half@[k - left_half@.len()] == x);
                                assert(right_half@.contains(x));
                                assert(rr.contains(x));
                                let m = choose|m: int| 0 <= m < rr.len() && rr[m] == x;
                                assert((ll + rr)[ll.len() + m] == x);
                            }
                        }
                    }
                }
            }
            proof {
                broadcast use vstd::seq_lib::group_to_multiset_ensures;

                if forall|k: int| !((#[trigger] objs[k]) is Node) || !(0 <= k < objs.len()) {
                    assert(left_half@.to_multiset().len() == left_half@.len());
                    let ax = boxes_union_s(objs).longest_axis_s();
                    assert(sorted_by_axis_s(sorted0, ax));
                    assert forall|x: Hittable, y: Hittable|
                        leaves_s(Hittable::Node(left_node)).contains(x) && leaves_s(
                            Hittable::Node(right_node),
                        ).contains(y) implies #[trigger] axis_key_s(x, ax) <= #[trigger] axis_key_s(
                        y,
                        ax,
                    ) by {
                        assert(left_half@.contains(x));
                        assert(right_half@.contains(y));
                        let ix = choose|ix: int|
                            0 <= ix < left_half@.len() && left_half@[ix] == x;
                        let iy = choose|iy: int|
                            0 <= iy < right_half@.len() && right_half@[iy] == y;
                        assert(sorted0[ix] == x);
                        assert(sorted0[left_half@.len() + iy] == y);
                    }
                }
            }
            BVHNode {
                left: Arc::new(Hittable::Node(left_node)),
                right: Arc::new(Hittable::Node(right_node)),
                bbox: joined,
            }
        }
    }

    /// The traversal: prune by the node's box, query the left child,
    /// shrink the interval to its hit, query the right child, and
    /// report the nearer hit.
    pub fn hit(&self, ray: &Ray, interval: &Interval, rng: &mut Prng) -> (r: Option<HitRecord>)
        requires
            hittable_wf(Hittable::Node(*self)),
            ray_wf(*ray),
        ensures
            hit_post(
                Hittable::Node(*self),
                *ray,
                *interval,
                *old(rng),
                *final(rng),
                match r {
                    Some(rec) => Some(
                        HitData {
                            t: rec.t,
                            u: rec.u,
                            v: rec.v,
                            point: rec.point,
                            normal: rec.normal,
                            front_face: rec.front_face,
                        },
                    ),
                    None => None,
                },
            ),
            match r {
                Some(rec) => crate::object::material::material_wf(*rec.material),
                None => true,
            },
            hit_material_post(
                Hittable::Node(*self),
                *ray,
                *interval,
                match r {
                    Some(rec) => Some(*rec.material),
                    None => None::<Material>,
                },
            ),
        decreases *self,
    {
        if !self.bbox.hit(ray, interval) {
            return None;
        }
        let hit_left = self.left.hit(ray, interval, rng);
        let right_interval = Interval {
            min: interval.min,
            max: match &hit_left {
                Some(rec) => rec.t,
                None => interval.max,
            },
        };
        let hit_right = self.right.hit(ray, &right_interval, rng);
        match (hit_left, hit_right) {
            (Some(l), Some(r)) => if l.t < r.t {
                Some(l)
            } else {
                Some(r)
            },
            (Some(l), None) => Some(l),
            (None, r) => r,
        }
    }

    /// The node's bounding box.
    pub fn bounding_box(&self) -> (r: AABB)
        ensures
            r == self.bbox,
    {
        self.bbox
    }
}

/// The spatial index's central invariant, recursively: in a well-formed
/// tree, every index node's bounding box is the exact union of its two
/// children's bounding boxes.
pub proof fn lemma_node_box_is_union_of_children(n: BVHNode)
    requires
        hittable_wf(Hittable::Node(n)),
    ensures
        n.bbox == aabb_union_s(bounding_box_s(*n.left), bounding_box_s(*n.right)),
        aabb_contains_aabb(n.bbox, bounding_box_s(*n.left)),
        aabb_contains_aabb(n.bbox, bounding_box_s(*n.right)),
        hittable_wf(*n.left),
        hittable_wf(*n.right),
{
}

} // verus!
