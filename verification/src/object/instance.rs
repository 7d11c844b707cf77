//! Spatial transforms: pass-through decorators that move the ray into
//! object space and the resulting hit back out.

use crate::fixed::abs_i;
use crate::fixed::fx_in_range;
use crate::fixed::fx_min;
use crate::fixed::fx_max;
use crate::fixed::fx_mul;
use crate::fixed::fx_mul_s;
use crate::fixed::Fx;
use crate::fixed::FX_MUL_LIM;
use crate::fixed::FX_ONE;
use crate::fxmath::fx_cos;
use crate::fxmath::fx_cos_s;
use crate::fxmath::fx_sin;
use crate::fxmath::fx_sin_s;
use crate::object::aabb::aabb_bounded_s;
use crate::object::aabb::aabb_shift_s;
use crate::object::aabb::aabb_valid;
use crate::object::aabb::AABB;
use crate::object::hit::bounding_box_s;
use crate::object::hit::hittable_hit_s;
use crate::object::hit::hittable_wf;
use crate::object::hit::hit_post;
use crate::object::hit::ray_wf;
use crate::object::hit::HitData;
use crate::object::hit::HitRecord;
use crate::object::hit::Hittable;
use crate::ray::Interval;
use crate::ray::Ray;
use crate::ray::FX_INF;
use crate::rng::Prng;
use crate::vec3d::bounded_s;
use crate::vec3d::Vec3d;
use crate::vec3d::GEOM_LIM;
use crate::vec3d::VEC_LIM;
use vstd::prelude::*;

verus! {

/// Degrees to radians, in fixed-point form: pi over 180.
pub const FX_DEG2RAD: i128 = 1144;

/// An object shifted by a fixed offset.
pub struct Translate {
    pub offset: Vec3d,
    pub object: Box<Hittable>,
    pub bbox: AABB,
}

/// What a translated intersection query answers: the ray shifted
/// backward, the wrapped object queried, and the hit point shifted
/// forward again.  A shift that leaves numeric range answers "no hit".
pub open spec fn translate_hit_s(t: Translate, ray: Ray, itv: Interval) -> Option<HitData>
    decreases t,
{
    let moved = Ray {
        origin: Vec3d {
            x: (ray.origin.x - t.offset.x) as Fx,
            y: (ray.origin.y - t.offset.y) as Fx,
            z: (ray.origin.z - t.offset.z) as Fx,
        },
        direction: ray.direction,
        time: ray.time,
    };
    if !bounded_s(moved.origin, VEC_LIM as int) {
        None
    } else {
        match hittable_hit_s(*t.object, moved, itv) {
            Some(d) => if !bounded_s(d.point, FX_INF as int) {
                None
            } else {
                Some(
                    HitData {
                        point: Vec3d {
                            x: (d.point.x + t.offset.x) as Fx,
                            y: (d.point.y + t.offset.y) as Fx,
                            z: (d.point.z + t.offset.z) as Fx,
                        },
                        ..d
                    },
                )
            },
            None => None,
        }
    }
}

impl Translate {
    /// A translated object; the box moves with it.
    pub fn new(object: Hittable, offset: Vec3d) -> (r: Translate)
        requires
            hittable_wf(object),
            bounded_s(offset, GEOM_LIM as int),
            aabb_bounded_s(bounding_box_s(object), FX_INF as int),
            aabb_valid(bounding_box_s(object)),
        ensures
            r.offset == offset,
            r.object == Box::new(object),
            r.bbox == aabb_shift_s(bounding_box_s(object), offset),
            hittable_wf(Hittable::Translate(r)),
    {
        let bbox = object.bounding_box().shift(&offset);
        Translate { offset, object: Box::new(object), bbox }
    }

    /// Where the shifted ray strikes the wrapped object, shifted back.
    pub fn hit(&self, ray: &Ray, interval: &Interval, rng: &mut Prng) -> (r: Option<HitRecord>)
        requires
            hittable_wf(Hittable::Translate(*self)),
            ray_wf(*ray),
        ensures
            hit_post(
                Hittable::Translate(*self),
                *ray,
                *interval,
                *old(rng),
                *final(rng),
                match r {
                    Some(rec) => Some(
                        HitData {
                            t: rec.t,
                            u: rec.u,
                            v: rec.v,
                            point: rec.point,
                            normal: rec.normal,
                            front_face: rec.front_face,
                        },
                    ),
                    None => None,
                },
            ),
            match r {
                Some(rec) => crate::object::material::material_wf(*rec.material),
                None => true,
            },
            crate::object::hit::hit_material_post(
                Hittable::Translate(*self),
                *ray,
                *interval,
                match r {
                    Some(rec) => Some(*rec.material),
                    None => None::<crate::object::material::Material>,
                },
            ),
        decreases *self,
    {
        let moved_origin = ray.origin.sub(&self.offset);
        if !(fx_in_range(moved_origin.x, VEC_LIM) && fx_in_range(moved_origin.y, VEC_LIM)
            && fx_in_range(moved_origin.z, VEC_LIM)) {
            return None;
        }
        let offset_ray = Ray::new(moved_origin, ray.direction, ray.time);
        let inner = self.object.hit(&offset_ray, interval, rng);
        match inner {
            Some(mut hit_record) => {
                if !(fx_in_range(hit_record.point.x, FX_INF) && fx_in_range(
                    hit_record.point.y,
                    FX_INF,
                ) && fx_in_range(hit_record.point.z, FX_INF)) {
                    return None;
                }
                hit_record.point = hit_record.point.add(&self.offset);
                Some(hit_record)
            },
            None => None,
        }
    }

    /// The translated object's bounding box.
    pub fn bounding_box(&self) -> (r: AABB)
        ensures
            r == self.bbox,
    {
        self.bbox
    }
}

/// An object rotated about the y axis.
pub struct RotateY {
    pub object: Box<Hittable>,
    pub sin_theta: Fx,
    pub cos_theta: Fx,
    pub bbox: AABB,
}

/// The smaller of two mathematical integers.
pub open spec fn min2_s(a: int, b: int) -> int {
    if a <= b {
        a
    } else {
        b
    }
}

/// The larger of two mathematical integers.
pub open spec fn max2_s(a: int, b: int) -> int {
    if a >= b {
        a
    } else {
        b
    }
}

/// A point rotated into object space: the inverse rotation.
pub open spec fn rot_in_s(sin: int, cos: int, x: int, z: int) -> (int, int) {
    (fx_mul_s(cos, x) - fx_mul_s(sin, z), fx_mul_s(sin, x) + fx_mul_s(cos, z))
}

/// A point rotated back into world space.
pub open spec fn rot_out_s(sin: int, cos: int, x: int, z: int) -> (int, int) {
    (fx_mul_s(cos, x) + fx_mul_s(sin, z), fx_mul_s(cos, z) - fx_mul_s(sin, x))
}

/// What a rotated intersection query answers: the ray rotated into
/// object space, the wrapped object queried, and the resulting point
/// and normal rotated back.  Values out of numeric range answer
/// "no hit".
pub open spec fn rotate_y_hit_s(r: RotateY, ray: Ray, itv: Interval) -> Option<HitData>
    decreases r,
{
    let s = r.sin_theta as int;
    let c = r.cos_theta as int;
    let o = rot_in_s(s, c, ray.origin.x as int, ray.origin.z as int);
    let d = rot_in_s(s, c, ray.direction.x as int, ray.direction.z as int);
    let rotated = Ray {
        origin: Vec3d { x: o.0 as Fx, y: ray.origin.y, z: o.1 as Fx },
        direction: Vec3d { x: d.0 as Fx, y: ray.direction.y, z: d.1 as Fx },
        time: ray.time,
    };
    if !bounded_s(rotated.origin, VEC_LIM as int) || !bounded_s(rotated.direction, VEC_LIM as int) {
        None
    } else {
        match hittable_hit_s(*r.object, rotated, itv) {
            Some(h) => if !bounded_s(h.point, VEC_LIM as int) {
                None
            } else {
                let p = rot_out_s(s, c, h.point.x as int, h.point.z as int);
                let n = rot_out_s(s, c, h.normal.x as int, h.normal.z as int);
                if !(abs_i(n.0) <= 8 * FX_ONE && abs_i(n.1) <= 8 * FX_ONE) {
                    None
                } else {
                    Some(
                        HitData {
                            point: Vec3d { x: p.0 as Fx, y: h.point.y, z: p.1 as Fx },
                            normal: Vec3d { x: n.0 as Fx, y: h.normal.y, z: n.1 as Fx },
                            ..h
                        },
                    )
                }
            },
            None => None,
        }
    }
}

/// The world-space box of a rotated box: the extremes of the four
/// rotated corner pairs on x and z, the y interval unchanged, padded.
pub open spec fn rotate_y_bbox_s(b: AABB, sin: int, cos: int) -> AABB {
    let x0 = b.interval_x.min as int;
    let x1 = b.interval_x.max as int;
    let z0 = b.interval_z.min as int;
    let z1 = b.interval_z.max as int;
    let a00 = rot_out_s(sin, cos, x0, z0);
    let a01 = rot_out_s(sin, cos, x0, z1);
    let a10 = rot_out_s(sin, cos, x1, z0);
    let a11 = rot_out_s(sin, cos, x1, z1);
    let minx = min2_s(min2_s(a00.0, a01.0), min2_s(a10.0, a11.0));
    let maxx = max2_s(max2_s(a00.0, a01.0), max2_s(a10.0, a11.0));
    let minz = min2_s(min2_s(a00.1, a01.1), min2_s(a10.1, a11.1));
    let maxz = max2_s(max2_s(a00.1, a01.1), max2_s(a10.1, a11.1));
    crate::object::aabb::aabb_pad_s(
        crate::object::aabb::aabb_from_points_s(
            Vec3d { x: minx as Fx, y: b.interval_y.min, z: minz as Fx },
            Vec3d { x: maxx as Fx, y: b.interval_y.max, z: maxz as Fx },
        ),
    )
}

impl RotateY {
    /// An object rotated by an angle in degrees about the y axis; the
    /// box becomes the world-space box over the rotated corners.
    #[verifier::rlimit(60)]
    pub fn new(object: Hittable, angle: Fx) -> (r: RotateY)
        requires
            hittable_wf(object),
            abs_i(angle as int) < FX_MUL_LIM,
            aabb_bounded_s(bounding_box_s(object), 4 * GEOM_LIM as int),
        ensures
            r.sin_theta == fx_sin_s(fx_mul_s(angle as int, FX_DEG2RAD as int)),
            r.cos_theta == fx_cos_s(fx_mul_s(angle as int, FX_DEG2RAD as int)),
            r.object == Box::new(object),
            r.bbox == rotate_y_bbox_s(
                bounding_box_s(object),
                r.sin_theta as int,
                r.cos_theta as int,
            ),
            hittable_wf(Hittable::RotateY(r)),
    {
        proof {
            crate::fixed::lemma_fx_mul_s_bound(
                angle as int,
                FX_DEG2RAD as int,
                FX_MUL_LIM as int,
                FX_DEG2RAD as int,
            );
        }
        let radians = fx_mul(angle, FX_DEG2RAD);
        let sin_theta = fx_sin(radians);
        let cos_theta = fx_cos(radians);
        let bbox = object.bounding_box();
        proof {
            lemma_rot_corner_bounds(sin_theta as int, cos_theta as int, bbox);
        }
        let x0 = bbox.interval_x.min;
        let x1 = bbox.interval_x.max;
        let z0 = bbox.interval_z.min;
        let z1 = bbox.interval_z.max;
        let a00x = fx_mul(cos_theta, x0) + fx_mul(sin_theta, z0);
        let a00z = fx_mul(cos_theta, z0) - fx_mul(sin_theta, x0);
        let a01x = fx_mul(cos_theta, x0) + fx_mul(sin_theta, z1);
        let a01z = fx_mul(cos_theta, z1) - fx_mul(sin_theta, x0);
        let a10x = fx_mul(cos_theta, x1) + fx_mul(sin_theta, z0);
        let a10z = fx_mul(cos_theta, z0) - fx_mul(sin_theta, x1);
        let a11x = fx_mul(cos_theta, x1) + fx_mul(sin_theta, z1);
        let a11z = fx_mul(cos_theta, z1) - fx_mul(sin_theta, x1);
        let minx = fx_min(fx_min(a00x, a01x), fx_min(a10x, a11x));
        let maxx = fx_max(fx_max(a00x, a01x), fx_max(a10x, a11x));
        let minz = fx_min(fx_min(a00z, a01z), fx_min(a10z, a11z));
        let maxz = fx_max(fx_max(a00z, a01z), fx_max(a10z, a11z));
        let world_box = AABB::from_points(
            &Vec3d::new(minx, bbox.interval_y.min, minz),
            &Vec3d::new(maxx, bbox.interval_y.max, maxz),
        );
        RotateY { object: Box::new(object), sin_theta, cos_theta, bbox: world_box }
    }

    /// Where the rotated ray strikes the wrapped object, rotated back.
    pub fn hit(&self, ray: &Ray, interval: &Interval, rng: &mut Prng) -> (r: Option<HitRecord>)
        requires
            hittable_wf(Hittable::RotateY(*self)),
            ray_wf(*ray),
        ensures
            hit_post(
                Hittable::RotateY(*self),
                *ray,
                *interval,
                *old(rng),
                *final(rng),
                match r {
                    Some(rec) => Some(
                        HitData {
                            t: rec.t,
                            u: rec.u,
                            v: rec.v,
                            point: rec.point,
                            normal: rec.normal,
                            front_face: rec.front_face,
                        },
                    ),
                    None => None,
                },
            ),
            match r {
                Some(rec) => crate::object::material::material_wf(*rec.material),
                None => true,
            },
            crate::object::hit::hit_material_post(
                Hittable::RotateY(*self),
                *ray,
                *interval,
                match r {
                    Some(rec) => Some(*rec.material),
                    None => None::<crate::object::material::Material>,
                },
            ),
        decreases *self,
    {
        proof {
            lemma_rot_vec_bounds(self.sin_theta as int, self.cos_theta as int, ray.origin);
            lemma_rot_vec_bounds(self.sin_theta as int, self.cos_theta as int, ray.direction);
        }
        let ox = fx_mul(self.cos_theta, ray.origin.x) - fx_mul(self.sin_theta, ray.origin.z);
        let oz = fx_mul(self.sin_theta, ray.origin.x) + fx_mul(self.cos_theta, ray.origin.z);
        let dx = fx_mul(self.cos_theta, ray.direction.x) - fx_mul(self.sin_theta, ray.direction.z);
        let dz = fx_mul(self.sin_theta, ray.direction.x) + fx_mul(self.cos_theta, ray.direction.z);
        let origin = Vec3d::new(ox, ray.origin.y, oz);
        let direction = Vec3d::new(dx, ray.direction.y, dz);
        if !(fx_in_range(origin.x, VEC_LIM) && fx_in_range(origin.y, VEC_LIM) && fx_in_range(
            origin.z,
            VEC_LIM,
        )) {
            return None;
        }
        if !(fx_in_range(direction.x, VEC_LIM) && fx_in_range(direction.y, VEC_LIM) && fx_in_range(
            direction.z,
            VEC_LIM,
        )) {
            return None;
        }
        let rotated_ray = Ray::new(origin, direction, ray.time);
        let inner = self.object.hit(&rotated_ray, interval, rng);
        match inner {
            Some(mut hit_record) => {
                if !(fx_in_range(hit_record.point.x, VEC_LIM) && fx_in_range(
                    hit_record.point.y,
                    VEC_LIM,
                ) && fx_in_range(hit_record.point.z, VEC_LIM)) {
                    return None;
                }
                proof {
                    lemma_rot_vec_bounds(
                        self.sin_theta as int,
                        self.cos_theta as int,
                        hit_record.point,
                    );
                    lemma_rot_normal_bounds(
                        self.sin_theta as int,
                        self.cos_theta as int,
                        hit_record.normal,
                    );
                }
                let px = fx_mul(self.cos_theta, hit_record.point.x) + fx_mul(
                    self.sin_theta,
                    hit_record.point.z,
                );
                let pz = fx_mul(self.cos_theta, hit_record.point.z) - fx_mul(
                    self.sin_theta,
                    hit_record.point.x,
                );
                let nx = fx_mul(self.cos_theta, hit_record.normal.x) + fx_mul(
                    self.sin_theta,
                    hit_record.normal.z,
                );
                let nz = fx_mul(self.cos_theta, hit_record.normal.z) - fx_mul(
                    self.sin_theta,
                    hit_record.normal.x,
                );
                if !(fx_in_range(nx, 8 * FX_ONE) && fx_in_range(nz, 8 * FX_ONE)) {
                    return None;
                }
                hit_record.point = Vec3d::new(px, hit_record.point.y, pz);
                hit_record.normal = Vec3d::new(nx, hit_record.normal.y, nz);
                Some(hit_record)
            },
            None => None,
        }
    }

    /// The rotated object's bounding box.
    pub fn bounding_box(&self) -> (r: AABB)
        ensures
            r == self.bbox,
    {
        self.bbox
    }
}

/// Rotating the corners of a moderately sized box keeps every value in
/// multiplication range.
proof fn lemma_rot_corner_bounds(sin: int, cos: int, b: AABB)
    requires
        abs_i(sin) <= 2 * FX_ONE as int,
        abs_i(cos) <= 2 * FX_ONE as int,
        aabb_bounded_s(b, 4 * GEOM_LIM as int),
    ensures
        abs_i(fx_mul_s(cos, b.interval_x.min as int)) <= 8 * GEOM_LIM as int,
        abs_i(fx_mul_s(cos, b.interval_x.max as int)) <= 8 * GEOM_LIM as int,
        abs_i(fx_mul_s(cos, b.interval_z.min as int)) <= 8 * GEOM_LIM as int,
        abs_i(fx_mul_s(cos, b.interval_z.max as int)) <= 8 * GEOM_LIM as int,
        abs_i(fx_mul_s(sin, b.interval_x.min as int)) <= 8 * GEOM_LIM as int,
        abs_i(fx_mul_s(sin, b.interval_x.max as int)) <= 8 * GEOM_LIM as int,
        abs_i(fx_mul_s(sin, b.interval_z.min as int)) <= 8 * GEOM_LIM as int,
        abs_i(fx_mul_s(sin, b.interval_z.max as int)) <= 8 * GEOM_LIM as int,
{
    crate::fixed::lemma_fx_mul_s_bound(cos, b.interval_x.min as int, 131072, 4398046511104);
    crate::fixed::lemma_fx_mul_s_bound(cos, b.interval_x.max as int, 131072, 4398046511104);
    crate::fixed::lemma_fx_mul_s_bound(cos, b.interval_z.min as int, 131072, 4398046511104);
    crate::fixed::lemma_fx_mul_s_bound(cos, b.interval_z.max as int, 131072, 4398046511104);
    crate::fixed::lemma_fx_mul_s_bound(sin, b.interval_x.min as int, 131072, 4398046511104);
    crate::fixed::lemma_fx_mul_s_bound(sin, b.interval_x.max as int, 131072, 4398046511104);
    crate::fixed::lemma_fx_mul_s_bound(sin, b.interval_z.min as int, 131072, 4398046511104);
    crate::fixed::lemma_fx_mul_s_bound(sin, b.interval_z.max as int, 131072, 4398046511104);
}

/// Rotating a vector in range keeps every product in range.
proof fn lemma_rot_vec_bounds(sin: int, cos: int, v: Vec3d)
    requires
        abs_i(sin) <= 2 * FX_ONE as int,
        abs_i(cos) <= 2 * FX_ONE as int,
        bounded_s(v, VEC_LIM as int),
    ensures
        abs_i(fx_mul_s(cos, v.x as int)) <= 2 * VEC_LIM as int,
        abs_i(fx_mul_s(cos, v.z as int)) <= 2 * VEC_LIM as int,
        abs_i(fx_mul_s(sin, v.x as int)) <= 2 * VEC_LIM as int,
        abs_i(fx_mul_s(sin, v.z as int)) <= 2 * VEC_LIM as int,
{
    crate::fixed::lemma_fx_mul_s_bound(cos, v.x as int, 131072, 70368744177664);
    crate::fixed::lemma_fx_mul_s_bound(cos, v.z as int, 131072, 70368744177664);
    crate::fixed::lemma_fx_mul_s_bound(sin, v.x as int, 131072, 70368744177664);
    crate::fixed::lemma_fx_mul_s_bound(sin, v.z as int, 131072, 70368744177664);
}

/// Rotating a near-unit normal keeps every product near the unit.
proof fn lemma_rot_normal_bounds(sin: int, cos: int, n: Vec3d)
    requires
        abs_i(sin) <= 2 * FX_ONE as int,
        abs_i(cos) <= 2 * FX_ONE as int,
        bounded_s(n, 8 * FX_ONE as int),
    ensures
        abs_i(fx_mul_s(cos, n.x as int)) <= 16 * FX_ONE as int,
        abs_i(fx_mul_s(cos, n.z as int)) <= 16 * FX_ONE as int,
        abs_i(fx_mul_s(sin, n.x as int)) <= 16 * FX_ONE as int,
        abs_i(fx_mul_s(sin, n.z as int)) <= 16 * FX_ONE as int,
{
    crate::fixed::lemma_fx_mul_s_bound(cos, n.x as int, 131072, 524288);
    crate::fixed::lemma_fx_mul_s_bound(cos, n.z as int, 131072, 524288);
    crate::fixed::lemma_fx_mul_s_bound(sin, n.x as int, 131072, 524288);
    crate::fixed::lemma_fx_mul_s_bound(sin, n.z as int, 131072, 524288);
}

} // verus!
