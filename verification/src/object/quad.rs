//! Planar parallelograms.

use crate::fixed::abs_i;
use crate::fixed::fx_div;
use crate::fixed::fx_div_s;
use crate::fixed::fx_in_range;
use crate::fixed::fx_mul_s;
use crate::fixed::lemma_fx_mul_s_bound;
use crate::fixed::Fx;
use crate::fixed::FX_MUL_LIM;
use crate::fixed::FX_ONE;
use crate::object::aabb::aabb_valid;
use crate::object::aabb::AABB;
use crate::object::hit::ray_wf;
use crate::object::hit::HitData;
use crate::object::hit::HitRecord;
use crate::object::material::material_wf;
use crate::object::material::Material;
use crate::ray::ray_at_s;
use crate::ray::Interval;
use crate::ray::Ray;
use crate::vec3d::bounded_s;
use crate::vec3d::cross;
use crate::vec3d::cross_s;
use crate::vec3d::dot;
use crate::vec3d::dot_s;
use crate::vec3d::length_squared_s;
use crate::vec3d::lemma_dot_s_bound;
use crate::vec3d::Point3d;
use crate::vec3d::Vec3d;
use crate::vec3d::EDGE_LIM;
use vstd::prelude::*;

verus! {

/// Bound on the plane-coordinate helper vector (2^26).
pub const QUAD_W_LIM: i128 = 67108864;

/// Bound on the planar offset of a candidate hit point (2^36).
pub const QUAD_PLANAR_LIM: i128 = 68719476736;

/// A planar parallelogram: a corner, two edge vectors, and the derived
/// plane data for fast planar-coordinate recovery.
pub struct Quad {
    pub point: Point3d,
    pub vec_u: Vec3d,
    pub vec_v: Vec3d,
    pub vec_w: Vec3d,
    pub normal: Vec3d,
    pub shift_d: Fx,
    pub material: Material,
    pub bbox: AABB,
}

/// The quad's corners, edges and derived plane data stay inside the
/// ranges its intersection arithmetic needs.
pub open spec fn quad_wf(q: Quad) -> bool {
    bounded_s(q.point, EDGE_LIM as int) && bounded_s(q.vec_u, EDGE_LIM as int) && bounded_s(
        q.vec_v,
        EDGE_LIM as int,
    ) && bounded_s(q.normal, 2 * FX_ONE as int) && bounded_s(q.vec_w, QUAD_W_LIM as int) && abs_i(
        q.shift_d as int,
    ) <= 36028797018963968 && aabb_valid(q.bbox) && material_wf(q.material)
}

/// Whether planar coordinates land inside the closed unit square.
pub open spec fn is_interior_s(alpha: int, beta: int) -> bool {
    0 <= alpha <= FX_ONE && 0 <= beta <= FX_ONE
}

/// What a ray-quad intersection query answers, step for step: rays
/// parallel to the plane miss, the plane parameter must lie in the
/// closed interval, the planar coordinates must lie in the unit square,
/// and any value that leaves the numeric ranges makes the query answer
/// "no hit".
pub open spec fn quad_hit_s(q: Quad, ray: Ray, itv: Interval) -> Option<HitData> {
    let denom = dot_s(q.normal, ray.direction);
    if denom == 0 {
        None
    } else {
        let t = fx_div_s(q.shift_d - dot_s(q.normal, ray.origin), denom);
        if !(itv.min <= t <= itv.max) || abs_i(t) >= FX_MUL_LIM {
            None
        } else {
            let intersection = ray_at_s(ray, t);
            let planar = Vec3d {
                x: (intersection.x - q.point.x) as Fx,
                y: (intersection.y - q.point.y) as Fx,
                z: (intersection.z - q.point.z) as Fx,
            };
            if !bounded_s(planar, QUAD_PLANAR_LIM as int) {
                None
            } else {
                let alpha = dot_s(q.vec_w, cross_s(planar, q.vec_v));
                let beta = dot_s(q.vec_w, cross_s(q.vec_u, planar));
                if !is_interior_s(alpha, beta) {
                    None
                } else {
                    let ff = dot_s(ray.direction, q.normal) < 0;
                    Some(
                        HitData {
                            t: t as Fx,
                            u: alpha as Fx,
                            v: beta as Fx,
                            point: intersection,
                            normal: if ff {
                                q.normal
                            } else {
                                Vec3d {
                                    x: (-q.normal.x) as Fx,
                                    y: (-q.normal.y) as Fx,
                                    z: (-q.normal.z) as Fx,
                                }
                            },
                            front_face: ff,
                        },
                    )
                }
            }
        }
    }
}

impl Quad {
    /// A parallelogram from a corner and two edge vectors.  Degenerate
    /// edges, whose cross product vanishes, are a configuration error
    /// the caller must rule out.
    pub fn new(point: Point3d, vec_u: Vec3d, vec_v: Vec3d, material: Material) -> (r: Quad)
        requires
            bounded_s(point, EDGE_LIM as int),
            bounded_s(vec_u, EDGE_LIM as int),
            bounded_s(vec_v, EDGE_LIM as int),
            length_squared_s(cross_s(vec_u, vec_v)) > 0,
            material_wf(material),
        ensures
            r.point == point,
            r.vec_u == vec_u,
            r.vec_v == vec_v,
            r.material == material,
            r.normal == unit_of_cross_s(vec_u, vec_v),
            r.shift_d == dot_s(unit_of_cross_s(vec_u, vec_v), point),
            r.vec_w == w_of_cross_s(vec_u, vec_v),
            r.bbox == quad_bbox_s(point, vec_u, vec_v),
            quad_wf(r),
    {
        proof {
            crate::vec3d::lemma_cross_s_bound(vec_u, vec_v, EDGE_LIM as int, EDGE_LIM as int);
        }
        let n = cross(&vec_u, &vec_v);
        let normal = n.unit_vector();
        proof {
            lemma_dot_s_bound(normal, point, 2 * FX_ONE as int, EDGE_LIM as int);
            lemma_dot_s_bound(n, n, 562949953421312, 562949953421312);
            crate::vec3d::lemma_length_squared_s_nonneg(n);
        }
        let shift_d = dot(&normal, &point);
        let nn = dot(&n, &n);
        let vec_w = n.div_scalar(nn);
        proof {
            crate::fixed::lemma_fx_square_nonneg(n.x as int);
            crate::fixed::lemma_fx_square_nonneg(n.y as int);
            crate::fixed::lemma_fx_square_nonneg(n.z as int);
            lemma_w_in_range(n.x as int, nn as int);
            lemma_w_in_range(n.y as int, nn as int);
            lemma_w_in_range(n.z as int, nn as int);
        }
        let bbox = Quad::get_bounding_box(&point, &vec_u, &vec_v);
        Quad { point, vec_u, vec_v, vec_w, normal, shift_d, material, bbox }
    }

    /// The padded box around both diagonals of the parallelogram.
    pub fn get_bounding_box(point: &Point3d, vec_u: &Vec3d, vec_v: &Vec3d) -> (r: AABB)
        requires
            bounded_s(*point, EDGE_LIM as int),
            bounded_s(*vec_u, EDGE_LIM as int),
            bounded_s(*vec_v, EDGE_LIM as int),
        ensures
            r == quad_bbox_s(*point, *vec_u, *vec_v),
            aabb_valid(r),
    {
        let far = point.add(vec_u).add(vec_v);
        let bbox_diagonal_1 = AABB::from_points(point, &far);
        let bbox_diagonal_2 = AABB::from_points(&point.add(vec_u), &point.add(vec_v));
        AABB::surrounding_box(&bbox_diagonal_1, &bbox_diagonal_2)
    }

    /// Whether planar coordinates land inside the closed unit square.
    pub fn is_interior(alpha: Fx, beta: Fx) -> (r: bool)
        ensures
            r == is_interior_s(alpha as int, beta as int),
    {
        let unit_interval = Interval { min: 0, max: FX_ONE };
        unit_interval.contains(alpha) && unit_interval.contains(beta)
    }

    /// Where the ray strikes the parallelogram inside the closed
    /// interval, if anywhere.
    pub fn hit(&self, ray: &Ray, interval: &Interval) -> (r: Option<HitRecord>)
        requires
            quad_wf(*self),
            ray_wf(*ray),
        ensures
            match r {
                Some(rec) => {
                    &&& quad_hit_s(*self, *ray, *interval) == Some(
                        HitData {
                            t: rec.t,
                            u: rec.u,
                            v: rec.v,
                            point: rec.point,
                            normal: rec.normal,
                            front_face: rec.front_face,
                        },
                    )
                    &&& rec.material == &self.material
                    &&& material_wf(*rec.material)
                    &&& interval.min <= rec.t <= interval.max
                    &&& bounded_s(rec.normal, 2 * FX_ONE as int)
                },
                None => quad_hit_s(*self, *ray, *interval) is None,
            },
            crate::object::hit::hit_material_post(
                crate::object::hit::Hittable::Quad(*self),
                *ray,
                *interval,
                match r {
                    Some(rec) => Some(*rec.material),
                    None => None::<Material>,
                },
            ),
    {
        proof {
            lemma_dot_s_bound(self.normal, ray.direction, 2 * FX_ONE as int, crate::vec3d::VEC_LIM as int);
            lemma_dot_s_bound(self.normal, ray.origin, 2 * FX_ONE as int, crate::vec3d::VEC_LIM as int);
        }
        let denom = dot(&self.normal, &ray.direction);
        if denom == 0 {
            return None;
        }
        let t = fx_div(self.shift_d - dot(&self.normal, &ray.origin), denom);
        if !interval.contains(t) {
            return None;
        }
        if !fx_in_range(t, FX_MUL_LIM - 1) {
            return None;
        }
        proof {
            lemma_fx_mul_s_bound(
                ray.direction.x as int,
                t as int,
                crate::vec3d::VEC_LIM as int,
                FX_MUL_LIM as int - 1,
            );
            lemma_fx_mul_s_bound(
                ray.direction.y as int,
                t as int,
                crate::vec3d::VEC_LIM as int,
                FX_MUL_LIM as int - 1,
            );
            lemma_fx_mul_s_bound(
                ray.direction.z as int,
                t as int,
                crate::vec3d::VEC_LIM as int,
                FX_MUL_LIM as int - 1,
            );
        }
        let intersection = ray.at(t);
        let planar_hit_point_vector = intersection.sub(&self.point);
        if !(fx_in_range(planar_hit_point_vector.x, QUAD_PLANAR_LIM) && fx_in_range(
            planar_hit_point_vector.y,
            QUAD_PLANAR_LIM,
        ) && fx_in_range(planar_hit_point_vector.z, QUAD_PLANAR_LIM)) {
            return None;
        }
        proof {
            crate::vec3d::lemma_cross_s_bound(
                planar_hit_point_vector,
                self.vec_v,
                QUAD_PLANAR_LIM as int,
                EDGE_LIM as int,
            );
            crate::vec3d::lemma_cross_s_bound(
                self.vec_u,
                planar_hit_point_vector,
                EDGE_LIM as int,
                QUAD_PLANAR_LIM as int,
            );
            lemma_dot_s_bound(
                self.vec_w,
                cross_s(planar_hit_point_vector, self.vec_v),
                QUAD_W_LIM as int,
                9007199254740992,
            );
            lemma_dot_s_bound(
                self.vec_w,
                cross_s(self.vec_u, planar_hit_point_vector),
                QUAD_W_LIM as int,
                9007199254740992,
            );
        }
        let alpha = dot(&self.vec_w, &cross(&planar_hit_point_vector, &self.vec_v));
        let beta = dot(&self.vec_w, &cross(&self.vec_u, &planar_hit_point_vector));
        if !Quad::is_interior(alpha, beta) {
            return None;
        }
        let mut rec = HitRecord::new(&self.material, t, alpha, beta, intersection);
        rec.set_face_normal(ray, self.normal);
        Some(rec)
    }

    /// The quad's bounding box.
    pub fn bounding_box(&self) -> (r: AABB)
        ensures
            r == self.bbox,
    {
        self.bbox
    }
}

/// The unit normal of the plane spanned by two edges.
pub open spec fn unit_of_cross_s(u: Vec3d, v: Vec3d) -> Vec3d {
    let n = cross_s(u, v);
    let len = crate::vec3d::length_s(n);
    Vec3d {
        x: fx_div_s(n.x as int, len) as Fx,
        y: fx_div_s(n.y as int, len) as Fx,
        z: fx_div_s(n.z as int, len) as Fx,
    }
}

/// The plane-coordinate helper: the cross product divided by its own
/// squared length.
pub open spec fn w_of_cross_s(u: Vec3d, v: Vec3d) -> Vec3d {
    let n = cross_s(u, v);
    let nn = length_squared_s(n);
    Vec3d {
        x: fx_div_s(n.x as int, nn) as Fx,
        y: fx_div_s(n.y as int, nn) as Fx,
        z: fx_div_s(n.z as int, nn) as Fx,
    }
}

/// The padded box around both diagonals of the parallelogram.
pub open spec fn quad_bbox_s(point: Vec3d, u: Vec3d, v: Vec3d) -> AABB {
    let far = Vec3d {
        x: (point.x + u.x + v.x) as Fx,
        y: (point.y + u.y + v.y) as Fx,
        z: (point.z + u.z + v.z) as Fx,
    };
    let pu = Vec3d { x: (point.x + u.x) as Fx, y: (point.y + u.y) as Fx, z: (point.z + u.z) as Fx };
    let pv = Vec3d { x: (point.x + v.x) as Fx, y: (point.y + v.y) as Fx, z: (point.z + v.z) as Fx };
    crate::object::aabb::aabb_union_s(
        crate::object::aabb::aabb_pad_s(crate::object::aabb::aabb_from_points_s(point, far)),
        crate::object::aabb::aabb_pad_s(crate::object::aabb::aabb_from_points_s(pu, pv)),
    )
}

/// Dividing a cross-product component by the cross product's squared
/// length keeps the quotient small: the component's square never exceeds
/// the squared length.
proof fn lemma_w_in_range(c: int, nn: int)
    requires
        nn >= 1,
        fx_mul_s(c, c) <= nn,
    ensures
        abs_i(fx_div_s(c, nn)) <= QUAD_W_LIM,
{
    crate::fixed::lemma_fx_square_nonneg(c);
    crate::fixed::lemma_abs_mul(c, c);
    crate::fixed::lemma_abs_mul(c, crate::fixed::FX_ONE as int);
    crate::fixed::lemma_tdivq_abs(c * crate::fixed::FX_ONE, nn);
    crate::fixed::lemma_tdivq_abs(c * c, crate::fixed::FX_ONE as int);
    vstd::arithmetic::div_mod::lemma_fundamental_div_mod(
        abs_i(c) * crate::fixed::FX_ONE as int,
        nn,
    );
    vstd::arithmetic::div_mod::lemma_mod_bound(abs_i(c) * crate::fixed::FX_ONE as int, nn);
    vstd::arithmetic::div_mod::lemma_fundamental_div_mod(abs_i(c) * abs_i(c), 65536);
    vstd::arithmetic::div_mod::lemma_mod_bound(abs_i(c) * abs_i(c), 65536);
    let q = (abs_i(c) * crate::fixed::FX_ONE as int) / nn;
    let ac = abs_i(c);
    assert(q <= QUAD_W_LIM) by (nonlinear_arith)
        requires
            q >= 0,
            ac >= 0,
            nn >= 1,
            ac * 65536 == nn * q + (ac * 65536) % nn,
            0 <= (ac * 65536) % nn < nn,
            ac * ac < (nn + 1) * 65536,
            QUAD_W_LIM == 67108864,
    ;
}

} // verus!
