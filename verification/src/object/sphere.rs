//! Spheres, static or moving along a straight line.

use crate::fixed::abs_i;
use crate::fixed::fx_div;
use crate::fixed::fx_div_s;
use crate::fixed::fx_in_range;
use crate::fixed::fx_mul;
use crate::fixed::fx_mul_s;
use crate::fixed::fx_sqrt;
use crate::fixed::fx_sqrt_s;
use crate::fixed::Fx;
use crate::fixed::FX_DIV_LIM;
use crate::fixed::FX_MUL_LIM;
use crate::fixed::FX_ONE;
use crate::fxmath::fx_acos;
use crate::fxmath::fx_acos_s;
use crate::fxmath::fx_atan2;
use crate::fxmath::fx_atan2_s;
use crate::fxmath::FX_PI;
use crate::fxmath::FX_TAU;
use crate::object::aabb::aabb_pad_s;
use crate::object::aabb::aabb_union_s;
use crate::object::aabb::aabb_from_points_s;
use crate::object::aabb::aabb_valid;
use crate::object::aabb::AABB;
use crate::object::hit::ray_wf;
use crate::object::hit::HitData;
use crate::object::hit::HitRecord;
use crate::object::material::material_wf;
use crate::object::material::Material;
use crate::ray::ray_at_s;
use crate::ray::Interval;
use crate::ray::Ray;
use crate::vec3d::bounded_s;
use crate::vec3d::dot;
use crate::vec3d::dot_s;
use crate::vec3d::length_squared_s;
use crate::vec3d::Point3d;
use crate::vec3d::Vec3d;
use crate::vec3d::GEOM_LIM;
use vstd::prelude::*;

verus! {

/// A sphere: a center (moving linearly over the ray time for motion
/// blur), a radius, and a material.
pub struct Sphere {
    pub center: Point3d,
    pub radius: Fx,
    pub material: Material,
    pub center_vec: Vec3d,
    pub bbox: AABB,
}

/// The sphere's parameters stay inside geometric range and its box is
/// well formed.
pub open spec fn sphere_wf(s: Sphere) -> bool {
    bounded_s(s.center, GEOM_LIM as int) && bounded_s(s.center_vec, 2 * GEOM_LIM as int) && 0
        < s.radius <= GEOM_LIM && aabb_valid(s.bbox) && material_wf(s.material)
}

/// The center of the sphere at a given time.
pub open spec fn sphere_center_s(s: Sphere, time: int) -> Point3d {
    Vec3d {
        x: (s.center.x + fx_mul_s(s.center_vec.x as int, time)) as Fx,
        y: (s.center.y + fx_mul_s(s.center_vec.y as int, time)) as Fx,
        z: (s.center.z + fx_mul_s(s.center_vec.z as int, time)) as Fx,
    }
}

/// The surface coordinates of a point on the unit sphere: longitude and
/// latitude mapped into `[0, 1]`.
pub open spec fn sphere_uv_s(p: Vec3d) -> (int, int) {
    let phi = -fx_atan2_s(p.z as int, p.x as int) + FX_PI;
    let theta = fx_acos_s(-p.y as int);
    (fx_div_s(phi, FX_TAU as int), fx_div_s(theta, FX_PI as int))
}

/// What a ray-sphere intersection query answers, step for step: the
/// moving center is interpolated, the half-form quadratic solved, the
/// nearer admissible root chosen, and any value that leaves the numeric
/// ranges makes the query answer "no hit".
pub open spec fn sphere_hit_s(s: Sphere, ray: Ray, itv: Interval) -> Option<HitData> {
    let center = if s.center_vec != (Vec3d { x: 0 as Fx, y: 0 as Fx, z: 0 as Fx }) {
        sphere_center_s(s, ray.time as int)
    } else {
        s.center
    };
    let oc = Vec3d {
        x: (center.x - ray.origin.x) as Fx,
        y: (center.y - ray.origin.y) as Fx,
        z: (center.z - ray.origin.z) as Fx,
    };
    let a = length_squared_s(ray.direction);
    let h = dot_s(ray.direction, oc);
    let c = length_squared_s(oc) - fx_mul_s(s.radius as int, s.radius as int);
    if a == 0 || abs_i(h) >= FX_MUL_LIM || abs_i(a) >= FX_MUL_LIM || abs_i(c) >= FX_MUL_LIM {
        None
    } else {
        let discriminant = fx_mul_s(h, h) - fx_mul_s(a, c);
        if discriminant < 0 {
            None
        } else {
            let sqrt_disc = fx_sqrt_s(discriminant);
            let root1 = fx_div_s(h - sqrt_disc, a);
            let root = if itv.min < root1 < itv.max {
                root1
            } else {
                fx_div_s(h + sqrt_disc, a)
            };
            if !(itv.min < root < itv.max) || abs_i(root) >= FX_MUL_LIM {
                None
            } else {
                let point = ray_at_s(ray, root);
                let outward = Vec3d {
                    x: fx_div_s(point.x - center.x, s.radius as int) as Fx,
                    y: fx_div_s(point.y - center.y, s.radius as int) as Fx,
                    z: fx_div_s(point.z - center.z, s.radius as int) as Fx,
                };
                if !bounded_s(outward, 2 * FX_ONE as int) {
                    None
                } else {
                    let uv = sphere_uv_s(outward);
                    let ff = dot_s(ray.direction, outward) < 0;
                    Some(
                        HitData {
                            t: root as Fx,
                            u: uv.0 as Fx,
                            v: uv.1 as Fx,
                            point,
                            normal: if ff {
                                outward
                            } else {
                                Vec3d {
                                    x: (-outward.x) as Fx,
                                    y: (-outward.y) as Fx,
                                    z: (-outward.z) as Fx,
                                }
                            },
                            front_face: ff,
                        },
                    )
                }
            }
        }
    }
}

impl Sphere {
    /// A sphere that does not move.
    pub fn static_sphere(center: Point3d, radius: Fx, material: Material) -> (r: Sphere)
        requires
            bounded_s(center, GEOM_LIM as int),
            0 < radius <= GEOM_LIM,
            material_wf(material),
        ensures
            r.center == center,
            r.radius == radius,
            r.material == material,
            r.center_vec == (Vec3d { x: 0 as Fx, y: 0 as Fx, z: 0 as Fx }),
            r.bbox == aabb_pad_s(
                aabb_from_points_s(
                    Vec3d {
                        x: (center.x - radius) as Fx,
                        y: (center.y - radius) as Fx,
                        z: (center.z - radius) as Fx,
                    },
                    Vec3d {
                        x: (center.x + radius) as Fx,
                        y: (center.y + radius) as Fx,
                        z: (center.z + radius) as Fx,
                    },
                ),
            ),
            sphere_wf(r),
    {
        let rvec = Vec3d::new(radius, radius, radius);
        let bbox = AABB::from_points(&center.sub(&rvec), &center.add(&rvec));
        Sphere::new(center, center, radius, material, bbox)
    }

    /// A sphere moving from one center to another over the unit of time.
    pub fn moving_sphere(center: Point3d, center1: Point3d, radius: Fx, material: Material) -> (r:
        Sphere)
        requires
            bounded_s(center, GEOM_LIM as int),
            bounded_s(center1, GEOM_LIM as int),
            0 < radius <= GEOM_LIM,
            material_wf(material),
        ensures
            r.center == center,
            r.radius == radius,
            r.material == material,
            r.center_vec == (Vec3d {
                x: (center1.x - center.x) as Fx,
                y: (center1.y - center.y) as Fx,
                z: (center1.z - center.z) as Fx,
            }),
            r.bbox == aabb_pad_s(
                aabb_union_s(
                    aabb_pad_s(
                        aabb_from_points_s(
                            Vec3d {
                                x: (center.x - radius) as Fx,
                                y: (center.y - radius) as Fx,
                                z: (center.z - radius) as Fx,
                            },
                            Vec3d {
                                x: (center.x + radius) as Fx,
                                y: (center.y + radius) as Fx,
                                z: (center.z + radius) as Fx,
                            },
                        ),
                    ),
                    aabb_pad_s(
                        aabb_from_points_s(
                            Vec3d {
                                x: (center1.x - radius) as Fx,
                                y: (center1.y - radius) as Fx,
                                z: (center1.z - radius) as Fx,
                            },
                            Vec3d {
                                x: (center1.x + radius) as Fx,
                                y: (center1.y + radius) as Fx,
                                z: (center1.z + radius) as Fx,
                            },
                        ),
                    ),
                ),
            ),
            sphere_wf(r),
    {
        let rvec = Vec3d::new(radius, radius, radius);
        let bbox = AABB::surrounding_box(
            &AABB::from_points(&center.sub(&rvec), &center.add(&rvec)),
            &AABB::from_points(&center1.sub(&rvec), &center1.add(&rvec)),
        );
        Sphere::new(center, center1, radius, material, bbox)
    }

    /// The common constructor; a radius at or below zero is a
    /// configuration error the caller must rule out.
    fn new(center: Point3d, center1: Point3d, radius: Fx, material: Material, bbox: AABB) -> (r:
        Sphere)
        requires
            bounded_s(center, GEOM_LIM as int),
            bounded_s(center1, GEOM_LIM as int),
            0 < radius <= GEOM_LIM,
            aabb_valid(bbox),
            material_wf(material),
        ensures
            r.center == center,
            r.radius == radius,
            r.material == material,
            r.center_vec == (Vec3d {
                x: (center1.x - center.x) as Fx,
                y: (center1.y - center.y) as Fx,
                z: (center1.z - center.z) as Fx,
            }),
            r.bbox == bbox,
            sphere_wf(r),
    {
        Sphere { center, radius, material, center_vec: center1.sub(&center), bbox }
    }

    /// Whether the sphere's center moves over time.
    pub fn is_moving(&self) -> (r: bool)
        ensures
            r == (self.center_vec != (Vec3d { x: 0 as Fx, y: 0 as Fx, z: 0 as Fx })),
    {
        self.center_vec.x != 0 || self.center_vec.y != 0 || self.center_vec.z != 0
    }

    /// The sphere's center at the given time.
    pub fn sphere_center(&self, time: Fx) -> (r: Point3d)
        requires
            sphere_wf(*self),
            0 <= time <= FX_ONE,
        ensures
            r == sphere_center_s(*self, time as int),
    {
        proof {
            crate::fixed::lemma_fx_mul_s_bound(
                self.center_vec.x as int,
                time as int,
                2 * GEOM_LIM as int,
                FX_ONE as int,
            );
            crate::fixed::lemma_fx_mul_s_bound(
                self.center_vec.y as int,
                time as int,
                2 * GEOM_LIM as int,
                FX_ONE as int,
            );
            crate::fixed::lemma_fx_mul_s_bound(
                self.center_vec.z as int,
                time as int,
                2 * GEOM_LIM as int,
                FX_ONE as int,
            );
        }
        self.center.add(&self.center_vec.scale(time))
    }

    /// The surface coordinates of a point on the unit sphere.
    pub fn get_sphere_uv(point: &Vec3d) -> (r: (Fx, Fx))
        requires
            bounded_s(*point, 2 * FX_ONE as int),
        ensures
            (r.0 as int, r.1 as int) == sphere_uv_s(*point),
    {
        let phi = -fx_atan2(point.z, point.x) + FX_PI;
        let theta = fx_acos(-point.y);
        (fx_div(phi, FX_TAU), fx_div(theta, FX_PI))
    }

    /// Where the ray first strikes the sphere strictly inside the
    /// interval, if anywhere.
    pub fn hit(&self, ray: &Ray, interval: &Interval) -> (r: Option<HitRecord>)
        requires
            sphere_wf(*self),
            ray_wf(*ray),
        ensures
            match r {
                Some(rec) => {
                    &&& sphere_hit_s(*self, *ray, *interval) == Some(
                        HitData {
                            t: rec.t,
                            u: rec.u,
                            v: rec.v,
                            point: rec.point,
                            normal: rec.normal,
                            front_face: rec.front_face,
                        },
                    )
                    &&& rec.material == &self.material
                    &&& material_wf(*rec.material)
                    &&& interval.min < rec.t < interval.max
                    &&& bounded_s(rec.normal, 2 * FX_ONE as int)
                },
                None => sphere_hit_s(*self, *ray, *interval) is None,
            },
            crate::object::hit::hit_material_post(
                crate::object::hit::Hittable::Sphere(*self),
                *ray,
                *interval,
                match r {
                    Some(rec) => Some(*rec.material),
                    None => None::<Material>,
                },
            ),
    {
        let center = if self.is_moving() {
            self.sphere_center(ray.time)
        } else {
            self.center
        };
        proof {
            lemma_sphere_center_bounds(*self, ray.time as int);
        }
        let oc = center.sub(&ray.origin);
        let a = ray.direction.length_squared();
        let h = dot(&ray.direction, &oc);
        proof {
            crate::fixed::lemma_fx_mul_s_bound(
                self.radius as int,
                self.radius as int,
                GEOM_LIM as int,
                GEOM_LIM as int,
            );
        }
        let c = oc.length_squared() - fx_mul(self.radius, self.radius);
        if a == 0 || !fx_in_range(h, FX_MUL_LIM - 1) || !fx_in_range(a, FX_MUL_LIM - 1)
            || !fx_in_range(c, FX_MUL_LIM - 1) {
            return None;
        }
        let discriminant = fx_mul(h, h) - fx_mul(a, c);
        if discriminant < 0 {
            return None;
        }
        let sqrt_disc = fx_sqrt(discriminant);
        proof {
            lemma_sqrt_disc_bound(discriminant as int, sqrt_disc as int);
        }
        let mut root = fx_div(h - sqrt_disc, a);
        if !interval.surrounds(root) {
            root = fx_div(h + sqrt_disc, a);
            if !interval.surrounds(root) {
                return None;
            }
        }
        if !fx_in_range(root, FX_MUL_LIM - 1) {
            return None;
        }
        proof {
            crate::fixed::lemma_fx_mul_s_bound(
                ray.direction.x as int,
                root as int,
                crate::vec3d::VEC_LIM as int,
                FX_MUL_LIM as int - 1,
            );
            crate::fixed::lemma_fx_mul_s_bound(
                ray.direction.y as int,
                root as int,
                crate::vec3d::VEC_LIM as int,
                FX_MUL_LIM as int - 1,
            );
            crate::fixed::lemma_fx_mul_s_bound(
                ray.direction.z as int,
                root as int,
                crate::vec3d::VEC_LIM as int,
                FX_MUL_LIM as int - 1,
            );
        }
        let point = ray.at(root);
        let pc = point.sub(&center);
        let outward_normal = pc.div_scalar(self.radius);
        if !(fx_in_range(outward_normal.x, 2 * FX_ONE) && fx_in_range(outward_normal.y, 2 * FX_ONE)
            && fx_in_range(outward_normal.z, 2 * FX_ONE)) {
            return None;
        }
        let uv = Sphere::get_sphere_uv(&outward_normal);
        let mut rec = HitRecord::new(&self.material, root, uv.0, uv.1, point);
        rec.set_face_normal(ray, outward_normal);
        Some(rec)
    }

    /// The sphere's bounding box.
    pub fn bounding_box(&self) -> (r: AABB)
        ensures
            r == self.bbox,
    {
        self.bbox
    }
}

/// The interpolated center of a well-formed sphere stays within three
/// times the geometric range.
proof fn lemma_sphere_center_bounds(s: Sphere, time: int)
    requires
        sphere_wf(s),
        0 <= time <= FX_ONE,
    ensures
        bounded_s(sphere_center_s(s, time), 3 * GEOM_LIM as int),
{
    crate::fixed::lemma_fx_mul_s_bound(
        s.center_vec.x as int,
        time,
        2 * GEOM_LIM as int,
        FX_ONE as int,
    );
    crate::fixed::lemma_fx_mul_s_bound(
        s.center_vec.y as int,
        time,
        2 * GEOM_LIM as int,
        FX_ONE as int,
    );
    crate::fixed::lemma_fx_mul_s_bound(
        s.center_vec.z as int,
        time,
        2 * GEOM_LIM as int,
        FX_ONE as int,
    );
}

/// The square root of a bounded discriminant stays far inside division
/// range.
proof fn lemma_sqrt_disc_bound(disc: int, sq: int)
    requires
        0 <= disc <= 2 * crate::fixed::FX_MUL_RES_LIM as int,
        crate::fixed::is_isqrt(disc * FX_ONE, sq),
    ensures
        0 <= sq < FX_DIV_LIM - FX_MUL_LIM,
{
    assert(sq < FX_DIV_LIM - FX_MUL_LIM) by (nonlinear_arith)
        requires
            sq >= 0,
            sq * sq <= disc * 65536,
            0 <= disc <= 2 * 19807040628566084398385987584,
            FX_DIV_LIM == 1267650600228229401496703205376,
            FX_MUL_LIM == 36028797018963968,
    ;
}

} // verus!
