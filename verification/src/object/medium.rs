//! Participating media: fog and smoke inside a convex boundary.

use crate::fixed::fx_div;
use crate::fixed::fx_div_s;
use crate::fixed::fx_in_range;
use crate::fixed::fx_max;
use crate::fixed::fx_min;
use crate::fixed::fx_mul;
use crate::fixed::Fx;
use crate::fixed::FX_MUL_LIM;
use crate::fixed::FX_ONE;
use crate::fxmath::fx_neg_ln;
use crate::object::hit::hit_post;
use crate::object::hit::hittable_wf;
use crate::object::hit::ray_wf;
use crate::object::hit::HitData;
use crate::object::hit::HitRecord;
use crate::object::hit::Hittable;
use crate::object::material::material_wf;
use crate::object::material::Isotropic;
use crate::object::material::Material;
use crate::object::texture::texture_wf;
use crate::object::texture::Texture;
use crate::ray::Interval;
use crate::ray::Ray;
use crate::ray::FX_INF;
use crate::rng::Prng;
use crate::vec3d::Vec3d;
use vstd::prelude::*;

verus! {

/// A volumetric region bounded by a convex object: a ray crossing it
/// scatters after an exponentially sampled free flight, or passes
/// through.
pub struct Medium {
    pub boundary: Box<Hittable>,
    pub neg_inv_density: Fx,
    pub phase_func: Material,
}

/// Everything a medium's intersection answers when its boundary is
/// free of nested media, step for step: the boundary entered over the
/// universal interval and left again just past the entry, the passage
/// clipped to the query interval and to nonnegative parameters, the
/// uniform draw turned into an exponential free flight, and a flight
/// shorter than the passage scattering at the sampled point.  Values
/// out of numeric range answer "no interaction".
pub open spec fn medium_hit_s(m: Medium, ray: Ray, itv: Interval, state: u64) -> Option<HitData> {
    let universe = Interval { min: (-FX_INF) as Fx, max: FX_INF };
    match crate::object::hit::hittable_hit_s(*m.boundary, ray, universe) {
        None => None,
        Some(r1) => match crate::object::hit::hittable_hit_s(
            *m.boundary,
            ray,
            Interval { min: (r1.t + 7) as Fx, max: FX_INF },
        ) {
            None => None,
            Some(r2) => {
                let t_enter_clipped = if r1.t >= itv.min {
                    r1.t as int
                } else {
                    itv.min as int
                };
                let t_exit = if r2.t <= itv.max {
                    r2.t as int
                } else {
                    itv.max as int
                };
                if t_enter_clipped >= t_exit {
                    None
                } else {
                    let t_enter = if t_enter_clipped >= 0 {
                        t_enter_clipped
                    } else {
                        0
                    };
                    if t_enter >= t_exit || crate::fixed::abs_i(t_enter) > FX_MUL_LIM - 1
                        || crate::fixed::abs_i(t_exit) > FX_MUL_LIM - 1 {
                        None
                    } else {
                        let ray_length = crate::vec3d::length_s(ray.direction);
                        if ray_length == 0 {
                            None
                        } else {
                            let draw = crate::rng::prng_next_s(state) % 65536 + 1;
                            let neg_log = crate::fxmath::fx_neg_ln_s(draw as int);
                            let hit_distance = crate::fixed::fx_mul_s(
                                -m.neg_inv_density as int,
                                neg_log,
                            );
                            let distance_inside = crate::fixed::fx_mul_s(
                                t_exit - t_enter,
                                ray_length,
                            );
                            if hit_distance < distance_inside {
                                let t = t_enter + fx_div_s(hit_distance, ray_length);
                                if t > itv.max || crate::fixed::abs_i(t) > FX_MUL_LIM - 1 {
                                    None
                                } else {
                                    Some(
                                        HitData {
                                            t: t as Fx,
                                            u: 0 as Fx,
                                            v: 0 as Fx,
                                            point: crate::ray::ray_at_s(ray, t),
                                            normal: Vec3d { x: FX_ONE, y: 0 as Fx, z: 0 as Fx },
                                            front_face: true,
                                        },
                                    )
                                }
                            } else {
                                None
                            }
                        }
                    }
                }
            },
        },
    }
}

/// The generator state a medium's intersection leaves behind when its
/// boundary is free of nested media: one draw once the passage through
/// the boundary is established, untouched on any earlier exit.
pub open spec fn medium_state_s(m: Medium, ray: Ray, itv: Interval, state: u64) -> u64 {
    let universe = Interval { min: (-FX_INF) as Fx, max: FX_INF };
    match crate::object::hit::hittable_hit_s(*m.boundary, ray, universe) {
        None => state,
        Some(r1) => match crate::object::hit::hittable_hit_s(
            *m.boundary,
            ray,
            Interval { min: (r1.t + 7) as Fx, max: FX_INF },
        ) {
            None => state,
            Some(r2) => {
                let t_enter_clipped = if r1.t >= itv.min {
                    r1.t as int
                } else {
                    itv.min as int
                };
                let t_exit = if r2.t <= itv.max {
                    r2.t as int
                } else {
                    itv.max as int
                };
                if t_enter_clipped >= t_exit {
                    state
                } else {
                    let t_enter = if t_enter_clipped >= 0 {
                        t_enter_clipped
                    } else {
                        0
                    };
                    if t_enter >= t_exit || crate::fixed::abs_i(t_enter) > FX_MUL_LIM - 1
                        || crate::fixed::abs_i(t_exit) > FX_MUL_LIM - 1 {
                        state
                    } else if crate::vec3d::length_s(ray.direction) == 0 {
                        state
                    } else {
                        crate::rng::prng_next_s(state)
                    }
                }
            },
        },
    }
}

impl Medium {
    /// A medium with a texture-backed isotropic phase function.  A
    /// density at or below zero is a configuration error the caller
    /// must rule out.  The upper density cap is a conservative
    /// constant: it keeps the stored negative inverse density at least
    /// one count of the fixed-point scale, so the free-flight draw
    /// never degenerates to zero; densities near the cap already mean a
    /// photon scatters within a 65536th of a unit.
    pub fn new(boundary: Hittable, density: Fx, phase_func: Texture) -> (r: Medium)
        requires
            hittable_wf(boundary),
            0 < density <= FX_ONE * FX_ONE,
            texture_wf(phase_func),
        ensures
            r.boundary == Box::new(boundary),
            r.neg_inv_density == -fx_div_s(FX_ONE as int, density as int),
            r.phase_func == Material::Isotropic(Isotropic { texture: phase_func }),
            hittable_wf(Hittable::Medium(r)),
    {
        proof {
            lemma_inv_density_range(density as int);
        }
        Medium {
            boundary: Box::new(boundary),
            neg_inv_density: -fx_div(FX_ONE, density),
            phase_func: Material::Isotropic(Isotropic::new(phase_func)),
        }
    }

    /// A medium of a single color, capped in density as `new` is.
    pub fn from_color(boundary: Hittable, density: Fx, color: Vec3d) -> (r: Medium)
        requires
            hittable_wf(boundary),
            0 < density <= FX_ONE * FX_ONE,
            crate::vec3d::bounded_s(color, FX_ONE as int),
        ensures
            r.boundary == Box::new(boundary),
            r.neg_inv_density == -fx_div_s(FX_ONE as int, density as int),
            r.phase_func == Material::Isotropic(
                Isotropic {
                    texture: Texture::SolidColor(
                        crate::object::texture::SolidColor { color },
                    ),
                },
            ),
            hittable_wf(Hittable::Medium(r)),
    {
        proof {
            lemma_inv_density_range(density as int);
        }
        Medium {
            boundary: Box::new(boundary),
            neg_inv_density: -fx_div(FX_ONE, density),
            phase_func: Material::Isotropic(Isotropic::from_color(color)),
        }
    }

    /// Whether the ray scatters inside the medium: the boundary is
    /// entered and left, the passage clipped to the query interval, and
    /// an exponential free-flight distance drawn; a flight shorter than
    /// the passage scatters at the sampled point with an arbitrary
    /// normal, which the isotropic phase function never reads.
    pub fn hit(&self, ray: &Ray, interval: &Interval, rng: &mut Prng) -> (r: Option<HitRecord>)
        requires
            hittable_wf(Hittable::Medium(*self)),
            ray_wf(*ray),
        ensures
            hit_post(
                Hittable::Medium(*self),
                *ray,
                *interval,
                *old(rng),
                *final(rng),
                match r {
                    Some(rec) => Some(
                        HitData {
                            t: rec.t,
                            u: rec.u,
                            v: rec.v,
                            point: rec.point,
                            normal: rec.normal,
                            front_face: rec.front_face,
                        },
                    ),
                    None => None,
                },
            ),
            match r {
                Some(rec) => crate::object::material::material_wf(*rec.material) && rec.material
                    == &self.phase_func,
                None => true,
            },
            crate::object::hit::hit_material_post(
                Hittable::Medium(*self),
                *ray,
                *interval,
                match r {
                    Some(rec) => Some(*rec.material),
                    None => None::<Material>,
                },
            ),
        decreases *self,
    {
        let universe = Interval::universe();
        let rec1 = self.boundary.hit(ray, &universe, rng);
        let rec1 = match rec1 {
            Some(rec) => rec,
            None => {
                return None;
            },
        };
        let past_entry = Interval { min: rec1.t + 7, max: FX_INF };
        let rec2 = self.boundary.hit(ray, &past_entry, rng);
        let rec2 = match rec2 {
            Some(rec) => rec,
            None => {
                return None;
            },
        };
        let t_enter_clipped = fx_max(rec1.t, interval.min);
        let t_exit = fx_min(rec2.t, interval.max);
        if t_enter_clipped >= t_exit {
            return None;
        }
        let t_enter = fx_max(t_enter_clipped, 0);
        if t_enter >= t_exit {
            return None;
        }
        if !(fx_in_range(t_enter, FX_MUL_LIM - 1) && fx_in_range(t_exit, FX_MUL_LIM - 1)) {
            return None;
        }
        let ray_length = ray.direction.length();
        if ray_length == 0 {
            return None;
        }
        proof {
            crate::vec3d::lemma_dot_s_bound(
                ray.direction,
                ray.direction,
                crate::vec3d::VEC_LIM as int,
                crate::vec3d::VEC_LIM as int,
            );
            assert(ray_length < 281474976710656i128) by (nonlinear_arith)
                requires
                    ray_length >= 0,
                    (ray_length as int) * (ray_length as int)
                        <= crate::vec3d::length_squared_s(ray.direction) * 65536,
                    crate::vec3d::length_squared_s(ray.direction) <= 3 * (
                    70368744177664 * 70368744177664 / 65536),
            ;
        }
        let distance_inside_boundary = fx_mul(t_exit - t_enter, ray_length);
        let draw = rng.next_unit() + 1;
        let neg_log = fx_neg_ln(draw);
        let hit_distance = fx_mul(-self.neg_inv_density, neg_log);
        proof {
            crate::fixed::lemma_fx_mul_s_bound(
                -self.neg_inv_density as int,
                neg_log as int,
                4294967296,
                17 * crate::fxmath::FX_LN2 as int + 4 * FX_ONE as int,
            );
            lemma_nonneg_product(-self.neg_inv_density as int, neg_log as int);
        }
        if hit_distance < distance_inside_boundary {
            let offset = fx_div(hit_distance, ray_length);
            proof {
                crate::fixed::lemma_fx_div_s_bound(
                    hit_distance as int,
                    ray_length as int,
                    crate::fixed::abs_i(hit_distance as int),
                );
                lemma_nonneg_quotient(hit_distance as int, ray_length as int);
            }
            let t = t_enter + offset;
            if t > interval.max {
                return None;
            }
            if !fx_in_range(t, FX_MUL_LIM - 1) {
                return None;
            }
            let point = ray.at(t);
            let record = HitRecord {
                t,
                u: 0,
                v: 0,
                point,
                normal: Vec3d { x: FX_ONE, y: 0, z: 0 },
                front_face: true,
                material: &self.phase_func,
            };
            Some(record)
        } else {
            None
        }
    }

    /// The medium's bounding box: its boundary's.
    pub fn bounding_box(&self) -> (r: crate::object::aabb::AABB)
        ensures
            r == crate::object::hit::bounding_box_s(Hittable::Medium(*self)),
        decreases *self,
    {
        self.boundary.bounding_box()
    }
}

/// The reciprocal of a density inside `(0, 1^2]` stays inside
/// `[1, 2^32]`.
proof fn lemma_inv_density_range(density: int)
    requires
        0 < density <= FX_ONE as int * FX_ONE as int,
    ensures
        1 <= fx_div_s(FX_ONE as int, density) <= 4294967296,
{
    crate::fixed::lemma_tdivq_abs(FX_ONE as int * FX_ONE, density);
    vstd::arithmetic::mul::lemma_mul_nonnegative(FX_ONE as int, FX_ONE as int);
    vstd::arithmetic::div_mod::lemma_div_is_ordered(
        density,
        FX_ONE as int * FX_ONE as int,
        density,
    );
    vstd::arithmetic::div_mod::lemma_div_by_self(density);
    vstd::arithmetic::div_mod::lemma_div_nonincreasing(FX_ONE as int * FX_ONE as int, density);
}

/// A product of nonnegative scalars is nonnegative.
proof fn lemma_nonneg_product(a: int, b: int)
    requires
        a >= 0,
        b >= 0,
    ensures
        crate::fixed::fx_mul_s(a, b) >= 0,
{
    vstd::arithmetic::mul::lemma_mul_nonnegative(a, b);
    crate::fixed::lemma_tdivq_abs(a * b, FX_ONE as int);
    vstd::arithmetic::div_mod::lemma_div_pos_is_pos(a * b, FX_ONE as int);
}

/// A quotient of nonnegative by positive is nonnegative.
proof fn lemma_nonneg_quotient(a: int, b: int)
    requires
        a >= 0,
        b > 0,
    ensures
        fx_div_s(a, b) >= 0,
{
    vstd::arithmetic::mul::lemma_mul_nonnegative(a, FX_ONE as int);
    crate::fixed::lemma_tdivq_abs(a * FX_ONE, b);
    vstd::arithmetic::div_mod::lemma_div_pos_is_pos(a * FX_ONE, b);
}

} // verus!
