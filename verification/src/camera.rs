//! The camera and the recursive light-transport estimator, plus the
//! order-independent assembly of per-pixel results into an image.

use crate::fixed::abs_i;
use crate::fixed::fx_div;
use crate::fixed::fx_div_s;
use crate::fixed::fx_floor;
use crate::fixed::fx_from_int;
use crate::fixed::fx_in_range;
use crate::fixed::fx_max;
use crate::fixed::fx_min;
use crate::fixed::fx_mul;
use crate::fixed::fx_mul_s;
use crate::fixed::lemma_fx_attenuate;
use crate::fixed::lemma_fx_div_shrink;
use crate::fixed::Fx;
use crate::fixed::FX_HALF;
use crate::fixed::FX_MUL_LIM;
use crate::fixed::FX_ONE;
use crate::fxmath::fx_cos;
use crate::fxmath::fx_sin;
use crate::object::hit::deterministic_s;
use crate::object::hit::hittable_hit_s;
use crate::object::hit::hittable_wf;
use crate::object::hit::ray_wf;
use crate::object::hit::Hittable;
use crate::ray::Interval;
use crate::ray::Ray;
use crate::ray::FX_INF;
use crate::rng::Prng;
use crate::vec3d::bounded_s;
use crate::vec3d::cross;
use crate::vec3d::cross_s;
use crate::vec3d::Color;
use crate::vec3d::Point3d;
use crate::vec3d::Vec3d;
use crate::vec3d::GEOM_LIM;
use crate::vec3d::VEC_LIM;
use vstd::prelude::*;

verus! {

/// Degrees to radians, in fixed-point form.
pub const CAM_DEG2RAD: i128 = 1144;

/// Largest tangent of a half field of view the camera accepts (2^26).
pub const CAM_TAN_LIM: i128 = 67108864;

/// Largest viewport extent (2^32).
pub const CAM_VIEW_LIM: i128 = 4294967296;

/// Largest image dimension in pixels.
pub const CAM_RES_LIM: i32 = 16384;

/// The camera: immutable-per-render configuration plus the derived
/// viewport basis, recomputed by `initialize` before rendering.
pub struct Camera {
    pub center: Point3d,
    pub aspect_ratio: Fx,
    pub resolution: (i32, i32),
    pub viewport_dims: (Fx, Fx),
    pub viewport_u: Vec3d,
    pub viewport_v: Vec3d,
    pub samples_per_pixel: i32,
    pub samples_scale: Fx,
    pub max_depth: i32,
    pub v_fov: Fx,
    pub look_from: Point3d,
    pub look_at: Vec3d,
    pub v_up: Vec3d,
    pub defocus_angle: Fx,
    pub defocus_radius: Fx,
    pub focus_dist: Fx,
    pub background_color: Color,
}

/// The camera's configuration and derived state stay inside the ranges
/// its arithmetic needs.
pub open spec fn camera_wf(c: Camera) -> bool {
    &&& 1 <= c.resolution.0 <= CAM_RES_LIM
    &&& 1 <= c.resolution.1 <= CAM_RES_LIM
    &&& bounded_s(c.look_from, GEOM_LIM as int)
    &&& bounded_s(c.look_at, GEOM_LIM as int)
    &&& bounded_s(c.v_up, GEOM_LIM as int)
    &&& bounded_s(c.center, GEOM_LIM as int)
    &&& 1 <= c.samples_per_pixel <= 4096
    &&& 0 <= c.samples_scale <= FX_ONE
    &&& 0 <= c.max_depth <= 64
    &&& abs_i(c.v_fov as int) <= 360 * FX_ONE
    &&& abs_i(c.defocus_angle as int) <= 360 * FX_ONE
    &&& 0 < c.focus_dist <= GEOM_LIM
    &&& 0 < c.aspect_ratio < FX_MUL_LIM
    &&& bounded_s(c.viewport_u, 17179869184)
    &&& bounded_s(c.viewport_v, 68719476736)
    &&& abs_i(c.viewport_dims.0 as int) <= CAM_VIEW_LIM
    &&& abs_i(c.viewport_dims.1 as int) <= CAM_VIEW_LIM
    &&& 0 <= c.defocus_radius <= CAM_VIEW_LIM
    &&& bounded_s(c.background_color, FX_ONE as int)
}

/// The forward basis vector: from the look-at point toward the camera;
/// a degenerate configuration falls back to the world z axis.
pub open spec fn w_axis_s(c: Camera) -> Vec3d {
    let d = Vec3d {
        x: (c.look_from.x - c.look_at.x) as Fx,
        y: (c.look_from.y - c.look_at.y) as Fx,
        z: (c.look_from.z - c.look_at.z) as Fx,
    };
    if crate::vec3d::length_squared_s(d) > 0 {
        Vec3d {
            x: fx_div_s(d.x as int, crate::vec3d::length_s(d)) as Fx,
            y: fx_div_s(d.y as int, crate::vec3d::length_s(d)) as Fx,
            z: fx_div_s(d.z as int, crate::vec3d::length_s(d)) as Fx,
        }
    } else {
        Vec3d { x: 0 as Fx, y: 0 as Fx, z: FX_ONE }
    }
}

/// The right basis vector; a degenerate up vector falls back to the
/// world x axis.
pub open spec fn u_axis_s(c: Camera) -> Vec3d {
    let n = cross_s(c.v_up, w_axis_s(c));
    if crate::vec3d::length_squared_s(n) > 0 {
        Vec3d {
            x: fx_div_s(n.x as int, crate::vec3d::length_s(n)) as Fx,
            y: fx_div_s(n.y as int, crate::vec3d::length_s(n)) as Fx,
            z: fx_div_s(n.z as int, crate::vec3d::length_s(n)) as Fx,
        }
    } else {
        Vec3d { x: FX_ONE, y: 0 as Fx, z: 0 as Fx }
    }
}

/// The up basis vector.
pub open spec fn v_axis_s(c: Camera) -> Vec3d {
    cross_s(w_axis_s(c), u_axis_s(c))
}

/// The image height derived from the width and the aspect ratio,
/// clamped into the resolution limits.
pub open spec fn resolution_height_s(c: Camera) -> int {
    let h0 = fx_div_s(c.resolution.0 as int * FX_ONE, c.aspect_ratio as int) / (FX_ONE as int);
    if h0 < 1 {
        1
    } else if h0 > CAM_RES_LIM as int {
        CAM_RES_LIM as int
    } else {
        h0
    }
}

/// The tangent of half an angle given in degrees, clamped into
/// `[0, CAM_TAN_LIM]`; a vanishing cosine is replaced by the smallest
/// positive scalar first.
pub open spec fn tan_half_s(angle: int) -> int {
    let theta = fx_mul_s(angle, CAM_DEG2RAD as int);
    let half = fx_mul_s(theta, FX_HALF as int);
    let sn = crate::fxmath::fx_sin_s(half);
    let cs0 = crate::fxmath::fx_cos_s(half);
    let cs = if cs0 == 0 {
        1
    } else {
        cs0
    };
    let h0 = fx_div_s(sn, cs);
    if h0 < 0 {
        0
    } else if h0 > CAM_TAN_LIM {
        CAM_TAN_LIM as int
    } else {
        h0
    }
}

/// A point on the defocus disk: the disk sample scaled by the defocus
/// radius along the right and up basis vectors, from the camera center.
pub open spec fn defocus_disk_sample_s(c: Camera, state: u64) -> (Point3d, u64) {
    let drawn = crate::vec3d::random_in_unit_disk_s(state, 64);
    let p = drawn.0;
    let uv = u_axis_s(c);
    let vv = v_axis_s(c);
    let ddu = Vec3d {
        x: fx_mul_s(uv.x as int, c.defocus_radius as int) as Fx,
        y: fx_mul_s(uv.y as int, c.defocus_radius as int) as Fx,
        z: fx_mul_s(uv.z as int, c.defocus_radius as int) as Fx,
    };
    let ddv = Vec3d {
        x: fx_mul_s(vv.x as int, c.defocus_radius as int) as Fx,
        y: fx_mul_s(vv.y as int, c.defocus_radius as int) as Fx,
        z: fx_mul_s(vv.z as int, c.defocus_radius as int) as Fx,
    };
    (
        Vec3d {
            x: (c.center.x + fx_mul_s(ddu.x as int, p.x as int) + fx_mul_s(
                ddv.x as int,
                p.y as int,
            )) as Fx,
            y: (c.center.y + fx_mul_s(ddu.y as int, p.x as int) + fx_mul_s(
                ddv.y as int,
                p.y as int,
            )) as Fx,
            z: (c.center.z + fx_mul_s(ddu.z as int, p.x as int) + fx_mul_s(
                ddv.z as int,
                p.y as int,
            )) as Fx,
        },
        drawn.1,
    )
}

/// The jittered camera ray through pixel `(i, j)`: the first two draws
/// offset the pixel center, a defocused lens then draws its disk
/// origin, the last draw is the ray time, and a target outside numeric
/// range falls back to the straight-down-the-axis direction.
pub open spec fn camera_sample_ray_s(c: Camera, i: int, j: int, state: u64) -> Ray {
    let s1 = crate::rng::prng_next_s(state);
    let s2 = crate::rng::prng_next_s(s1);
    let offset_i = (s1 % 65536) as int;
    let offset_j = (s2 % 65536) as int;
    let pixel_sample = pixel_coords_s(c, i * FX_ONE + offset_i, j * FX_ONE + offset_j);
    let origin_drawn = if c.defocus_angle <= 0 {
        (c.center, s2)
    } else {
        defocus_disk_sample_s(c, s2)
    };
    let origin = origin_drawn.0;
    let s3 = crate::rng::prng_next_s(origin_drawn.1);
    let time = ((s3 % 65536) as int) as Fx;
    if !bounded_s(pixel_sample, 35184372088832) {
        Ray { origin, direction: Vec3d { x: 0 as Fx, y: 0 as Fx, z: (-FX_ONE) as Fx }, time }
    } else {
        let direction = Vec3d {
            x: (pixel_sample.x - origin.x) as Fx,
            y: (pixel_sample.y - origin.y) as Fx,
            z: (pixel_sample.z - origin.z) as Fx,
        };
        if !bounded_s(direction, VEC_LIM as int) {
            Ray {
                origin,
                direction: Vec3d { x: 0 as Fx, y: 0 as Fx, z: (-FX_ONE) as Fx },
                time,
            }
        } else {
            Ray { origin, direction, time }
        }
    }
}

/// The generator state the ray sampler leaves behind: two offset draws,
/// the defocused lens's disk draws when the lens is open, and the time
/// draw.
pub open spec fn camera_sample_state_s(c: Camera, state: u64) -> u64 {
    let s2 = crate::rng::prng_next_s(crate::rng::prng_next_s(state));
    let after_origin = if c.defocus_angle <= 0 {
        s2
    } else {
        defocus_disk_sample_s(c, s2).1
    };
    crate::rng::prng_next_s(after_origin)
}

/// The camera's default configuration, before the viewport derivation.
pub open spec fn camera_default_config_s() -> Camera {
    Camera {
        center: Vec3d { x: 0 as Fx, y: 0 as Fx, z: 0 as Fx },
        aspect_ratio: fx_div_s(16 * FX_ONE as int, 9 * FX_ONE as int) as Fx,
        resolution: (1080, 1),
        viewport_dims: (0 as Fx, 0 as Fx),
        viewport_u: Vec3d { x: 0 as Fx, y: 0 as Fx, z: 0 as Fx },
        viewport_v: Vec3d { x: 0 as Fx, y: 0 as Fx, z: 0 as Fx },
        samples_per_pixel: 1,
        samples_scale: FX_ONE,
        max_depth: 10,
        v_fov: (90 * FX_ONE) as Fx,
        look_from: Vec3d { x: 0 as Fx, y: 0 as Fx, z: 0 as Fx },
        look_at: Vec3d { x: 0 as Fx, y: 0 as Fx, z: (-FX_ONE) as Fx },
        v_up: Vec3d { x: 0 as Fx, y: FX_ONE, z: 0 as Fx },
        defocus_angle: 0 as Fx,
        defocus_radius: 0 as Fx,
        focus_dist: (10 * FX_ONE) as Fx,
        background_color: Vec3d { x: 0 as Fx, y: 0 as Fx, z: 0 as Fx },
    }
}

/// Everything `initialize` derives, over the configuration fields: the
/// recomputed height, the viewport and its basis, and the defocus
/// radius.
pub open spec fn camera_initialize_s(c: Camera) -> Camera {
    let c1 = Camera { resolution: (c.resolution.0, resolution_height_s(c) as i32), ..c };
    let c2 = Camera { center: c1.look_from, ..c1 };
    let vh0 = 2 * fx_mul_s(tan_half_s(c2.v_fov as int), c2.focus_dist as int);
    let vh = if vh0 <= CAM_VIEW_LIM {
        vh0
    } else {
        CAM_VIEW_LIM as int
    };
    let ratio = fx_div_s(
        c2.resolution.0 as int * FX_ONE,
        c2.resolution.1 as int * FX_ONE,
    );
    let vw0 = fx_mul_s(vh, ratio);
    let vw = if vw0 <= CAM_VIEW_LIM {
        vw0
    } else {
        CAM_VIEW_LIM as int
    };
    let uv = u_axis_s(c2);
    let vv = v_axis_s(c2);
    let dr0 = fx_mul_s(tan_half_s(c2.defocus_angle as int), c2.focus_dist as int);
    let dr1 = if dr0 <= CAM_VIEW_LIM {
        dr0
    } else {
        CAM_VIEW_LIM as int
    };
    let dr = if dr1 >= 0 {
        dr1
    } else {
        0
    };
    Camera {
        viewport_dims: (vw as Fx, vh as Fx),
        viewport_u: Vec3d {
            x: fx_mul_s(uv.x as int, vw) as Fx,
            y: fx_mul_s(uv.y as int, vw) as Fx,
            z: fx_mul_s(uv.z as int, vw) as Fx,
        },
        viewport_v: Vec3d {
            x: fx_mul_s(-vv.x as int, vh) as Fx,
            y: fx_mul_s(-vv.y as int, vh) as Fx,
            z: fx_mul_s(-vv.z as int, vh) as Fx,
        },
        defocus_radius: dr as Fx,
        ..c2
    }
}

impl Camera {
    /// The forward basis vector.
    fn w(&self) -> (r: Vec3d)
        requires
            camera_wf(*self),
        ensures
            r == w_axis_s(*self),
            bounded_s(r, 2 * FX_ONE as int),
    {
        let d = self.look_from.sub(&self.look_at);
        if d.length_squared() > 0 {
            d.unit_vector()
        } else {
            Vec3d::new(0, 0, FX_ONE)
        }
    }

    /// The right basis vector.
    fn u(&self) -> (r: Vec3d)
        requires
            camera_wf(*self),
        ensures
            r == u_axis_s(*self),
            bounded_s(r, 2 * FX_ONE as int),
    {
        let wv = self.w();
        let n = cross(&self.v_up, &wv);
        proof {
            crate::vec3d::lemma_cross_s_bound(self.v_up, wv, 1099511627776, 131072);
        }
        if n.length_squared() > 0 {
            n.unit_vector()
        } else {
            Vec3d::new(FX_ONE, 0, 0)
        }
    }

    /// The up basis vector.
    fn v(&self) -> (r: Vec3d)
        requires
            camera_wf(*self),
        ensures
            r == v_axis_s(*self),
            bounded_s(r, 8 * FX_ONE as int),
    {
        let wv = self.w();
        let uv = self.u();
        proof {
            crate::vec3d::lemma_cross_s_bound(wv, uv, 131072, 131072);
        }
        cross(&wv, &uv)
    }

    /// A camera with the standard defaults, its viewport derived.
    pub fn new() -> (r: Camera)
        ensures
            camera_wf(r),
            r.resolution.0 == 1080,
            r.samples_per_pixel == 1,
            r.samples_scale == FX_ONE,
            r.max_depth == 10,
            r.v_fov == 90 * FX_ONE,
            r.background_color == (Vec3d { x: 0 as Fx, y: 0 as Fx, z: 0 as Fx }),
            r.look_from == (Vec3d { x: 0 as Fx, y: 0 as Fx, z: 0 as Fx }),
            r.look_at == (Vec3d { x: 0 as Fx, y: 0 as Fx, z: (-FX_ONE) as Fx }),
            r.v_up == (Vec3d { x: 0 as Fx, y: FX_ONE, z: 0 as Fx }),
            r.defocus_angle == 0,
            r.focus_dist == 10 * FX_ONE,
            r.aspect_ratio == fx_div_s(16 * FX_ONE as int, 9 * FX_ONE as int),
            r.center == (Vec3d { x: 0 as Fx, y: 0 as Fx, z: 0 as Fx }),
            r == camera_initialize_s(camera_default_config_s()),
    {
        let mut cam = Camera {
            center: Vec3d::zero(),
            aspect_ratio: fx_div(16 * FX_ONE, 9 * FX_ONE),
            resolution: (1080, 1),
            viewport_dims: (0, 0),
            viewport_u: Vec3d::zero(),
            viewport_v: Vec3d::zero(),
            samples_per_pixel: 1,
            samples_scale: FX_ONE,
            max_depth: 10,
            v_fov: 90 * FX_ONE,
            look_from: Vec3d::zero(),
            look_at: Vec3d::new(0, 0, -FX_ONE),
            v_up: Vec3d::new(0, FX_ONE, 0),
            defocus_angle: 0,
            defocus_radius: 0,
            focus_dist: 10 * FX_ONE,
            background_color: Vec3d::zero(),
        };
        proof {
            crate::fixed::lemma_fx_div_s_bound(
                16 * FX_ONE as int,
                9 * FX_ONE as int,
                16 * FX_ONE as int,
            );
            crate::fixed::lemma_tdivq_abs(16 * FX_ONE as int * FX_ONE, 9 * FX_ONE as int);
            vstd::arithmetic::mul::lemma_mul_nonnegative(16 * FX_ONE as int, FX_ONE as int);
            vstd::arithmetic::div_mod::lemma_div_is_ordered(
                9 * FX_ONE as int,
                16 * FX_ONE as int * FX_ONE,
                9 * FX_ONE as int,
            );
            vstd::arithmetic::div_mod::lemma_div_by_self(9 * FX_ONE as int);
        }
        cam.initialize();
        cam
    }

    /// Derives the viewport basis from the current configuration; run
    /// immediately before rendering.
    #[verifier::rlimit(100)]
    pub fn initialize(&mut self)
        requires
            camera_wf(*old(self)),
        ensures
            camera_wf(*final(self)),
            final(self).look_from == old(self).look_from,
            final(self).look_at == old(self).look_at,
            final(self).v_up == old(self).v_up,
            final(self).center == old(self).look_from,
            final(self).samples_per_pixel == old(self).samples_per_pixel,
            final(self).samples_scale == old(self).samples_scale,
            final(self).max_depth == old(self).max_depth,
            final(self).background_color == old(self).background_color,
            final(self).resolution.0 == old(self).resolution.0,
            final(self).v_fov == old(self).v_fov,
            final(self).aspect_ratio == old(self).aspect_ratio,
            final(self).defocus_angle == old(self).defocus_angle,
            final(self).focus_dist == old(self).focus_dist,
            *final(self) == camera_initialize_s(*old(self)),
    {
        self.update_resolution_height();
        self.center = self.look_from;
        let theta = fx_mul(self.v_fov, CAM_DEG2RAD);
        let half = fx_mul(theta, FX_HALF);
        let sn = fx_sin(half);
        let mut cs = fx_cos(half);
        if cs == 0 {
            cs = 1;
        }
        let h0 = fx_div(sn, cs);
        let h = fx_max(0, fx_min(h0, CAM_TAN_LIM));
        proof {
            crate::fixed::lemma_fx_mul_s_bound(h as int, self.focus_dist as int, 67108864, 1099511627776);
            crate::fixed::lemma_fx_mul_nonneg(h as int, self.focus_dist as int);
        }
        let vh0 = 2 * fx_mul(h, self.focus_dist);
        let viewport_height = fx_min(vh0, CAM_VIEW_LIM);
        let wf = fx_from_int(self.resolution.0 as i128);
        let hf = fx_from_int(self.resolution.1 as i128);
        let ratio = fx_div(wf, hf);
        proof {
            lemma_fx_div_shrink(wf as int, hf as int);
            crate::fixed::lemma_fx_div_nonneg(wf as int, hf as int);
            crate::fixed::lemma_fx_mul_s_bound(
                viewport_height as int,
                ratio as int,
                4294967296,
                1073741824,
            );
        }
        proof {
            crate::fixed::lemma_fx_mul_nonneg(viewport_height as int, ratio as int);
        }
        let vw0 = fx_mul(viewport_height, ratio);
        let viewport_width = fx_min(vw0, CAM_VIEW_LIM);
        self.viewport_dims = (viewport_width, viewport_height);
        let uv = self.u();
        let vv = self.v();
        proof {
            crate::fixed::lemma_fx_mul_s_bound(uv.x as int, viewport_width as int, 131072, 4294967296);
            crate::fixed::lemma_fx_mul_s_bound(uv.y as int, viewport_width as int, 131072, 4294967296);
            crate::fixed::lemma_fx_mul_s_bound(uv.z as int, viewport_width as int, 131072, 4294967296);
            crate::fixed::lemma_fx_mul_s_bound(-(vv.x as int), viewport_height as int, 524288, 4294967296);
            crate::fixed::lemma_fx_mul_s_bound(-(vv.y as int), viewport_height as int, 524288, 4294967296);
            crate::fixed::lemma_fx_mul_s_bound(-(vv.z as int), viewport_height as int, 524288, 4294967296);
        }
        self.viewport_u = uv.scale(viewport_width);
        self.viewport_v = vv.neg().scale(viewport_height);
        let dtheta = fx_mul(self.defocus_angle, CAM_DEG2RAD);
        let dhalf = fx_mul(dtheta, FX_HALF);
        let dsn = fx_sin(dhalf);
        let mut dcs = fx_cos(dhalf);
        if dcs == 0 {
            dcs = 1;
        }
        let dt0 = fx_div(dsn, dcs);
        let dt = fx_max(0, fx_min(dt0, CAM_TAN_LIM));
        proof {
            crate::fixed::lemma_fx_mul_s_bound(dt as int, self.focus_dist as int, 67108864, 1099511627776);
            crate::fixed::lemma_fx_mul_nonneg(dt as int, self.focus_dist as int);
        }
        let dr0 = fx_mul(dt, self.focus_dist);
        self.defocus_radius = fx_max(0, fx_min(dr0, CAM_VIEW_LIM));
    }

    /// Recomputes the image height from the width and aspect ratio,
    /// keeping it within the resolution limits.
    fn update_resolution_height(&mut self)
        requires
            camera_wf(*old(self)),
        ensures
            camera_wf(*final(self)),
            *final(self) == (Camera {
                resolution: (old(self).resolution.0, final(self).resolution.1),
                ..*old(self)
            }),
            final(self).resolution.1 == resolution_height_s(*old(self)),
            1 <= final(self).resolution.1 <= CAM_RES_LIM,
    {
        let wf = fx_from_int(self.resolution.0 as i128);
        let q = fx_div(wf, self.aspect_ratio);
        let h0 = fx_floor(q);
        let height: i32 = if h0 < 1 {
            1
        } else if h0 > CAM_RES_LIM as i128 {
            CAM_RES_LIM
        } else {
            h0 as i32
        };
        self.resolution.1 = height;
    }

    /// Updates where the camera looks from.
    pub fn set_look_from(&mut self, look_from: Vec3d)
        requires
            camera_wf(*old(self)),
            bounded_s(look_from, GEOM_LIM as int),
        ensures
            *final(self) == (Camera { look_from, ..*old(self) }),
            camera_wf(*final(self)),
    {
        self.look_from = look_from;
    }

    /// Updates where the camera looks at.
    pub fn set_look_at(&mut self, look_at: Vec3d)
        requires
            camera_wf(*old(self)),
            bounded_s(look_at, GEOM_LIM as int),
        ensures
            *final(self) == (Camera { look_at, ..*old(self) }),
            camera_wf(*final(self)),
    {
        self.look_at = look_at;
    }

    /// Updates the camera-relative up direction.
    pub fn set_v_up(&mut self, v_up: Vec3d)
        requires
            camera_wf(*old(self)),
            bounded_s(v_up, GEOM_LIM as int),
        ensures
            *final(self) == (Camera { v_up, ..*old(self) }),
            camera_wf(*final(self)),
    {
        self.v_up = v_up;
    }

    /// The distance from the camera to the look-at point.
    pub fn focal_length(&self) -> (r: Fx)
        requires
            camera_wf(*self),
        ensures
            r == crate::vec3d::length_s(
                Vec3d {
                    x: (self.look_from.x - self.look_at.x) as Fx,
                    y: (self.look_from.y - self.look_at.y) as Fx,
                    z: (self.look_from.z - self.look_at.z) as Fx,
                },
            ),
    {
        let d = self.look_from.sub(&self.look_at);
        d.length()
    }

    /// Updates the number of samples per pixel and the averaging scale.
    pub fn set_samples_per_pixel(&mut self, samples_per_pixel: i32)
        requires
            camera_wf(*old(self)),
            1 <= samples_per_pixel <= 4096,
        ensures
            final(self).samples_per_pixel == samples_per_pixel,
            final(self).samples_scale == fx_div_s(
                FX_ONE as int,
                samples_per_pixel as int * FX_ONE,
            ),
            camera_wf(*final(self)),
    {
        self.samples_per_pixel = samples_per_pixel;
        let sf = fx_from_int(samples_per_pixel as i128);
        proof {
            lemma_fx_div_shrink(FX_ONE as int, sf as int);
            crate::fixed::lemma_tdivq_abs(FX_ONE as int * FX_ONE, sf as int);
            vstd::arithmetic::mul::lemma_mul_nonnegative(FX_ONE as int, FX_ONE as int);
            vstd::arithmetic::div_mod::lemma_div_pos_is_pos(FX_ONE as int * FX_ONE, sf as int);
        }
        self.samples_scale = fx_div(FX_ONE, sf);
    }

    /// Updates the vertical field of view, in degrees.
    pub fn set_v_fov(&mut self, v_fov: Fx)
        requires
            camera_wf(*old(self)),
            abs_i(v_fov as int) <= 360 * FX_ONE,
        ensures
            *final(self) == (Camera { v_fov, ..*old(self) }),
            camera_wf(*final(self)),
    {
        self.v_fov = v_fov;
    }

    /// Updates the recursion budget of the estimator.
    pub fn set_depth(&mut self, max_depth: i32)
        requires
            camera_wf(*old(self)),
            0 <= max_depth <= 64,
        ensures
            *final(self) == (Camera { max_depth, ..*old(self) }),
            camera_wf(*final(self)),
    {
        self.max_depth = max_depth;
    }

    /// Updates the aspect ratio.
    pub fn set_aspect_ratio(&mut self, aspect_ratio: Fx)
        requires
            camera_wf(*old(self)),
            0 < aspect_ratio < FX_MUL_LIM,
        ensures
            *final(self) == (Camera { aspect_ratio, ..*old(self) }),
            camera_wf(*final(self)),
    {
        self.aspect_ratio = aspect_ratio;
    }

    /// Updates the image width in pixels.
    pub fn set_resolution_width(&mut self, width: i32)
        requires
            camera_wf(*old(self)),
            1 <= width <= CAM_RES_LIM,
        ensures
            final(self).resolution.0 == width,
            final(self).resolution.1 == old(self).resolution.1,
            camera_wf(*final(self)),
    {
        self.resolution.0 = width;
    }

    /// Updates the defocus angle, in degrees.
    pub fn set_defocus_angle(&mut self, angle: Fx)
        requires
            camera_wf(*old(self)),
            abs_i(angle as int) <= 360 * FX_ONE,
        ensures
            *final(self) == (Camera { defocus_angle: angle, ..*old(self) }),
            camera_wf(*final(self)),
    {
        self.defocus_angle = angle;
    }

    /// Updates the focus distance.
    pub fn set_focus_dist(&mut self, focus_dist: Fx)
        requires
            camera_wf(*old(self)),
            0 < focus_dist <= GEOM_LIM,
        ensures
            *final(self) == (Camera { focus_dist, ..*old(self) }),
            camera_wf(*final(self)),
    {
        self.focus_dist = focus_dist;
    }

    /// Updates the background color.
    pub fn set_background_color(&mut self, color: Color)
        requires
            camera_wf(*old(self)),
            bounded_s(color, FX_ONE as int),
        ensures
            *final(self) == (Camera { background_color: color, ..*old(self) }),
            camera_wf(*final(self)),
    {
        self.background_color = color;
    }

    /// The image width in pixels.
    pub fn resolution_width(&self) -> (r: i32)
        ensures
            r == self.resolution.0,
    {
        self.resolution.0
    }

    /// The image height in pixels.
    pub fn resolution_height(&self) -> (r: i32)
        ensures
            r == self.resolution.1,
    {
        self.resolution.1
    }

    /// The viewport width.
    pub fn viewport_width(&self) -> (r: Fx)
        ensures
            r == self.viewport_dims.0,
    {
        self.viewport_dims.0
    }

    /// The viewport height.
    pub fn viewport_height(&self) -> (r: Fx)
        ensures
            r == self.viewport_dims.1,
    {
        self.viewport_dims.1
    }

    /// The viewport step from one pixel to the next along a row.
    pub fn pixel_delta_u(&self) -> (r: Vec3d)
        requires
            camera_wf(*self),
        ensures
            r == pixel_delta_u_s(*self),
            bounded_s(r, 17179869184),
    {
        proof {
            lemma_delta_bounds(*self);
        }
        self.viewport_u.div_scalar(fx_from_int(self.resolution.0 as i128))
    }

    /// The viewport step from one pixel to the next down a column.
    pub fn pixel_delta_v(&self) -> (r: Vec3d)
        requires
            camera_wf(*self),
        ensures
            r == pixel_delta_v_s(*self),
            bounded_s(r, 68719476736),
    {
        proof {
            lemma_delta_bounds(*self);
        }
        self.viewport_v.div_scalar(fx_from_int(self.resolution.1 as i128))
    }

    /// The world-space corner of the viewport.
    pub fn viewport_upper_left(&self) -> (r: Point3d)
        requires
            camera_wf(*self),
        ensures
            r == viewport_upper_left_s(*self),
            bounded_s(r, 8796093022208),
    {
        let wv = self.w();
        proof {
            crate::fixed::lemma_fx_mul_s_bound(wv.x as int, self.focus_dist as int, 131072, 1099511627776);
            crate::fixed::lemma_fx_mul_s_bound(wv.y as int, self.focus_dist as int, 131072, 1099511627776);
            crate::fixed::lemma_fx_mul_s_bound(wv.z as int, self.focus_dist as int, 131072, 1099511627776);
            lemma_half_shrinks(self.viewport_u);
            lemma_half_shrinks(self.viewport_v);
        }
        let shifted = self.center.sub(&wv.scale(self.focus_dist));
        let half_u = self.viewport_u.scale(FX_HALF);
        let half_v = self.viewport_v.scale(FX_HALF);
        shifted.sub(&half_u).sub(&half_v)
    }

    /// The world-space center of the first pixel.
    pub fn pixel_upper_left(&self) -> (r: Point3d)
        requires
            camera_wf(*self),
        ensures
            r == pixel_upper_left_s(*self),
            bounded_s(r, 9345848836096),
    {
        let vul = self.viewport_upper_left();
        let du = self.pixel_delta_u();
        let dv = self.pixel_delta_v();
        proof {
            lemma_half_shrinks(
                Vec3d {
                    x: (du.x + dv.x) as Fx,
                    y: (du.y + dv.y) as Fx,
                    z: (du.z + dv.z) as Fx,
                },
            );
        }
        vul.add(&du.add(&dv).scale(FX_HALF))
    }

    /// The world-space center of the pixel at the given coordinates.
    pub fn pixel_coords(&self, w: Fx, h: Fx) -> (r: Point3d)
        requires
            camera_wf(*self),
            abs_i(w as int) <= 2147483648,
            abs_i(h as int) <= 2147483648,
        ensures
            r == pixel_coords_s(*self, w as int, h as int),
    {
        let du = self.pixel_delta_u();
        let dv = self.pixel_delta_v();
        proof {
            crate::fixed::lemma_fx_mul_s_bound(du.x as int, w as int, 17179869184, 2147483648);
            crate::fixed::lemma_fx_mul_s_bound(du.y as int, w as int, 17179869184, 2147483648);
            crate::fixed::lemma_fx_mul_s_bound(du.z as int, w as int, 17179869184, 2147483648);
            crate::fixed::lemma_fx_mul_s_bound(dv.x as int, h as int, 68719476736, 2147483648);
            crate::fixed::lemma_fx_mul_s_bound(dv.y as int, h as int, 68719476736, 2147483648);
            crate::fixed::lemma_fx_mul_s_bound(dv.z as int, h as int, 68719476736, 2147483648);
        }
        let pul = self.pixel_upper_left();
        pul.add(&du.scale(w)).add(&dv.scale(h))
    }

    /// What the estimator answers, step for step, over the generator
    /// state: black at an exhausted depth, the background on a miss,
    /// and on a hit the material's emission joined with the attenuated
    /// color of the scattered ray; out-of-range geometry absorbs.
    /// Meaningful for worlds free of participating media, whose
    /// intersections the hit mirror does not model.
    pub open spec fn ray_color_s(
        world: Hittable,
        ray: Ray,
        depth: int,
        background: Color,
        state: u64,
    ) -> (Color, u64)
        decreases depth,
    {
        if depth <= 0 {
            (Vec3d { x: 0 as Fx, y: 0 as Fx, z: 0 as Fx }, state)
        } else {
            let near = Interval { min: 7 as Fx, max: FX_INF };
            match hittable_hit_s(world, ray, near) {
                None => (background, state),
                Some(d) => if !bounded_s(d.point, FX_MUL_LIM as int - 1) {
                    (Vec3d { x: 0 as Fx, y: 0 as Fx, z: 0 as Fx }, state)
                } else {
                    let m = crate::object::hit::hit_material_s(world, ray, near);
                    let emitted = crate::object::material::emitted_s(
                        m,
                        d.u as int,
                        d.v as int,
                        d.point,
                    );
                    let scat = crate::object::material::scatter_mirror_s(
                        m,
                        ray,
                        d.point,
                        d.normal,
                        d.front_face,
                        d.u as int,
                        d.v as int,
                        state,
                    );
                    let s1 = crate::object::material::scatter_state_mirror_s(
                        m,
                        ray,
                        d.point,
                        d.normal,
                        d.front_face,
                        state,
                    );
                    match scat {
                        Some((Some(sr), att)) => if !(bounded_s(sr.origin, VEC_LIM as int)
                            && bounded_s(sr.direction, VEC_LIM as int) && 0 <= sr.time
                            && sr.time <= FX_ONE) {
                            (emitted, s1)
                        } else {
                            let rec = Camera::ray_color_s(world, sr, depth - 1, background, s1);
                            (
                                Vec3d {
                                    x: (fx_mul_s(att.x as int, rec.0.x as int) + emitted.x) as Fx,
                                    y: (fx_mul_s(att.y as int, rec.0.y as int) + emitted.y) as Fx,
                                    z: (fx_mul_s(att.z as int, rec.0.z as int) + emitted.z) as Fx,
                                },
                                rec.1,
                            )
                        },
                        _ => (emitted, s1),
                    }
                },
            }
        }
    }

    /// The color carried back along a ray: the recursive Monte Carlo
    /// estimator, truncated at the depth budget.  On a miss the
    /// background answers; on a hit the material's emission joins the
    /// attenuated color of the scattered ray, if the material scatters.
    pub fn ray_color(ray: &Ray, world: &Hittable, depth: i32, background: &Color, rng: &mut Prng)
        -> (r: Color)
        requires
            hittable_wf(*world),
            ray_wf(*ray),
            bounded_s(*background, FX_ONE as int),
            depth <= 64,
        ensures
            bounded_s(r, (if depth >= 0 { depth + 1 } else { 1 }) * 1048576),
            depth <= 0 ==> r == (Vec3d { x: 0 as Fx, y: 0 as Fx, z: 0 as Fx }),
            deterministic_s(*world) && depth > 0 && hittable_hit_s(
                *world,
                *ray,
                Interval { min: 7, max: FX_INF },
            ) is None ==> r == *background,
            deterministic_s(*world) ==> r == Camera::ray_color_s(
                *world,
                *ray,
                depth as int,
                *background,
                old(rng).state,
            ).0 && final(rng).state == Camera::ray_color_s(
                *world,
                *ray,
                depth as int,
                *background,
                old(rng).state,
            ).1,
        decreases (if depth >= 0 { depth + 1 } else { 0 }) as int,
    {
        if depth <= 0 {
            return Vec3d::zero();
        }
        let near = Interval { min: 7, max: FX_INF };
        let found = world.hit(ray, &near, rng);
        match found {
            None => *background,
            Some(hit_record) => {
                if !(fx_in_range(hit_record.point.x, FX_MUL_LIM - 1) && fx_in_range(
                    hit_record.point.y,
                    FX_MUL_LIM - 1,
                ) && fx_in_range(hit_record.point.z, FX_MUL_LIM - 1)) {
                    return Vec3d::zero();
                }
                let emitted = hit_record.material.emitted(
                    hit_record.u,
                    hit_record.v,
                    &hit_record.point,
                );
                let scattered = hit_record.material.scatter(ray, &hit_record, rng);
                match scattered {
                    Some((Some(scattered_ray), attenuation)) => {
                        if !(fx_in_range(scattered_ray.origin.x, VEC_LIM) && fx_in_range(
                            scattered_ray.origin.y,
                            VEC_LIM,
                        ) && fx_in_range(scattered_ray.origin.z, VEC_LIM) && fx_in_range(
                            scattered_ray.direction.x,
                            VEC_LIM,
                        ) && fx_in_range(scattered_ray.direction.y, VEC_LIM) && fx_in_range(
                            scattered_ray.direction.z,
                            VEC_LIM,
                        ) && 0 <= scattered_ray.time && scattered_ray.time <= FX_ONE) {
                            return emitted;
                        }
                        let rec_color = Camera::ray_color(
                            &scattered_ray,
                            world,
                            depth - 1,
                            background,
                            rng,
                        );
                        proof {
                            lemma_attenuation_bounds(attenuation, rec_color, depth as int);
                        }
                        let mixed = attenuation.mul(&rec_color);
                        mixed.add(&emitted)
                    },
                    _ => emitted,
                }
            },
        }
    }

    /// A point on the defocus disk around the camera center.
    fn defocus_disk_sample(&self, rng: &mut Prng) -> (r: Point3d)
        requires
            camera_wf(*self),
        ensures
            bounded_s(r, VEC_LIM as int),
            (r, final(rng).state) == defocus_disk_sample_s(*self, old(rng).state),
    {
        let p = Vec3d::random_in_unit_disk(rng);
        let uv = self.u();
        let vv = self.v();
        proof {
            lemma_disk_bounds(*self, uv, vv, p);
        }
        let ddu = uv.scale(self.defocus_radius);
        let ddv = vv.scale(self.defocus_radius);
        proof {
            crate::fixed::lemma_fx_mul_s_bound(ddu.x as int, p.x as int, 8796093022208, 65536);
            crate::fixed::lemma_fx_mul_s_bound(ddu.y as int, p.x as int, 8796093022208, 65536);
            crate::fixed::lemma_fx_mul_s_bound(ddu.z as int, p.x as int, 8796093022208, 65536);
            crate::fixed::lemma_fx_mul_s_bound(ddv.x as int, p.y as int, 35184372088832, 65536);
            crate::fixed::lemma_fx_mul_s_bound(ddv.y as int, p.y as int, 35184372088832, 65536);
            crate::fixed::lemma_fx_mul_s_bound(ddv.z as int, p.y as int, 35184372088832, 65536);
        }
        self.center.add(&ddu.scale(p.x)).add(&ddv.scale(p.y))
    }

    /// A randomly jittered camera ray through the given pixel: the
    /// pixel center offset inside its cell, the origin possibly moved
    /// onto the defocus disk, and a random time for motion blur.
    pub fn sample_ray(&self, i: i32, j: i32, rng: &mut Prng) -> (r: Ray)
        requires
            camera_wf(*self),
            0 <= i <= CAM_RES_LIM,
            0 <= j <= CAM_RES_LIM,
        ensures
            ray_wf(r),
            r == camera_sample_ray_s(*self, i as int, j as int, old(rng).state),
            final(rng).state == camera_sample_state_s(*self, old(rng).state),
    {
        let offset_i = rng.next_unit();
        let offset_j = rng.next_unit();
        let pixel_sample = self.pixel_coords(
            fx_from_int(i as i128) + offset_i,
            fx_from_int(j as i128) + offset_j,
        );
        let ray_origin = if self.defocus_angle <= 0 {
            self.center
        } else {
            self.defocus_disk_sample(rng)
        };
        let time = rng.next_unit();
        if !(fx_in_range(pixel_sample.x, 35184372088832) && fx_in_range(
            pixel_sample.y,
            35184372088832,
        ) && fx_in_range(pixel_sample.z, 35184372088832)) {
            return Ray::new(ray_origin, Vec3d::new(0, 0, -FX_ONE), time);
        }
        let direction = pixel_sample.sub(&ray_origin);
        if !(fx_in_range(direction.x, VEC_LIM) && fx_in_range(direction.y, VEC_LIM)
            && fx_in_range(direction.z, VEC_LIM)) {
            return Ray::new(ray_origin, Vec3d::new(0, 0, -FX_ONE), time);
        }
        Ray::new(ray_origin, direction, time)
    }

    /// The running sum of the first `n` sample estimates of one pixel,
    /// with the generator state threaded through sampler and estimator.
    pub open spec fn render_samples_s(
        c: Camera,
        world: Hittable,
        w: int,
        h: int,
        state: u64,
        n: int,
    ) -> (Color, u64)
        decreases n,
    {
        if n <= 0 {
            (Vec3d { x: 0 as Fx, y: 0 as Fx, z: 0 as Fx }, state)
        } else {
            let prev = Camera::render_samples_s(c, world, w, h, state, n - 1);
            let ray = camera_sample_ray_s(c, w, h, prev.1);
            let s1 = camera_sample_state_s(c, prev.1);
            let cc = Camera::ray_color_s(world, ray, c.max_depth as int, c.background_color, s1);
            (
                Vec3d {
                    x: (prev.0.x + cc.0.x) as Fx,
                    y: (prev.0.y + cc.0.y) as Fx,
                    z: (prev.0.z + cc.0.z) as Fx,
                },
                cc.1,
            )
        }
    }

    /// One pixel of the render: the sample sum scaled by the averaging
    /// factor, with the state the samples left behind.
    pub open spec fn render_pixel_s(
        c: Camera,
        world: Hittable,
        w: int,
        h: int,
        state: u64,
    ) -> (Color, u64) {
        let sum = Camera::render_samples_s(c, world, w, h, state, c.samples_per_pixel as int);
        (
            Vec3d {
                x: fx_mul_s(sum.0.x as int, c.samples_scale as int) as Fx,
                y: fx_mul_s(sum.0.y as int, c.samples_scale as int) as Fx,
                z: fx_mul_s(sum.0.z as int, c.samples_scale as int) as Fx,
            },
            sum.1,
        )
    }

    /// The averaged color of one pixel: the mean of the estimator over
    /// the configured number of jittered samples.
    pub fn render_pixel(&self, world: &Hittable, w: i32, h: i32, rng: &mut Prng) -> (r: Color)
        requires
            camera_wf(*self),
            hittable_wf(*world),
            0 <= w <= CAM_RES_LIM,
            0 <= h <= CAM_RES_LIM,
        ensures
            bounded_s(r, 279172874240),
            self.samples_per_pixel == 1 && self.defocus_angle <= 0 && self.max_depth >= 1
                && deterministic_s(*world) && hittable_hit_s(
                *world,
                camera_sample_ray_s(*self, w as int, h as int, old(rng).state),
                Interval { min: 7, max: FX_INF },
            ) is None ==> {
                &&& r.x == fx_mul_s(self.background_color.x as int, self.samples_scale as int)
                &&& r.y == fx_mul_s(self.background_color.y as int, self.samples_scale as int)
                &&& r.z == fx_mul_s(self.background_color.z as int, self.samples_scale as int)
            },
            deterministic_s(*world) ==> r == Camera::render_pixel_s(
                *self,
                *world,
                w as int,
                h as int,
                old(rng).state,
            ).0 && final(rng).state == Camera::render_pixel_s(
                *self,
                *world,
                w as int,
                h as int,
                old(rng).state,
            ).1,
    {
        let ghost miss_case = self.samples_per_pixel == 1 && self.defocus_angle <= 0
            && self.max_depth >= 1 && deterministic_s(*world) && hittable_hit_s(
            *world,
            camera_sample_ray_s(*self, w as int, h as int, old(rng).state),
            Interval { min: 7, max: FX_INF },
        ) is None;
        let mut color = Vec3d::zero();
        let mut s: i32 = 0;
        while s < self.samples_per_pixel
            invariant
                camera_wf(*self),
                hittable_wf(*world),
                0 <= w <= CAM_RES_LIM,
                0 <= h <= CAM_RES_LIM,
                0 <= s <= self.samples_per_pixel,
                bounded_s(color, s as int * 68157440int),
                miss_case == (self.samples_per_pixel == 1 && self.defocus_angle <= 0
                    && self.max_depth >= 1 && deterministic_s(*world) && hittable_hit_s(
                    *world,
                    camera_sample_ray_s(*self, w as int, h as int, old(rng).state),
                    Interval { min: 7, max: FX_INF },
                ) is None),
                miss_case && s == 0 ==> *rng == *old(rng) && color == (Vec3d {
                    x: 0 as Fx,
                    y: 0 as Fx,
                    z: 0 as Fx,
                }),
                miss_case && s == 1 ==> color == self.background_color,
                deterministic_s(*world) ==> (color, rng.state) == Camera::render_samples_s(
                    *self,
                    *world,
                    w as int,
                    h as int,
                    old(rng).state,
                    s as int,
                ),
            decreases self.samples_per_pixel - s,
        {
            let ray = self.sample_ray(w, h, rng);
            let sample = Camera::ray_color(&ray, world, self.max_depth, &self.background_color, rng);
            color = color.add(&sample);
            s = s + 1;
        }
        proof {
            lemma_fx_attenuate(self.samples_scale as int, color.x as int);
            lemma_fx_attenuate(self.samples_scale as int, color.y as int);
            lemma_fx_attenuate(self.samples_scale as int, color.z as int);
            vstd::arithmetic::mul::lemma_mul_is_commutative(
                self.samples_scale as int,
                color.x as int,
            );
            vstd::arithmetic::mul::lemma_mul_is_commutative(
                self.samples_scale as int,
                color.y as int,
            );
            vstd::arithmetic::mul::lemma_mul_is_commutative(
                self.samples_scale as int,
                color.z as int,
            );
            lemma_scale_commutes(color, self.samples_scale as int);
        }
        color.scale(self.samples_scale)
    }

    /// The generator seed of one pixel's task: the base seed mixed with
    /// the pixel coordinates, with the zero seed replaced as
    /// `Prng::from_seed` replaces it.
    pub open spec fn pixel_seed_s(base: u64, w: int, h: int) -> u64 {
        let mixed = base ^ (((h as u64) << 32) | (w as u64));
        if mixed == 0 {
            0x9e3779b97f4a7c15u64
        } else {
            mixed
        }
    }

    /// Renders the scene to a row-major buffer of linear-light colors,
    /// one per pixel, each pixel's task drawing from its own generator
    /// seeded deterministically from the given base.  Wherever the
    /// pixel's first sampled ray misses a deterministic scene under one
    /// sample and a closed lens, the pixel is exactly the scaled
    /// background.
    #[verifier::spinoff_prover]
    #[verifier::rlimit(60)]
    pub fn render_with_seed(&mut self, world: &Hittable, base: u64) -> (r: Vec<Color>)
        requires
            camera_wf(*old(self)),
            hittable_wf(*world),
        ensures
            r.len() == final(self).resolution.0 * final(self).resolution.1,
            camera_wf(*final(self)),
            *final(self) == camera_initialize_s(*old(self)),
            forall|k: int| 0 <= k < r.len() ==> bounded_s(#[trigger] r[k], 279172874240),
            forall|ww: int, hh: int|
                0 <= ww < final(self).resolution.0 && 0 <= hh < final(self).resolution.1
                    && final(self).samples_per_pixel == 1 && final(self).defocus_angle <= 0
                    && final(self).max_depth >= 1 && deterministic_s(*world) && hittable_hit_s(
                    *world,
                    camera_sample_ray_s(
                        *final(self),
                        ww,
                        hh,
                        Camera::pixel_seed_s(base, ww, hh),
                    ),
                    Interval { min: 7, max: FX_INF },
                ) is None ==> #[trigger] r[hh * final(self).resolution.0 + ww] == (Vec3d {
                    x: fx_mul_s(
                        final(self).background_color.x as int,
                        final(self).samples_scale as int,
                    ) as Fx,
                    y: fx_mul_s(
                        final(self).background_color.y as int,
                        final(self).samples_scale as int,
                    ) as Fx,
                    z: fx_mul_s(
                        final(self).background_color.z as int,
                        final(self).samples_scale as int,
                    ) as Fx,
                }),
            forall|ww: int, hh: int|
                0 <= ww < final(self).resolution.0 && 0 <= hh < final(self).resolution.1
                    && deterministic_s(*world) ==> #[trigger] r[hh * final(self).resolution.0
                    + ww] == Camera::render_pixel_s(
                    *final(self),
                    *world,
                    ww,
                    hh,
                    Camera::pixel_seed_s(base, ww, hh),
                ).0,
    {
        self.initialize();
        let width = self.resolution.0;
        let height = self.resolution.1;
        let mut image: Vec<Color> = Vec::new();
        let mut h: i32 = 0;
        while h < height
            invariant
                camera_wf(*self),
                hittable_wf(*world),
                1 <= width <= CAM_RES_LIM,
                1 <= height <= CAM_RES_LIM,
                width == self.resolution.0,
                height == self.resolution.1,
                0 <= h <= height,
                image.len() == h * width,
                forall|k: int| 0 <= k < image.len() ==> bounded_s(#[trigger] image[k], 279172874240),
                forall|ww: int, hh: int|
                    0 <= ww < width && 0 <= hh < height && hh * width + ww < image.len()
                        && self.samples_per_pixel == 1 && self.defocus_angle <= 0
                        && self.max_depth >= 1 && deterministic_s(*world) && hittable_hit_s(
                        *world,
                        camera_sample_ray_s(*self, ww, hh, Camera::pixel_seed_s(base, ww, hh)),
                        Interval { min: 7, max: FX_INF },
                    ) is None ==> #[trigger] image[hh * width + ww] == (Vec3d {
                        x: fx_mul_s(
                            self.background_color.x as int,
                            self.samples_scale as int,
                        ) as Fx,
                        y: fx_mul_s(
                            self.background_color.y as int,
                            self.samples_scale as int,
                        ) as Fx,
                        z: fx_mul_s(
                            self.background_color.z as int,
                            self.samples_scale as int,
                        ) as Fx,
                    }),
                forall|ww: int, hh: int|
                    0 <= ww < width && 0 <= hh < height && hh * width + ww < image.len()
                        && deterministic_s(*world) ==> #[trigger] image[hh * width + ww]
                        == Camera::render_pixel_s(
                        *self,
                        *world,
                        ww,
                        hh,
                        Camera::pixel_seed_s(base, ww, hh),
                    ).0,
            decreases height - h,
        {
            let mut w: i32 = 0;
            while w < width
                invariant
                    camera_wf(*self),
                    hittable_wf(*world),
                    1 <= width <= CAM_RES_LIM,
                    1 <= height <= CAM_RES_LIM,
                    width == self.resolution.0,
                    height == self.resolution.1,
                    0 <= h < height,
                    0 <= w <= width,
                    image.len() == h * width + w,
                    forall|k: int|
                        0 <= k < image.len() ==> bounded_s(#[trigger] image[k], 279172874240),
                    forall|ww: int, hh: int|
                        0 <= ww < width && 0 <= hh < height && hh * width + ww < image.len()
                            && self.samples_per_pixel == 1 && self.defocus_angle <= 0
                            && self.max_depth >= 1 && deterministic_s(*world) && hittable_hit_s(
                            *world,
                            camera_sample_ray_s(
                                *self,
                                ww,
                                hh,
                                Camera::pixel_seed_s(base, ww, hh),
                            ),
                            Interval { min: 7, max: FX_INF },
                        ) is None ==> #[trigger] image[hh * width + ww] == (Vec3d {
                            x: fx_mul_s(
                                self.background_color.x as int,
                                self.samples_scale as int,
                            ) as Fx,
                            y: fx_mul_s(
                                self.background_color.y as int,
                                self.samples_scale as int,
                            ) as Fx,
                            z: fx_mul_s(
                                self.background_color.z as int,
                                self.samples_scale as int,
                            ) as Fx,
                        }),
                    forall|ww: int, hh: int|
                        0 <= ww < width && 0 <= hh < height && hh * width + ww < image.len()
                            && deterministic_s(*world) ==> #[trigger] image[hh * width + ww]
                            == Camera::render_pixel_s(
                            *self,
                            *world,
                            ww,
                            hh,
                            Camera::pixel_seed_s(base, ww, hh),
                        ).0,
                decreases width - w,
            {
                let seed = base ^ (((h as u64) << 32) | (w as u64));
                let mut rng = Prng::from_seed(seed);
                proof {
                    assert(rng.state == Camera::pixel_seed_s(base, w as int, h as int));
                }
                let color = self.render_pixel(world, w, h, &mut rng);
                let ghost pre_len = image@.len() as int;
                image.push(color);
                proof {
                    assert forall|ww: int, hh: int|
                        0 <= ww < width && 0 <= hh < height && hh * width + ww < image.len()
                            && self.samples_per_pixel == 1 && self.defocus_angle <= 0
                            && self.max_depth >= 1 && deterministic_s(*world) && hittable_hit_s(
                            *world,
                            camera_sample_ray_s(
                                *self,
                                ww,
                                hh,
                                Camera::pixel_seed_s(base, ww, hh),
                            ),
                            Interval { min: 7, max: FX_INF },
                        ) is None implies #[trigger] image[hh * width + ww] == (Vec3d {
                            x: fx_mul_s(
                                self.background_color.x as int,
                                self.samples_scale as int,
                            ) as Fx,
                            y: fx_mul_s(
                                self.background_color.y as int,
                                self.samples_scale as int,
                            ) as Fx,
                            z: fx_mul_s(
                                self.background_color.z as int,
                                self.samples_scale as int,
                            ) as Fx,
                        }) by {
                        let idx = hh * width + ww;
                        if idx < pre_len {
                            assert(image[idx] == image@.subrange(0, pre_len)[idx]);
                        } else {
                            vstd::arithmetic::div_mod::lemma_fundamental_div_mod_converse(
                                idx,
                                width as int,
                                hh,
                                ww,
                            );
                            vstd::arithmetic::div_mod::lemma_fundamental_div_mod_converse(
                                pre_len,
                                width as int,
                                h as int,
                                w as int,
                            );
                            assert(hh == h as int && ww == w as int);
                            assert(image[idx] == color);
                        }
                    }
                    assert forall|ww: int, hh: int|
                        0 <= ww < width && 0 <= hh < height && hh * width + ww < image.len()
                            && deterministic_s(*world) implies #[trigger] image[hh * width + ww]
                        == Camera::render_pixel_s(
                        *self,
                        *world,
                        ww,
                        hh,
                        Camera::pixel_seed_s(base, ww, hh),
                    ).0 by {
                        let idx = hh * width + ww;
                        if idx < pre_len {
                            assert(image[idx] == image@.subrange(0, pre_len)[idx]);
                        } else {
                            vstd::arithmetic::div_mod::lemma_fundamental_div_mod_converse(
                                idx,
                                width as int,
                                hh,
                                ww,
                            );
                            vstd::arithmetic::div_mod::lemma_fundamental_div_mod_converse(
                                pre_len,
                                width as int,
                                h as int,
                                w as int,
                            );
                            assert(hh == h as int && ww == w as int);
                            assert(image[idx] == color);
                        }
                    }
                }
                w = w + 1;
            }
            proof {
                vstd::arithmetic::mul::lemma_mul_is_distributive_add_other_way(
                    width as int,
                    h as int,
                    1,
                );
            }
            h = h + 1;
        }
        proof {
            vstd::arithmetic::mul::lemma_mul_is_commutative(height as int, width as int);
            assert forall|ww: int, hh: int|
                0 <= ww < width && 0 <= hh < height implies #[trigger] (hh * (width as int) + ww)
                < (height as int) * (width as int) by {
                vstd::arithmetic::mul::lemma_mul_inequality(hh, height as int - 1, width as int);
                vstd::arithmetic::mul::lemma_mul_is_commutative(hh, width as int);
                vstd::arithmetic::mul::lemma_mul_is_commutative(height as int - 1, width as int);
                vstd::arithmetic::mul::lemma_mul_is_distributive_sub_other_way(
                    width as int,
                    height as int,
                    1,
                );
                vstd::arithmetic::mul::lemma_mul_is_commutative(height as int, width as int);
            }
        }
        image
    }

    /// Renders the scene with a base seed drawn from the system's
    /// entropy, as the per-pixel tasks of a one-shot render want it.
    pub fn render(&mut self, world: &Hittable) -> (r: Vec<Color>)
        requires
            camera_wf(*old(self)),
            hittable_wf(*world),
        ensures
            r.len() == final(self).resolution.0 * final(self).resolution.1,
            camera_wf(*final(self)),
            *final(self) == camera_initialize_s(*old(self)),
            forall|k: int| 0 <= k < r.len() ==> bounded_s(#[trigger] r[k], 279172874240),
    {
        let base = Prng::from_entropy();
        self.render_with_seed(world, base.state)
    }
}

/// The viewport step along a row, as a specification.
pub open spec fn pixel_delta_u_s(c: Camera) -> Vec3d {
    let d = c.resolution.0 as int * FX_ONE;
    Vec3d {
        x: fx_div_s(c.viewport_u.x as int, d) as Fx,
        y: fx_div_s(c.viewport_u.y as int, d) as Fx,
        z: fx_div_s(c.viewport_u.z as int, d) as Fx,
    }
}

/// The viewport step down a column, as a specification.
pub open spec fn pixel_delta_v_s(c: Camera) -> Vec3d {
    let d = c.resolution.1 as int * FX_ONE;
    Vec3d {
        x: fx_div_s(c.viewport_v.x as int, d) as Fx,
        y: fx_div_s(c.viewport_v.y as int, d) as Fx,
        z: fx_div_s(c.viewport_v.z as int, d) as Fx,
    }
}

/// The viewport corner, as a specification.
pub open spec fn viewport_upper_left_s(c: Camera) -> Point3d {
    let wv = w_axis_s(c);
    let sx = c.center.x - fx_mul_s(wv.x as int, c.focus_dist as int);
    let sy = c.center.y - fx_mul_s(wv.y as int, c.focus_dist as int);
    let sz = c.center.z - fx_mul_s(wv.z as int, c.focus_dist as int);
    Vec3d {
        x: (sx - fx_mul_s(c.viewport_u.x as int, FX_HALF as int) - fx_mul_s(
            c.viewport_v.x as int,
            FX_HALF as int,
        )) as Fx,
        y: (sy - fx_mul_s(c.viewport_u.y as int, FX_HALF as int) - fx_mul_s(
            c.viewport_v.y as int,
            FX_HALF as int,
        )) as Fx,
        z: (sz - fx_mul_s(c.viewport_u.z as int, FX_HALF as int) - fx_mul_s(
            c.viewport_v.z as int,
            FX_HALF as int,
        )) as Fx,
    }
}

/// The first pixel's center, as a specification.
pub open spec fn pixel_upper_left_s(c: Camera) -> Point3d {
    let vul = viewport_upper_left_s(c);
    let du = pixel_delta_u_s(c);
    let dv = pixel_delta_v_s(c);
    Vec3d {
        x: (vul.x + fx_mul_s((du.x + dv.x) as int, FX_HALF as int)) as Fx,
        y: (vul.y + fx_mul_s((du.y + dv.y) as int, FX_HALF as int)) as Fx,
        z: (vul.z + fx_mul_s((du.z + dv.z) as int, FX_HALF as int)) as Fx,
    }
}

/// The center of the pixel at fractional coordinates, as a
/// specification.
pub open spec fn pixel_coords_s(c: Camera, w: int, h: int) -> Point3d {
    let pul = pixel_upper_left_s(c);
    let du = pixel_delta_u_s(c);
    let dv = pixel_delta_v_s(c);
    Vec3d {
        x: (pul.x + fx_mul_s(du.x as int, w) + fx_mul_s(dv.x as int, h)) as Fx,
        y: (pul.y + fx_mul_s(du.y as int, w) + fx_mul_s(dv.y as int, h)) as Fx,
        z: (pul.z + fx_mul_s(du.z as int, w) + fx_mul_s(dv.z as int, h)) as Fx,
    }
}

/// The pixel deltas divide by at least one whole unit.
proof fn lemma_delta_bounds(c: Camera)
    requires
        camera_wf(c),
    ensures
        bounded_s(pixel_delta_u_s(c), 17179869184),
        bounded_s(pixel_delta_v_s(c), 68719476736),
{
    lemma_fx_div_shrink(c.viewport_u.x as int, c.resolution.0 as int * FX_ONE);
    lemma_fx_div_shrink(c.viewport_u.y as int, c.resolution.0 as int * FX_ONE);
    lemma_fx_div_shrink(c.viewport_u.z as int, c.resolution.0 as int * FX_ONE);
    lemma_fx_div_shrink(c.viewport_v.x as int, c.resolution.1 as int * FX_ONE);
    lemma_fx_div_shrink(c.viewport_v.y as int, c.resolution.1 as int * FX_ONE);
    lemma_fx_div_shrink(c.viewport_v.z as int, c.resolution.1 as int * FX_ONE);
}

/// Halving never grows a vector.
proof fn lemma_half_shrinks(v: Vec3d)
    ensures
        abs_i(fx_mul_s(v.x as int, FX_HALF as int)) <= abs_i(v.x as int),
        abs_i(fx_mul_s(v.y as int, FX_HALF as int)) <= abs_i(v.y as int),
        abs_i(fx_mul_s(v.z as int, FX_HALF as int)) <= abs_i(v.z as int),
{
    lemma_fx_attenuate(FX_HALF as int, v.x as int);
    lemma_fx_attenuate(FX_HALF as int, v.y as int);
    lemma_fx_attenuate(FX_HALF as int, v.z as int);
    vstd::arithmetic::mul::lemma_mul_is_commutative(v.x as int, FX_HALF as int);
    vstd::arithmetic::mul::lemma_mul_is_commutative(v.y as int, FX_HALF as int);
    vstd::arithmetic::mul::lemma_mul_is_commutative(v.z as int, FX_HALF as int);
    lemma_mul_swap_attenuate(v.x as int);
    lemma_mul_swap_attenuate(v.y as int);
    lemma_mul_swap_attenuate(v.z as int);
}

/// A product with the half factor on the right equals the one with the
/// half factor on the left.
proof fn lemma_mul_swap_attenuate(a: int)
    ensures
        fx_mul_s(a, FX_HALF as int) == fx_mul_s(FX_HALF as int, a),
{
    vstd::arithmetic::mul::lemma_mul_is_commutative(a, FX_HALF as int);
}

/// The attenuated recursive color stays inside the depth bound.
proof fn lemma_attenuation_bounds(attenuation: Vec3d, rec: Vec3d, depth: int)
    requires
        bounded_s(attenuation, FX_ONE as int),
        bounded_s(rec, depth * 1048576),
        1 <= depth <= 64,
    ensures
        abs_i(fx_mul_s(attenuation.x as int, rec.x as int)) <= depth * 1048576,
        abs_i(fx_mul_s(attenuation.y as int, rec.y as int)) <= depth * 1048576,
        abs_i(fx_mul_s(attenuation.z as int, rec.z as int)) <= depth * 1048576,
{
    lemma_fx_attenuate(attenuation.x as int, rec.x as int);
    lemma_fx_attenuate(attenuation.y as int, rec.y as int);
    lemma_fx_attenuate(attenuation.z as int, rec.z as int);
}

/// The defocus-disk offsets stay small.
proof fn lemma_disk_bounds(c: Camera, uv: Vec3d, vv: Vec3d, p: Vec3d)
    requires
        camera_wf(c),
        bounded_s(uv, 2 * FX_ONE as int),
        bounded_s(vv, 8 * FX_ONE as int),
        bounded_s(p, FX_ONE as int),
    ensures
        abs_i(fx_mul_s(uv.x as int, c.defocus_radius as int)) <= 8796093022208,
        abs_i(fx_mul_s(uv.y as int, c.defocus_radius as int)) <= 8796093022208,
        abs_i(fx_mul_s(uv.z as int, c.defocus_radius as int)) <= 8796093022208,
        abs_i(fx_mul_s(vv.x as int, c.defocus_radius as int)) <= 35184372088832,
        abs_i(fx_mul_s(vv.y as int, c.defocus_radius as int)) <= 35184372088832,
        abs_i(fx_mul_s(vv.z as int, c.defocus_radius as int)) <= 35184372088832,
{
    crate::fixed::lemma_fx_mul_s_bound(uv.x as int, c.defocus_radius as int, 131072, 4294967296);
    crate::fixed::lemma_fx_mul_s_bound(uv.y as int, c.defocus_radius as int, 131072, 4294967296);
    crate::fixed::lemma_fx_mul_s_bound(uv.z as int, c.defocus_radius as int, 131072, 4294967296);
    crate::fixed::lemma_fx_mul_s_bound(vv.x as int, c.defocus_radius as int, 524288, 4294967296);
    crate::fixed::lemma_fx_mul_s_bound(vv.y as int, c.defocus_radius as int, 524288, 4294967296);
    crate::fixed::lemma_fx_mul_s_bound(vv.z as int, c.defocus_radius as int, 524288, 4294967296);
}

/// Scaling a sum of at most 4096 bounded samples stays bounded.
proof fn lemma_scale_commutes(color: Vec3d, scale: int)
    requires
        0 <= scale <= FX_ONE,
        bounded_s(color, 279172874240int),
    ensures
        abs_i(fx_mul_s(color.x as int, scale)) <= 279172874240,
        abs_i(fx_mul_s(color.y as int, scale)) <= 279172874240,
        abs_i(fx_mul_s(color.z as int, scale)) <= 279172874240,
{
    lemma_fx_attenuate(scale, color.x as int);
    lemma_fx_attenuate(scale, color.y as int);
    lemma_fx_attenuate(scale, color.z as int);
    vstd::arithmetic::mul::lemma_mul_is_commutative(color.x as int, scale);
    vstd::arithmetic::mul::lemma_mul_is_commutative(color.y as int, scale);
    vstd::arithmetic::mul::lemma_mul_is_commutative(color.z as int, scale);
}


/// A blank image: every pixel black.
pub open spec fn blank_image_s(n: int) -> Seq<Color> {
    Seq::new(n as nat, |i: int| Vec3d { x: 0 as Fx, y: 0 as Fx, z: 0 as Fx })
}

/// Scattering completed pixels into a row-major buffer, one result at a
/// time: each `(x, y, color)` lands at index `y * width + x`.
pub open spec fn scatter_results_s(
    init: Seq<Color>,
    results: Seq<(usize, usize, Color)>,
    width: int,
) -> Seq<Color>
    decreases results.len(),
{
    if results.len() == 0 {
        init
    } else {
        let prefix = scatter_results_s(init, results.drop_last(), width);
        let last = results.last();
        prefix.update(last.1 as int * width + last.0 as int, last.2)
    }
}

/// Every entry names a pixel inside the image and carries that pixel's
/// color under the per-pixel map `f`.
pub open spec fn pixel_entries_ok(
    results: Seq<(usize, usize, Color)>,
    width: int,
    height: int,
    f: spec_fn(int, int) -> Color,
) -> bool {
    forall|k: int|
        0 <= k < results.len() ==> (#[trigger] results[k]).0 < width && results[k].1 < height
            && results[k].2 == f(results[k].0 as int, results[k].1 as int)
}

/// Some entry delivers the pixel `(x, y)`.
pub open spec fn pixel_covered(
    results: Seq<(usize, usize, Color)>,
    x: int,
    y: int,
) -> bool {
    exists|k: int|
        0 <= k < results.len() && (#[trigger] results[k]).0 == x && results[k].1 == y
}

/// Row-major pixel indices are injective.
proof fn lemma_pixel_index_injective(x1: int, y1: int, x2: int, y2: int, width: int)
    requires
        0 <= x1 < width,
        0 <= x2 < width,
        0 <= y1,
        0 <= y2,
        y1 * width + x1 == y2 * width + x2,
    ensures
        x1 == x2 && y1 == y2,
{
    vstd::arithmetic::div_mod::lemma_fundamental_div_mod_converse(
        y1 * width + x1,
        width,
        y1,
        x1,
    );
    vstd::arithmetic::div_mod::lemma_fundamental_div_mod_converse(
        y2 * width + x2,
        width,
        y2,
        x2,
    );
}

/// What the scatter yields at every pixel: the delivered color where a
/// result covers the pixel, the initial color where none does.
proof fn lemma_scatter_characterizes(
    init: Seq<Color>,
    results: Seq<(usize, usize, Color)>,
    width: int,
    height: int,
    f: spec_fn(int, int) -> Color,
)
    requires
        width >= 1,
        height >= 1,
        init.len() == width * height,
        pixel_entries_ok(results, width, height, f),
    ensures
        scatter_results_s(init, results, width).len() == init.len(),
        forall|x: int, y: int|
            0 <= x < width && 0 <= y < height ==> #[trigger] scatter_results_s(
                init,
                results,
                width,
            )[y * width + x] == if pixel_covered(results, x, y) {
                f(x, y)
            } else {
                init[y * width + x]
            },
    decreases results.len(),
{
    if results.len() == 0 {
        assert forall|x: int, y: int| 0 <= x < width && 0 <= y < height implies !pixel_covered(
            results,
            x,
            y,
        ) by {}
    } else {
        let prefix = results.drop_last();
        let last = results.last();
        assert(pixel_entries_ok(prefix, width, height, f)) by {
            assert forall|k: int|
                0 <= k < prefix.len() implies (#[trigger] prefix[k]).0 < width && prefix[k].1
                < height && prefix[k].2 == f(prefix[k].0 as int, prefix[k].1 as int) by {
                assert(prefix[k] == results[k]);
            }
        }
        lemma_scatter_characterizes(init, prefix, width, height, f);
        let pre_out = scatter_results_s(init, prefix, width);
        let out = scatter_results_s(init, results, width);
        let lx = last.0 as int;
        let ly = last.1 as int;
        let lidx = ly * width + lx;
        assert(0 <= lidx < width * height) by {
            vstd::arithmetic::mul::lemma_mul_inequality(ly, height - 1, width);
            vstd::arithmetic::mul::lemma_mul_is_commutative(ly, width);
            vstd::arithmetic::mul::lemma_mul_is_commutative(height - 1, width);
            vstd::arithmetic::mul::lemma_mul_is_distributive_sub_other_way(width, height, 1);
            vstd::arithmetic::mul::lemma_mul_is_commutative(height, width);
            vstd::arithmetic::mul::lemma_mul_nonnegative(ly, width);
        }
        assert forall|x: int, y: int| 0 <= x < width && 0 <= y < height implies #[trigger] out[y
            * width + x] == if pixel_covered(results, x, y) {
            f(x, y)
        } else {
            init[y * width + x]
        } by {
            let idx = y * width + x;
            assert(0 <= idx < width * height) by {
                vstd::arithmetic::mul::lemma_mul_inequality(y, height - 1, width);
                vstd::arithmetic::mul::lemma_mul_is_commutative(y, width);
                vstd::arithmetic::mul::lemma_mul_is_commutative(height - 1, width);
                vstd::arithmetic::mul::lemma_mul_is_distributive_sub_other_way(
                    width,
                    height,
                    1,
                );
                vstd::arithmetic::mul::lemma_mul_is_commutative(height, width);
                vstd::arithmetic::mul::lemma_mul_nonnegative(y, width);
            }
            if idx == lidx {
                lemma_pixel_index_injective(x, y, lx, ly, width);
                assert(pixel_covered(results, x, y)) by {
                    assert(results[results.len() - 1].0 == x && results[results.len() - 1].1
                        == y);
                }
                assert(out[idx] == last.2);
            } else {
                assert(out[idx] == pre_out[idx]);
                assert(pixel_covered(results, x, y) == pixel_covered(prefix, x, y)) by {
                    if pixel_covered(results, x, y) {
                        let k = choose|k: int|
                            0 <= k < results.len() && (#[trigger] results[k]).0 == x
                                && results[k].1 == y;
                        if k == results.len() - 1 {
                            lemma_pixel_index_injective(x, y, lx, ly, width);
                        } else {
                            assert(prefix[k] == results[k]);
                            assert(pixel_covered(prefix, x, y));
                        }
                    }
                    if pixel_covered(prefix, x, y) {
                        let k = choose|k: int|
                            0 <= k < prefix.len() && (#[trigger] prefix[k]).0 == x && prefix[k].1
                                == y;
                        assert(results[k] == prefix[k]);
                        assert(pixel_covered(results, x, y));
                    }
                }
            }
        }
    }
}

/// The scheduler's correctness: when two deliveries of per-pixel
/// results both carry, for every pixel of the image, the color of the
/// single per-pixel map, the assembled images are identical, whatever
/// order the results arrived in and however the work was partitioned.
pub proof fn lemma_assembly_order_independent(
    init: Seq<Color>,
    results1: Seq<(usize, usize, Color)>,
    results2: Seq<(usize, usize, Color)>,
    width: int,
    height: int,
    f: spec_fn(int, int) -> Color,
)
    requires
        width >= 1,
        height >= 1,
        init.len() == width * height,
        pixel_entries_ok(results1, width, height, f),
        pixel_entries_ok(results2, width, height, f),
        forall|x: int, y: int|
            0 <= x < width && 0 <= y < height ==> #[trigger] pixel_covered(results1, x, y),
        forall|x: int, y: int|
            0 <= x < width && 0 <= y < height ==> #[trigger] pixel_covered(results2, x, y),
    ensures
        scatter_results_s(init, results1, width) == scatter_results_s(init, results2, width),
{
    lemma_scatter_characterizes(init, results1, width, height, f);
    lemma_scatter_characterizes(init, results2, width, height, f);
    let out1 = scatter_results_s(init, results1, width);
    let out2 = scatter_results_s(init, results2, width);
    assert forall|idx: int| 0 <= idx < out1.len() implies out1[idx] == out2[idx] by {
        let y = idx / width;
        let x = idx % width;
        vstd::arithmetic::div_mod::lemma_fundamental_div_mod(idx, width);
        vstd::arithmetic::div_mod::lemma_mod_bound(idx, width);
        assert(0 <= y < height) by {
            vstd::arithmetic::mul::lemma_mul_is_commutative(height, width);
            if y >= height {
                vstd::arithmetic::mul::lemma_mul_inequality(height, y, width);
                vstd::arithmetic::mul::lemma_mul_is_commutative(y, width);
                vstd::arithmetic::mul::lemma_mul_is_commutative(height, width);
            }
            if y < 0 {
                vstd::arithmetic::mul::lemma_mul_nonnegative(y, width);
                vstd::arithmetic::mul::lemma_mul_inequality(y, -1, width);
                vstd::arithmetic::mul::lemma_mul_is_commutative(y, width);
                vstd::arithmetic::mul::lemma_mul_is_commutative(-1, width);
            }
        }
        assert(idx == y * width + x) by {
            vstd::arithmetic::mul::lemma_mul_is_commutative(y, width);
        }
        assert(out1[y * width + x] == f(x, y));
        assert(out2[y * width + x] == f(x, y));
    }
    assert(out1 =~= out2);
}

/// Determinism of the render: for a world free of participating media,
/// two pixel buffers that both carry at every pixel the per-pixel
/// specification of one camera, one world and one base seed are the
/// same image.  Rendering twice with equal inputs, in whatever order
/// and on however many workers, gives bit-identical results.
pub proof fn lemma_render_deterministic(
    c: Camera,
    world: Hittable,
    base: u64,
    r1: Seq<Color>,
    r2: Seq<Color>,
)
    requires
        c.resolution.0 >= 1,
        c.resolution.1 >= 1,
        deterministic_s(world),
        r1.len() == c.resolution.0 * c.resolution.1,
        r2.len() == c.resolution.0 * c.resolution.1,
        forall|ww: int, hh: int|
            0 <= ww < c.resolution.0 && 0 <= hh < c.resolution.1
                ==> #[trigger] r1[hh * c.resolution.0 + ww] == Camera::render_pixel_s(
                c,
                world,
                ww,
                hh,
                Camera::pixel_seed_s(base, ww, hh),
            ).0,
        forall|ww: int, hh: int|
            0 <= ww < c.resolution.0 && 0 <= hh < c.resolution.1
                ==> #[trigger] r2[hh * c.resolution.0 + ww] == Camera::render_pixel_s(
                c,
                world,
                ww,
                hh,
                Camera::pixel_seed_s(base, ww, hh),
            ).0,
    ensures
        r1 == r2,
{
    let width = c.resolution.0 as int;
    let height = c.resolution.1 as int;
    assert forall|idx: int| 0 <= idx < r1.len() implies r1[idx] == r2[idx] by {
        let hh = idx / width;
        let ww = idx % width;
        vstd::arithmetic::div_mod::lemma_fundamental_div_mod(idx, width);
        vstd::arithmetic::div_mod::lemma_mod_bound(idx, width);
        assert(0 <= hh < height) by {
            vstd::arithmetic::mul::lemma_mul_is_commutative(height, width);
            if hh >= height {
                vstd::arithmetic::mul::lemma_mul_inequality(height, hh, width);
                vstd::arithmetic::mul::lemma_mul_is_commutative(hh, width);
                vstd::arithmetic::mul::lemma_mul_is_commutative(height, width);
            }
            if hh < 0 {
                vstd::arithmetic::mul::lemma_mul_nonnegative(hh, width);
                vstd::arithmetic::mul::lemma_mul_inequality(hh, -1, width);
                vstd::arithmetic::mul::lemma_mul_is_commutative(hh, width);
                vstd::arithmetic::mul::lemma_mul_is_commutative(-1, width);
            }
        }
        assert(idx == hh * width + ww) by {
            vstd::arithmetic::mul::lemma_mul_is_commutative(hh, width);
        }
        assert(r1[hh * width + ww] == r2[hh * width + ww]);
    }
    assert(r1 =~= r2);
}

/// Scatters finished pixels into a row-major image buffer; the result
/// does not depend on the order in which the pixels arrive.
pub fn assemble_image(width: usize, height: usize, results: &Vec<(usize, usize, Color)>) -> (r:
    Vec<Color>)
    requires
        1 <= width <= 16384,
        1 <= height <= 16384,
        forall|k: int|
            0 <= k < results.len() ==> (#[trigger] results@[k]).0 < width && results@[k].1
                < height,
    ensures
        r@ == scatter_results_s(blank_image_s(width * height), results@, width as int),
        r.len() == width * height,
{
    proof {
        vstd::arithmetic::mul::lemma_mul_upper_bound(width as int, 16384, height as int, 16384);
    }
    let total = width * height;
    let mut buffer: Vec<Color> = Vec::new();
    let mut i: usize = 0;
    while i < total
        invariant
            0 <= i <= total,
            total == width * height,
            buffer@ =~= blank_image_s(i as int),
        decreases total - i,
    {
        buffer.push(Vec3d::zero());
        proof {
            assert(buffer@ =~= blank_image_s(i + 1));
        }
        i = i + 1;
    }
    proof {
        assert(buffer@ =~= blank_image_s(total as int));
    }
    let n = results.len();
    let mut k: usize = 0;
    while k < n
        invariant
            0 <= k <= n,
            n == results.len(),
            1 <= width <= 16384,
            1 <= height <= 16384,
            total == width * height,
            buffer.len() == total,
            forall|m: int|
                0 <= m < results.len() ==> (#[trigger] results@[m]).0 < width && results@[m].1
                    < height,
            buffer@ == scatter_results_s(
                blank_image_s(total as int),
                results@.subrange(0, k as int),
                width as int,
            ),
        decreases n - k,
    {
        let entry = results[k];
        let x = entry.0;
        let y = entry.1;
        proof {
            vstd::arithmetic::mul::lemma_mul_inequality(y as int, height as int - 1, width as int);
            vstd::arithmetic::mul::lemma_mul_is_commutative(y as int, width as int);
            vstd::arithmetic::mul::lemma_mul_is_commutative(height as int - 1, width as int);
            vstd::arithmetic::mul::lemma_mul_is_distributive_sub_other_way(
                width as int,
                height as int,
                1,
            );
            vstd::arithmetic::mul::lemma_mul_is_commutative(height as int, width as int);
            vstd::arithmetic::mul::lemma_mul_nonnegative(y as int, width as int);
        }
        let idx = y * width + x;
        buffer[idx] = entry.2;
        proof {
            let sub1 = results@.subrange(0, k + 1);
            assert(sub1.drop_last() =~= results@.subrange(0, k as int));
            assert(sub1.last() == results@[k as int]);
        }
        k = k + 1;
    }
    proof {
        assert(results@.subrange(0, n as int) =~= results@);
    }
    buffer
}

} // verus!
