//! Rays and parameter intervals.

use crate::fixed::abs_i;
use crate::fixed::fx_mul;
use crate::fixed::fx_mul_s;
use crate::fixed::Fx;
use crate::fixed::FX_DIV_LIM;
use crate::fixed::FX_HALF;
use crate::fixed::FX_MUL_LIM;
use crate::fixed::FX_MUL_RES_LIM;
use crate::vec3d::bounded_s;
use crate::vec3d::Point3d;
use crate::vec3d::Vec3d;
use vstd::prelude::*;

verus! {

/// The sentinel for an unbounded interval end (2^90): far beyond any
/// scalar the geometry can produce, yet safe for interval arithmetic.
pub const FX_INF: i128 = 1237940039285380274899124224;

/// A ray: an origin, a direction (not necessarily unit length) and a
/// time in `[0, 1]` used for motion interpolation.
#[derive(Clone, Copy, Debug, PartialEq, Eq, Structural)]
pub struct Ray {
    pub origin: Point3d,
    pub direction: Vec3d,
    pub time: Fx,
}

/// The point a ray reaches at parameter `t`.
pub open spec fn ray_at_s(ray: Ray, t: int) -> Vec3d {
    Vec3d {
        x: (ray.origin.x + fx_mul_s(ray.direction.x as int, t)) as Fx,
        y: (ray.origin.y + fx_mul_s(ray.direction.y as int, t)) as Fx,
        z: (ray.origin.z + fx_mul_s(ray.direction.z as int, t)) as Fx,
    }
}

impl Ray {
    /// A ray resting at the origin.
    pub fn default() -> (r: Self)
        ensures
            r.origin == (Vec3d { x: 0 as Fx, y: 0 as Fx, z: 0 as Fx }),
            r.direction == (Vec3d { x: 0 as Fx, y: 0 as Fx, z: 0 as Fx }),
            r.time == 0,
    {
        Ray { origin: Vec3d::zero(), direction: Vec3d::zero(), time: 0 }
    }

    /// A ray from its parts.
    pub fn new(origin: Point3d, direction: Vec3d, time: Fx) -> (r: Self)
        ensures
            r == (Ray { origin, direction, time }),
    {
        Ray { origin, direction, time }
    }

    /// The point the ray reaches at parameter `t`.
    pub fn at(&self, t: Fx) -> (r: Point3d)
        requires
            bounded_s(self.origin, FX_DIV_LIM as int),
            bounded_s(self.direction, FX_MUL_LIM as int - 1),
            -FX_MUL_LIM < t < FX_MUL_LIM,
        ensures
            r == ray_at_s(*self, t as int),
    {
        let scaled = self.direction.scale(t);
        self.origin.add(&scaled)
    }
}

/// A closed range of ray parameters.  `min > max` means the empty
/// interval; the `FX_INF` sentinels stand for unbounded ends.
#[derive(Clone, Copy, Debug, PartialEq, Eq, Structural)]
pub struct Interval {
    pub min: Fx,
    pub max: Fx,
}

impl Interval {
    /// The empty interval.
    pub fn empty() -> (r: Interval)
        ensures
            r.min == FX_INF && r.max == -FX_INF,
    {
        Interval { min: FX_INF, max: -FX_INF }
    }

    /// The interval of every parameter.
    pub fn universe() -> (r: Interval)
        ensures
            r.min == -FX_INF && r.max == FX_INF,
    {
        Interval { min: -FX_INF, max: FX_INF }
    }

    /// The tightest interval around two others.
    pub fn interval(interval_1: &Interval, interval_2: &Interval) -> (r: Interval)
        ensures
            r.min == if interval_1.min <= interval_2.min {
                interval_1.min
            } else {
                interval_2.min
            },
            r.max == if interval_1.max >= interval_2.max {
                interval_1.max
            } else {
                interval_2.max
            },
    {
        Interval {
            min: if interval_1.min <= interval_2.min {
                interval_1.min
            } else {
                interval_2.min
            },
            max: if interval_1.max >= interval_2.max {
                interval_1.max
            } else {
                interval_2.max
            },
        }
    }

    /// Whether `t` lies in the closed interval.
    pub fn contains(&self, t: Fx) -> (r: bool)
        ensures
            r == (self.min <= t && t <= self.max),
    {
        self.min <= t && t <= self.max
    }

    /// Whether `t` lies strictly inside the interval.
    pub fn surrounds(&self, t: Fx) -> (r: bool)
        ensures
            r == (self.min < t && t < self.max),
    {
        self.min < t && t < self.max
    }

    /// `t` pushed to the nearest end of the interval.
    pub fn clamp(&self, t: Fx) -> (r: Fx)
        ensures
            r == if t < self.min {
                self.min as int
            } else if t > self.max {
                self.max as int
            } else {
                t as int
            },
    {
        if t < self.min {
            self.min
        } else if t > self.max {
            self.max
        } else {
            t
        }
    }

    /// The width of the interval; negative when the interval is empty.
    pub fn size(&self) -> (r: Fx)
        requires
            abs_i(self.min as int) <= 2 * FX_INF as int,
            abs_i(self.max as int) <= 2 * FX_INF as int,
        ensures
            r == self.max - self.min,
    {
        self.max - self.min
    }

    /// The interval widened symmetrically by `t` in total.
    pub fn expand(&self, t: Fx) -> (r: Interval)
        requires
            abs_i(self.min as int) <= 2 * FX_INF as int,
            abs_i(self.max as int) <= 2 * FX_INF as int,
            -FX_MUL_LIM < t < FX_MUL_LIM,
        ensures
            r.min == self.min - fx_mul_s(t as int, FX_HALF as int),
            r.max == self.max + fx_mul_s(t as int, FX_HALF as int),
    {
        let delta = fx_mul(t, FX_HALF);
        proof {
            assert(FX_MUL_RES_LIM < FX_DIV_LIM);
        }
        Interval { min: self.min - delta, max: self.max + delta }
    }
}

} // verus!
