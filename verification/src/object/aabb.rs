//! Axis-aligned bounding boxes.
//!
//! A box is one interval per axis.  Construction pads every axis to a
//! minimum width so that planar primitives still own a sliver of volume.

use crate::fixed::abs_i;
use crate::fixed::fx_div;
use crate::fixed::fx_div_s;
use crate::fixed::Fx;
use crate::fixed::FX_MUL_LIM;
use crate::ray::Interval;
use crate::ray::Ray;
use crate::ray::FX_INF;
use crate::vec3d::bounded_s;
use crate::vec3d::Vec3d;
use vstd::prelude::*;

verus! {

/// The minimum width of a box axis, in raw fixed-point units.
pub const AABB_PAD: i128 = 4;

/// An axis-aligned bounding box.
#[derive(Clone, Copy, Debug, PartialEq, Eq, Structural)]
pub struct AABB {
    pub interval_x: Interval,
    pub interval_y: Interval,
    pub interval_z: Interval,
}

/// The tightest interval around two intervals.
pub open spec fn interval_union_s(a: Interval, b: Interval) -> Interval {
    Interval {
        min: if a.min <= b.min {
            a.min
        } else {
            b.min
        },
        max: if a.max >= b.max {
            a.max
        } else {
            b.max
        },
    }
}

/// An interval widened to the minimum axis width when it is thinner;
/// an empty interval, standing for no extent at all, stays as it is.
pub open spec fn interval_pad_s(i: Interval) -> Interval {
    if 0 <= i.max - i.min < AABB_PAD {
        Interval { min: (i.min - 2) as Fx, max: (i.max + 2) as Fx }
    } else {
        i
    }
}

/// Both ends of the interval stay within magnitude `m`.
pub open spec fn interval_bounded_s(i: Interval, m: int) -> bool {
    abs_i(i.min as int) <= m && abs_i(i.max as int) <= m
}

/// The box's six interval ends stay within magnitude `m`.
pub open spec fn aabb_bounded_s(b: AABB, m: int) -> bool {
    interval_bounded_s(b.interval_x, m) && interval_bounded_s(b.interval_y, m)
        && interval_bounded_s(b.interval_z, m)
}

/// The component-wise union of two boxes.
pub open spec fn aabb_union_s(a: AABB, b: AABB) -> AABB {
    AABB {
        interval_x: interval_union_s(a.interval_x, b.interval_x),
        interval_y: interval_union_s(a.interval_y, b.interval_y),
        interval_z: interval_union_s(a.interval_z, b.interval_z),
    }
}

/// The box with every axis padded to the minimum width.
pub open spec fn aabb_pad_s(b: AABB) -> AABB {
    AABB {
        interval_x: interval_pad_s(b.interval_x),
        interval_y: interval_pad_s(b.interval_y),
        interval_z: interval_pad_s(b.interval_z),
    }
}

/// A well-formed finite box: every axis has at least the minimum width
/// and stays within the finite range.
pub open spec fn interval_valid(i: Interval) -> bool {
    interval_bounded_s(i, FX_INF as int + 4) && i.max - i.min >= AABB_PAD
}

/// Every axis of the box is well formed.
pub open spec fn aabb_valid(b: AABB) -> bool {
    interval_valid(b.interval_x) && interval_valid(b.interval_y) && interval_valid(b.interval_z)
}

/// A "proper" interval: either at least the minimum width, or the
/// exact empty sentinel; in both cases inside the doubled finite range.
/// Every interval a box of this library reports is proper, and the
/// union of proper intervals needs no padding.
pub open spec fn interval_proper(i: Interval) -> bool {
    interval_bounded_s(i, 2 * FX_INF as int) && (i.max - i.min >= AABB_PAD || (i.min == FX_INF
        && i.max == -FX_INF))
}

/// Every axis of the box is proper.
pub open spec fn aabb_proper(b: AABB) -> bool {
    interval_proper(b.interval_x) && interval_proper(b.interval_y) && interval_proper(
        b.interval_z,
    )
}

/// The union of proper boxes is proper, and padding leaves it alone.
pub proof fn lemma_union_pad_proper(a: AABB, b: AABB)
    requires
        aabb_proper(a),
        aabb_proper(b),
    ensures
        aabb_pad_s(aabb_union_s(a, b)) == aabb_union_s(a, b),
        aabb_proper(aabb_union_s(a, b)),
{
}

/// The outer interval encloses the inner one.
pub open spec fn interval_contains_interval(outer: Interval, inner: Interval) -> bool {
    outer.min <= inner.min && inner.max <= outer.max
}

/// The outer box encloses the inner one on every axis.
pub open spec fn aabb_contains_aabb(outer: AABB, inner: AABB) -> bool {
    interval_contains_interval(outer.interval_x, inner.interval_x)
        && interval_contains_interval(outer.interval_y, inner.interval_y)
        && interval_contains_interval(outer.interval_z, inner.interval_z)
}

/// The slab test on one axis: the ray's parameter range inside the slab,
/// clipped to the query interval, must be nonempty.  A ray running
/// parallel to the axis passes only if its origin lies inside the slab.
pub open spec fn slab_axis_ok(ax: Interval, o: int, d: int, itv: Interval) -> bool {
    if d == 0 {
        ax.min <= o && o <= ax.max
    } else {
        let t0 = fx_div_s(ax.min - o, d);
        let t1 = fx_div_s(ax.max - o, d);
        let tlo = if t0 < t1 {
            t0
        } else {
            t1
        };
        let thi = if t0 < t1 {
            t1
        } else {
            t0
        };
        let lo = if tlo >= itv.min {
            tlo
        } else {
            itv.min as int
        };
        let hi = if thi <= itv.max {
            thi
        } else {
            itv.max as int
        };
        hi > lo
    }
}

/// The ray-box slab test over all three axes.
pub open spec fn aabb_hit_s(b: AABB, ray: Ray, itv: Interval) -> bool {
    slab_axis_ok(b.interval_x, ray.origin.x as int, ray.direction.x as int, itv) && slab_axis_ok(
        b.interval_y,
        ray.origin.y as int,
        ray.direction.y as int,
        itv,
    ) && slab_axis_ok(b.interval_z, ray.origin.z as int, ray.direction.z as int, itv)
}

/// The slab test on one axis.
fn slab_axis(ax: &Interval, o: Fx, d: Fx, itv: &Interval) -> (r: bool)
    requires
        interval_bounded_s(*ax, 2 * FX_INF as int),
        abs_i(o as int) <= FX_INF as int,
        -FX_MUL_LIM < d < FX_MUL_LIM,
    ensures
        r == slab_axis_ok(*ax, o as int, d as int, *itv),
{
    if d == 0 {
        ax.min <= o && o <= ax.max
    } else {
        let t0 = fx_div(ax.min - o, d);
        let t1 = fx_div(ax.max - o, d);
        let tlo = if t0 < t1 {
            t0
        } else {
            t1
        };
        let thi = if t0 < t1 {
            t1
        } else {
            t0
        };
        let lo = if tlo >= itv.min {
            tlo
        } else {
            itv.min
        };
        let hi = if thi <= itv.max {
            thi
        } else {
            itv.max
        };
        hi > lo
    }
}

impl AABB {
    /// A box from three axis intervals, padded to the minimum width.
    pub fn new(interval_x: Interval, interval_y: Interval, interval_z: Interval) -> (r: AABB)
        requires
            interval_bounded_s(interval_x, 2 * FX_INF as int),
            interval_bounded_s(interval_y, 2 * FX_INF as int),
            interval_bounded_s(interval_z, 2 * FX_INF as int),
        ensures
            r == aabb_pad_s(AABB { interval_x, interval_y, interval_z }),
    {
        let mut ret = AABB { interval_x, interval_y, interval_z };
        ret.pad_to_minimum();
        ret
    }

    /// Pads every axis thinner than the minimum width.
    fn pad_to_minimum(&mut self)
        requires
            aabb_bounded_s(*old(self), 2 * FX_INF as int),
        ensures
            *final(self) == aabb_pad_s(*old(self)),
    {
        if self.interval_x.max - self.interval_x.min >= 0 && self.interval_x.max
            - self.interval_x.min < AABB_PAD {
            self.interval_x = Interval {
                min: self.interval_x.min - 2,
                max: self.interval_x.max + 2,
            };
        }
        if self.interval_y.max - self.interval_y.min >= 0 && self.interval_y.max
            - self.interval_y.min < AABB_PAD {
            self.interval_y = Interval {
                min: self.interval_y.min - 2,
                max: self.interval_y.max + 2,
            };
        }
        if self.interval_z.max - self.interval_z.min >= 0 && self.interval_z.max
            - self.interval_z.min < AABB_PAD {
            self.interval_z = Interval {
                min: self.interval_z.min - 2,
                max: self.interval_z.max + 2,
            };
        }
    }

    /// The smallest padded box around two corner points.
    pub fn from_points(pt1: &Vec3d, pt2: &Vec3d) -> (r: AABB)
        requires
            bounded_s(*pt1, FX_INF as int),
            bounded_s(*pt2, FX_INF as int),
        ensures
            r == aabb_pad_s(aabb_from_points_s(*pt1, *pt2)),
            aabb_valid(r),
    {
        let interval_x = Interval {
            min: if pt1.x <= pt2.x {
                pt1.x
            } else {
                pt2.x
            },
            max: if pt1.x >= pt2.x {
                pt1.x
            } else {
                pt2.x
            },
        };
        let interval_y = Interval {
            min: if pt1.y <= pt2.y {
                pt1.y
            } else {
                pt2.y
            },
            max: if pt1.y >= pt2.y {
                pt1.y
            } else {
                pt2.y
            },
        };
        let interval_z = Interval {
            min: if pt1.z <= pt2.z {
                pt1.z
            } else {
                pt2.z
            },
            max: if pt1.z >= pt2.z {
                pt1.z
            } else {
                pt2.z
            },
        };
        AABB::new(interval_x, interval_y, interval_z)
    }

    /// The smallest padded box around two boxes.  On well-formed inputs
    /// the padding changes nothing and the result is the exact union.
    pub fn surrounding_box(box1: &AABB, box2: &AABB) -> (r: AABB)
        requires
            aabb_bounded_s(*box1, 2 * FX_INF as int),
            aabb_bounded_s(*box2, 2 * FX_INF as int),
        ensures
            r == aabb_pad_s(aabb_union_s(*box1, *box2)),
            aabb_valid(*box1) && aabb_valid(*box2) ==> r == aabb_union_s(*box1, *box2)
                && aabb_valid(r),
    {
        let interval_x = Interval::interval(&box1.interval_x, &box2.interval_x);
        let interval_y = Interval::interval(&box1.interval_y, &box2.interval_y);
        let interval_z = Interval::interval(&box1.interval_z, &box2.interval_z);
        AABB::new(interval_x, interval_y, interval_z)
    }

    /// The interval of the box on the given axis, as a specification.
    pub open spec fn axis_interval_s(&self, axis: int) -> Interval {
        if axis == 0 {
            self.interval_x
        } else if axis == 1 {
            self.interval_y
        } else {
            self.interval_z
        }
    }

    /// The interval of the box on the given axis.  An axis outside the
    /// three dimensions is a configuration error the caller must rule out.
    pub fn axis_interval(&self, axis: usize) -> (r: Interval)
        requires
            axis < 3,
        ensures
            r == self.axis_interval_s(axis as int),
    {
        if axis == 0 {
            self.interval_x
        } else if axis == 1 {
            self.interval_y
        } else {
            self.interval_z
        }
    }

    /// The index of the widest axis: x wins ties against y and z, and y
    /// wins ties against z.
    pub open spec fn longest_axis_s(&self) -> int {
        let x_size = self.interval_x.max - self.interval_x.min;
        let y_size = self.interval_y.max - self.interval_y.min;
        let z_size = self.interval_z.max - self.interval_z.min;
        if x_size > y_size && x_size > z_size {
            0
        } else if y_size > z_size {
            1
        } else {
            2
        }
    }

    /// The index of the widest axis.
    pub fn longest_axis(&self) -> (r: usize)
        requires
            aabb_bounded_s(*self, 2 * FX_INF as int),
        ensures
            r == self.longest_axis_s(),
            r < 3,
    {
        let x_size = self.interval_x.max - self.interval_x.min;
        let y_size = self.interval_y.max - self.interval_y.min;
        let z_size = self.interval_z.max - self.interval_z.min;
        if x_size > y_size && x_size > z_size {
            0
        } else if y_size > z_size {
            1
        } else {
            2
        }
    }

    /// Whether the ray's parameter range through the box meets `interval`.
    pub fn hit(&self, ray: &Ray, interval: &Interval) -> (r: bool)
        requires
            aabb_bounded_s(*self, 2 * FX_INF as int),
            bounded_s(ray.origin, FX_INF as int),
            bounded_s(ray.direction, FX_MUL_LIM as int - 1),
        ensures
            r == aabb_hit_s(*self, *ray, *interval),
    {
        if !slab_axis(&self.interval_x, ray.origin.x, ray.direction.x, interval) {
            return false;
        }
        if !slab_axis(&self.interval_y, ray.origin.y, ray.direction.y, interval) {
            return false;
        }
        if !slab_axis(&self.interval_z, ray.origin.z, ray.direction.z, interval) {
            return false;
        }
        true
    }

    /// The box shifted by an offset.
    pub fn shift(&self, rhs: &Vec3d) -> (r: AABB)
        requires
            aabb_bounded_s(*self, 2 * FX_INF as int),
            bounded_s(*rhs, FX_INF as int),
        ensures
            r == aabb_shift_s(*self, *rhs),
    {
        AABB {
            interval_x: Interval {
                min: self.interval_x.min + rhs.x,
                max: self.interval_x.max + rhs.x,
            },
            interval_y: Interval {
                min: self.interval_y.min + rhs.y,
                max: self.interval_y.max + rhs.y,
            },
            interval_z: Interval {
                min: self.interval_z.min + rhs.z,
                max: self.interval_z.max + rhs.z,
            },
        }
    }

    /// The empty box: every axis is the empty interval.
    pub fn empty() -> (r: AABB)
        ensures
            r == aabb_empty_s(),
    {
        AABB {
            interval_x: Interval::empty(),
            interval_y: Interval::empty(),
            interval_z: Interval::empty(),
        }
    }

    /// The box containing all of space.
    pub fn universe() -> (r: AABB)
        ensures
            r.interval_x == (Interval { min: (-FX_INF) as Fx, max: FX_INF }),
            r.interval_y == (Interval { min: (-FX_INF) as Fx, max: FX_INF }),
            r.interval_z == (Interval { min: (-FX_INF) as Fx, max: FX_INF }),
    {
        AABB {
            interval_x: Interval::universe(),
            interval_y: Interval::universe(),
            interval_z: Interval::universe(),
        }
    }
}

/// The box of no extent: every axis is the empty interval.
pub open spec fn aabb_empty_s() -> AABB {
    AABB {
        interval_x: Interval { min: FX_INF, max: (-FX_INF) as Fx },
        interval_y: Interval { min: FX_INF, max: (-FX_INF) as Fx },
        interval_z: Interval { min: FX_INF, max: (-FX_INF) as Fx },
    }
}

/// The box shifted by an offset, one interval end at a time.
pub open spec fn aabb_shift_s(b: AABB, v: Vec3d) -> AABB {
    AABB {
        interval_x: Interval {
            min: (b.interval_x.min + v.x) as Fx,
            max: (b.interval_x.max + v.x) as Fx,
        },
        interval_y: Interval {
            min: (b.interval_y.min + v.y) as Fx,
            max: (b.interval_y.max + v.y) as Fx,
        },
        interval_z: Interval {
            min: (b.interval_z.min + v.z) as Fx,
            max: (b.interval_z.max + v.z) as Fx,
        },
    }
}

/// The tightest box whose corners are the component extremes of two points.
pub open spec fn aabb_from_points_s(pt1: Vec3d, pt2: Vec3d) -> AABB {
    AABB {
        interval_x: Interval {
            min: if pt1.x <= pt2.x {
                pt1.x
            } else {
                pt2.x
            },
            max: if pt1.x >= pt2.x {
                pt1.x
            } else {
                pt2.x
            },
        },
        interval_y: Interval {
            min: if pt1.y <= pt2.y {
                pt1.y
            } else {
                pt2.y
            },
            max: if pt1.y >= pt2.y {
                pt1.y
            } else {
                pt2.y
            },
        },
        interval_z: Interval {
            min: if pt1.z <= pt2.z {
                pt1.z
            } else {
                pt2.z
            },
            max: if pt1.z >= pt2.z {
                pt1.z
            } else {
                pt2.z
            },
        },
    }
}

/// The union of two well-formed boxes contains both, and any box that
/// contains both contains the union: it is the smallest such box.
pub proof fn lemma_union_tightest(a: AABB, b: AABB, c: AABB)
    requires
        aabb_valid(a),
        aabb_valid(b),
    ensures
        aabb_contains_aabb(aabb_union_s(a, b), a),
        aabb_contains_aabb(aabb_union_s(a, b), b),
        aabb_contains_aabb(c, a) && aabb_contains_aabb(c, b) ==> aabb_contains_aabb(
            c,
            aabb_union_s(a, b),
        ),
{
}

/// A ray running parallel to an axis, starting outside that axis's slab,
/// never hits the box, whatever the query interval.
pub proof fn lemma_parallel_ray_misses(b: AABB, ray: Ray, itv: Interval, axis: int)
    requires
        0 <= axis < 3,
        ray.direction.axis_s(axis) == 0,
        ray.origin.axis_s(axis) < b.axis_interval_s(axis).min || ray.origin.axis_s(axis)
            > b.axis_interval_s(axis).max,
    ensures
        !aabb_hit_s(b, ray, itv),
{
}

} // verus!
