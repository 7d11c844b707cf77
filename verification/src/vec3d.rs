//! Three-component vectors over fixed-point scalars.
//!
//! A `Vec3d` serves as a point, a direction or an RGB color.  All
//! operations are pure and return new values; each has an exact
//! fixed-point specification.

use crate::fixed::abs_i;
use crate::fixed::fx_div;
use crate::fixed::fx_div_s;
use crate::fixed::fx_mul;
use crate::fixed::fx_mul_s;
use crate::fixed::fx_sqrt;
use crate::fixed::fx_sqrt_s;
use crate::fixed::is_isqrt;
use crate::fixed::lemma_fx_mul_s_bound;
use crate::fixed::lemma_fx_square_nonneg;
use crate::fixed::Fx;
use crate::fixed::FX_DIV_LIM;
use crate::fixed::FX_MUL_LIM;
use crate::fixed::FX_HALF;
use crate::fixed::FX_LEN_LIM;
use crate::fixed::FX_MUL_RES_LIM;
use crate::fixed::FX_ONE;
use crate::rng::Prng;
use vstd::arithmetic::mul::lemma_mul_upper_bound;
use vstd::prelude::*;

verus! {

/// A vector of three fixed-point components.
#[derive(Clone, Copy, Debug, PartialEq, Eq, Structural)]
pub struct Vec3d {
    pub x: Fx,
    pub y: Fx,
    pub z: Fx,
}

/// A point in space, stored as a vector from the origin.
pub type Point3d = Vec3d;

/// An RGB color in linear light, one channel per component.
pub type Color = Vec3d;

/// Every component's magnitude stays at or below `m`.
pub open spec fn bounded_s(v: Vec3d, m: int) -> bool {
    abs_i(v.x as int) <= m && abs_i(v.y as int) <= m && abs_i(v.z as int) <= m
}

/// Magnitude bound that keeps every vector operation inside the scalar
/// operand limits (2^46).
pub const VEC_LIM: i128 = 70368744177664;

/// Magnitude bound on scene coordinates (2^40).
pub const GEOM_LIM: i128 = 1099511627776;

/// Magnitude bound on the corner and edge vectors of a planar patch
/// (2^32): their cross products must stay inside multiplication range.
pub const EDGE_LIM: i128 = 4294967296;

/// The fixed-point dot product.
pub open spec fn dot_s(a: Vec3d, b: Vec3d) -> int {
    fx_mul_s(a.x as int, b.x as int) + fx_mul_s(a.y as int, b.y as int) + fx_mul_s(
        a.z as int,
        b.z as int,
    )
}

/// The fixed-point squared length.
pub open spec fn length_squared_s(v: Vec3d) -> int {
    dot_s(v, v)
}

/// The fixed-point length: the truncated square root of the squared length.
pub open spec fn length_s(v: Vec3d) -> int {
    fx_sqrt_s(length_squared_s(v))
}

/// A fixed-point dot product of bounded vectors is bounded.
pub proof fn lemma_dot_s_bound(a: Vec3d, b: Vec3d, ma: int, mb: int)
    requires
        bounded_s(a, ma),
        bounded_s(b, mb),
    ensures
        abs_i(dot_s(a, b)) * FX_ONE <= 3 * (ma * mb),
        abs_i(dot_s(a, b)) <= 3 * (ma * mb / (FX_ONE as int)),
{
    lemma_fx_mul_s_bound(a.x as int, b.x as int, ma, mb);
    lemma_fx_mul_s_bound(a.y as int, b.y as int, ma, mb);
    lemma_fx_mul_s_bound(a.z as int, b.z as int, ma, mb);
}

/// A squared length is never negative.
pub proof fn lemma_length_squared_s_nonneg(v: Vec3d)
    ensures
        length_squared_s(v) >= 0,
{
    lemma_fx_square_nonneg(v.x as int);
    lemma_fx_square_nonneg(v.y as int);
    lemma_fx_square_nonneg(v.z as int);
}

/// One scalar drawn uniformly from `[-1, 1)`.
pub open spec fn unit_range_draw_s(state: u64) -> Fx {
    (-FX_ONE + crate::rng::prng_next_s(state) % ((2 * FX_ONE) as u64)) as Fx
}

/// The candidate point of one sphere-sampling attempt: three scalars
/// drawn uniformly from `[-1, 1)`.
pub open spec fn range_candidate_s(state: u64) -> Vec3d {
    let s1 = crate::rng::prng_next_s(state);
    let s2 = crate::rng::prng_next_s(s1);
    Vec3d {
        x: unit_range_draw_s(state),
        y: unit_range_draw_s(s1),
        z: unit_range_draw_s(s2),
    }
}

/// The rejection sampling of a point inside the unit sphere: candidates
/// are drawn until one falls strictly inside, with a fixed interior
/// fallback when the attempt budget runs out.
pub open spec fn random_in_unit_sphere_s(state: u64, fuel: nat) -> (Vec3d, u64)
    decreases fuel,
{
    if fuel == 0 {
        (Vec3d { x: FX_HALF, y: 0 as Fx, z: 0 as Fx }, state)
    } else {
        let p = range_candidate_s(state);
        let s3 = crate::rng::prng_next_s(
            crate::rng::prng_next_s(crate::rng::prng_next_s(state)),
        );
        if length_squared_s(p) < FX_ONE {
            (p, s3)
        } else {
            random_in_unit_sphere_s(s3, (fuel - 1) as nat)
        }
    }
}

/// The candidate point of one disk-sampling attempt: two scalars drawn
/// uniformly from `[-1, 1)`.
pub open spec fn disk_candidate_s(state: u64) -> Vec3d {
    Vec3d {
        x: unit_range_draw_s(state),
        y: unit_range_draw_s(crate::rng::prng_next_s(state)),
        z: 0 as Fx,
    }
}

/// The rejection sampling of a point inside the unit disk: candidates
/// are drawn until one falls strictly inside, with a fixed interior
/// fallback when the attempt budget runs out.
pub open spec fn random_in_unit_disk_s(state: u64, fuel: nat) -> (Vec3d, u64)
    decreases fuel,
{
    if fuel == 0 {
        (Vec3d { x: FX_HALF, y: 0 as Fx, z: 0 as Fx }, state)
    } else {
        let p = disk_candidate_s(state);
        let s2 = crate::rng::prng_next_s(crate::rng::prng_next_s(state));
        if length_squared_s(p) < FX_ONE {
            (p, s2)
        } else {
            random_in_unit_disk_s(s2, (fuel - 1) as nat)
        }
    }
}

/// The rejection sampling of a unit-length direction: interior sphere
/// samples are drawn until one has nonzero length and is normalized,
/// with a fixed axis fallback when the attempt budget runs out.
pub open spec fn random_unit_vector_s(state: u64, fuel: nat) -> (Vec3d, u64)
    decreases fuel,
{
    if fuel == 0 {
        (Vec3d { x: FX_ONE, y: 0 as Fx, z: 0 as Fx }, state)
    } else {
        let drawn = random_in_unit_sphere_s(state, 64);
        let p = drawn.0;
        if length_squared_s(p) > 0 {
            (
                Vec3d {
                    x: fx_div_s(p.x as int, length_s(p)) as Fx,
                    y: fx_div_s(p.y as int, length_s(p)) as Fx,
                    z: fx_div_s(p.z as int, length_s(p)) as Fx,
                },
                drawn.1,
            )
        } else {
            random_unit_vector_s(drawn.1, (fuel - 1) as nat)
        }
    }
}

impl Vec3d {
    /// A vector from its three components.
    pub fn new(x: Fx, y: Fx, z: Fx) -> (r: Self)
        ensures
            r == (Vec3d { x, y, z }),
    {
        Vec3d { x, y, z }
    }

    /// The zero vector.
    pub fn zero() -> (r: Self)
        ensures
            r == (Vec3d { x: 0 as Fx, y: 0 as Fx, z: 0 as Fx }),
    {
        Vec3d { x: 0, y: 0, z: 0 }
    }

    /// The first component.
    pub fn x(&self) -> (r: Fx)
        ensures
            r == self.x,
    {
        self.x
    }

    /// The second component.
    pub fn y(&self) -> (r: Fx)
        ensures
            r == self.y,
    {
        self.y
    }

    /// The third component.
    pub fn z(&self) -> (r: Fx)
        ensures
            r == self.z,
    {
        self.z
    }

    /// The component on the given axis.
    pub fn axis(&self, axis: usize) -> (r: Fx)
        requires
            axis < 3,
        ensures
            r == self.axis_s(axis as int),
    {
        if axis == 0 {
            self.x
        } else if axis == 1 {
            self.y
        } else {
            self.z
        }
    }

    /// The component on the given axis, as a specification.
    pub open spec fn axis_s(&self, axis: int) -> Fx {
        if axis == 0 {
            self.x
        } else if axis == 1 {
            self.y
        } else {
            self.z
        }
    }

    /// Component-wise sum.
    pub fn add(&self, other: &Vec3d) -> (r: Vec3d)
        requires
            bounded_s(*self, FX_DIV_LIM as int),
            bounded_s(*other, FX_DIV_LIM as int),
        ensures
            r.x == self.x + other.x,
            r.y == self.y + other.y,
            r.z == self.z + other.z,
    {
        Vec3d { x: self.x + other.x, y: self.y + other.y, z: self.z + other.z }
    }

    /// Component-wise difference.
    pub fn sub(&self, other: &Vec3d) -> (r: Vec3d)
        requires
            bounded_s(*self, FX_DIV_LIM as int),
            bounded_s(*other, FX_DIV_LIM as int),
        ensures
            r.x == self.x - other.x,
            r.y == self.y - other.y,
            r.z == self.z - other.z,
    {
        Vec3d { x: self.x - other.x, y: self.y - other.y, z: self.z - other.z }
    }

    /// The negated vector.
    pub fn neg(&self) -> (r: Vec3d)
        requires
            bounded_s(*self, FX_DIV_LIM as int),
        ensures
            r.x == -self.x,
            r.y == -self.y,
            r.z == -self.z,
    {
        Vec3d { x: -self.x, y: -self.y, z: -self.z }
    }

    /// The vector scaled by a fixed-point factor.
    pub fn scale(&self, t: Fx) -> (r: Vec3d)
        requires
            bounded_s(*self, FX_MUL_LIM as int - 1),
            -FX_MUL_LIM < t < FX_MUL_LIM,
        ensures
            r.x == fx_mul_s(self.x as int, t as int),
            r.y == fx_mul_s(self.y as int, t as int),
            r.z == fx_mul_s(self.z as int, t as int),
            bounded_s(r, FX_MUL_RES_LIM as int),
    {
        Vec3d { x: fx_mul(self.x, t), y: fx_mul(self.y, t), z: fx_mul(self.z, t) }
    }

    /// The component-wise (Hadamard) product.
    pub fn mul(&self, other: &Vec3d) -> (r: Vec3d)
        requires
            bounded_s(*self, FX_MUL_LIM as int - 1),
            bounded_s(*other, FX_MUL_LIM as int - 1),
        ensures
            r.x == fx_mul_s(self.x as int, other.x as int),
            r.y == fx_mul_s(self.y as int, other.y as int),
            r.z == fx_mul_s(self.z as int, other.z as int),
            bounded_s(r, FX_MUL_RES_LIM as int),
    {
        Vec3d {
            x: fx_mul(self.x, other.x),
            y: fx_mul(self.y, other.y),
            z: fx_mul(self.z, other.z),
        }
    }

    /// The vector divided by a nonzero fixed-point scalar.
    pub fn div_scalar(&self, t: Fx) -> (r: Vec3d)
        requires
            bounded_s(*self, FX_DIV_LIM as int - 1),
            -FX_DIV_LIM < t < FX_DIV_LIM,
            t != 0,
        ensures
            r.x == fx_div_s(self.x as int, t as int),
            r.y == fx_div_s(self.y as int, t as int),
            r.z == fx_div_s(self.z as int, t as int),
    {
        Vec3d { x: fx_div(self.x, t), y: fx_div(self.y, t), z: fx_div(self.z, t) }
    }

    /// The squared length.
    pub fn length_squared(&self) -> (r: Fx)
        requires
            bounded_s(*self, FX_MUL_LIM as int - 1),
        ensures
            r == length_squared_s(*self),
            0 <= r <= 3 * FX_MUL_RES_LIM,
    {
        proof {
            lemma_dot_s_bound(*self, *self, FX_MUL_LIM as int - 1, FX_MUL_LIM as int - 1);
            lemma_length_squared_s_nonneg(*self);
            lemma_fx_mul_s_bound(
                self.x as int,
                self.x as int,
                FX_MUL_LIM as int - 1,
                FX_MUL_LIM as int - 1,
            );
            lemma_fx_mul_s_bound(
                self.y as int,
                self.y as int,
                FX_MUL_LIM as int - 1,
                FX_MUL_LIM as int - 1,
            );
            lemma_fx_mul_s_bound(
                self.z as int,
                self.z as int,
                FX_MUL_LIM as int - 1,
                FX_MUL_LIM as int - 1,
            );
        }
        let xx = fx_mul(self.x, self.x);
        let yy = fx_mul(self.y, self.y);
        let zz = fx_mul(self.z, self.z);
        xx + yy + zz
    }

    /// The length, truncated downward to fixed-point resolution.
    pub fn length(&self) -> (r: Fx)
        requires
            bounded_s(*self, FX_MUL_LIM as int - 1),
        ensures
            r == length_s(*self),
            0 <= r < FX_LEN_LIM,
            is_isqrt(length_squared_s(*self) * FX_ONE, r as int),
    {
        let ls = self.length_squared();
        let r = fx_sqrt(ls);
        proof {
            assert(r < FX_LEN_LIM) by (nonlinear_arith)
                requires
                    r >= 0,
                    r as int * r as int <= ls as int * 65536,
                    ls <= 3 * FX_MUL_RES_LIM,
                    FX_MUL_RES_LIM == 19807040628566084398385987584,
                    FX_LEN_LIM == 72057594037927936,
            ;
        }
        r
    }

    /// The vector rescaled to unit length.
    pub fn unit_vector(&self) -> (r: Vec3d)
        requires
            bounded_s(*self, FX_MUL_LIM as int - 1),
            length_squared_s(*self) > 0,
        ensures
            r.x == fx_div_s(self.x as int, length_s(*self)),
            r.y == fx_div_s(self.y as int, length_s(*self)),
            r.z == fx_div_s(self.z as int, length_s(*self)),
            bounded_s(r, 2 * FX_ONE as int),
    {
        proof {
            lemma_unit_vector_bounded(*self);
        }
        let len = self.length();
        proof {
            if len == 0 {
                assert(length_squared_s(*self) * FX_ONE >= FX_ONE);
                assert(is_isqrt(length_squared_s(*self) * FX_ONE, 0int));
                assert((0int + 1) * (0int + 1) == 1int);
            }
        }
        self.div_scalar(len)
    }

    /// Whether every component is below one fixed-point unit in magnitude,
    /// the resolution of the representation.
    pub fn near_zero(&self) -> (r: bool)
        ensures
            r == (self.x == 0 && self.y == 0 && self.z == 0),
    {
        self.x == 0 && self.y == 0 && self.z == 0
    }

    /// A vector with uniform components in `[0, 1)`.
    pub fn random(rng: &mut Prng) -> (r: Vec3d)
        ensures
            bounded_s(r, FX_ONE as int),
    {
        let x = rng.next_unit();
        let y = rng.next_unit();
        let z = rng.next_unit();
        Vec3d { x, y, z }
    }

    /// A vector with uniform components in `[min, max)`.
    pub fn gen_range(rng: &mut Prng, min: Fx, max: Fx) -> (r: Vec3d)
        requires
            min < max,
            max - min < 0x8000000000000000,
            -FX_DIV_LIM < min,
            max < FX_DIV_LIM,
        ensures
            min <= r.x < max,
            min <= r.y < max,
            min <= r.z < max,
            r.x == min + crate::rng::prng_next_s(old(rng).state) % ((max - min) as u64),
            r.y == min + crate::rng::prng_next_s(crate::rng::prng_next_s(old(rng).state)) % ((
            max - min) as u64),
            r.z == min + crate::rng::prng_next_s(
                crate::rng::prng_next_s(crate::rng::prng_next_s(old(rng).state)),
            ) % ((max - min) as u64),
            final(rng).state == crate::rng::prng_next_s(
                crate::rng::prng_next_s(crate::rng::prng_next_s(old(rng).state)),
            ),
    {
        let x = rng.next_range(min, max);
        let y = rng.next_range(min, max);
        let z = rng.next_range(min, max);
        Vec3d { x, y, z }
    }

    /// A rejection-sampled point strictly inside the unit sphere; after a
    /// bounded number of draws it falls back to a fixed interior point.
    pub fn random_in_unit_sphere(rng: &mut Prng) -> (r: Vec3d)
        ensures
            bounded_s(r, FX_ONE as int),
            length_squared_s(r) < FX_ONE,
            (r, final(rng).state) == random_in_unit_sphere_s(old(rng).state, 64),
    {
        let mut i: usize = 0;
        while i < 64
            invariant
                i <= 64,
                random_in_unit_sphere_s(old(rng).state, 64) == random_in_unit_sphere_s(
                    rng.state,
                    (64 - i) as nat,
                ),
            decreases 64 - i,
        {
            let ghost pre = rng.state;
            let p = Vec3d::gen_range(rng, -FX_ONE, FX_ONE);
            proof {
                assert(p == range_candidate_s(pre));
            }
            if p.length_squared() < FX_ONE {
                return p;
            }
            i = i + 1;
        }
        let q = Vec3d { x: FX_HALF, y: 0, z: 0 };
        proof {
            lemma_fx_square_nonneg(q.y as int);
            lemma_fx_square_nonneg(q.z as int);
            vstd::arithmetic::div_mod::lemma_fundamental_div_mod_converse(
                1073741824,
                65536,
                16384,
                0,
            );
            crate::fixed::lemma_tdivq_abs(1073741824, 65536);
            assert(FX_HALF as int * FX_HALF as int == 1073741824);
            assert(fx_mul_s(FX_HALF as int, FX_HALF as int) == 16384);
        }
        q
    }

    /// A rejection-sampled point strictly inside the unit disk in the
    /// x-y plane; after a bounded number of draws it falls back to a
    /// fixed interior point.
    pub fn random_in_unit_disk(rng: &mut Prng) -> (r: Vec3d)
        ensures
            bounded_s(r, FX_ONE as int),
            r.z == 0,
            (r, final(rng).state) == random_in_unit_disk_s(old(rng).state, 64),
    {
        let mut i: usize = 0;
        while i < 64
            invariant
                i <= 64,
                random_in_unit_disk_s(old(rng).state, 64) == random_in_unit_disk_s(
                    rng.state,
                    (64 - i) as nat,
                ),
            decreases 64 - i,
        {
            let x = rng.next_range(-FX_ONE, FX_ONE);
            let y = rng.next_range(-FX_ONE, FX_ONE);
            let p = Vec3d { x, y, z: 0 };
            if p.length_squared() < FX_ONE {
                return p;
            }
            i = i + 1;
        }
        Vec3d { x: FX_HALF, y: 0, z: 0 }
    }

    /// A random direction of unit length, up to fixed-point rounding;
    /// after a bounded number of draws it falls back to a fixed axis.
    pub fn random_unit_vector(rng: &mut Prng) -> (r: Vec3d)
        ensures
            bounded_s(r, 2 * FX_ONE as int),
            (r, final(rng).state) == random_unit_vector_s(old(rng).state, 64),
    {
        let mut i: usize = 0;
        while i < 64
            invariant
                i <= 64,
                random_unit_vector_s(old(rng).state, 64) == random_unit_vector_s(
                    rng.state,
                    (64 - i) as nat,
                ),
            decreases 64 - i,
        {
            let p = Vec3d::random_in_unit_sphere(rng);
            if p.length_squared() > 0 {
                let u = p.unit_vector();
                proof {
                    lemma_unit_vector_bounded(p);
                }
                return u;
            }
            i = i + 1;
        }
        Vec3d { x: FX_ONE, y: 0, z: 0 }
    }

    /// A random unit direction on the hemisphere around the normal.
    pub fn random_on_hemisphere(normal: &Vec3d, rng: &mut Prng) -> (r: Vec3d)
        requires
            bounded_s(*normal, FX_MUL_LIM as int - 1),
        ensures
            bounded_s(r, FX_ONE as int),
    {
        let in_unit_sphere = Vec3d::random_in_unit_sphere(rng);
        if dot(&in_unit_sphere, normal) > 0 {
            in_unit_sphere
        } else {
            in_unit_sphere.neg()
        }
    }
}

/// A unit vector's components stay within twice the unit: the truncated
/// length always reaches at least half of any component's magnitude.
pub proof fn lemma_unit_vector_bounded(p: Vec3d)
    requires
        bounded_s(p, FX_MUL_LIM as int - 1),
        length_squared_s(p) > 0,
    ensures
        abs_i(fx_div_s(p.x as int, length_s(p))) <= 2 * FX_ONE as int,
        abs_i(fx_div_s(p.y as int, length_s(p))) <= 2 * FX_ONE as int,
        abs_i(fx_div_s(p.z as int, length_s(p))) <= 2 * FX_ONE as int,
{
    lemma_length_ge_component(p);
    let len = length_s(p);
    lemma_div_scaled_bound(p.x as int, len);
    lemma_div_scaled_bound(p.y as int, len);
    lemma_div_scaled_bound(p.z as int, len);
}

/// Dividing by a scalar at least half the numerator's magnitude keeps the
/// quotient within twice the unit.
proof fn lemma_div_scaled_bound(a: int, len: int)
    requires
        len >= 1,
        2 * len >= abs_i(a),
    ensures
        abs_i(fx_div_s(a, len)) <= 2 * FX_ONE as int,
{
    crate::fixed::lemma_abs_mul(a, FX_ONE as int);
    crate::fixed::lemma_tdivq_abs(a * FX_ONE, len);
    lemma_mul_upper_bound(abs_i(a), 2 * len, FX_ONE as int, FX_ONE as int);
    vstd::arithmetic::div_mod::lemma_div_is_ordered(
        abs_i(a) * FX_ONE,
        2 * len * FX_ONE,
        len,
    );
    vstd::arithmetic::div_mod::lemma_div_multiples_vanish(2 * FX_ONE as int, len);
    vstd::arithmetic::mul::lemma_mul_is_associative(2, len, FX_ONE as int);
    vstd::arithmetic::mul::lemma_mul_is_commutative(len, FX_ONE as int);
    vstd::arithmetic::mul::lemma_mul_is_associative(2, FX_ONE as int, len);
    vstd::arithmetic::mul::lemma_mul_is_commutative(2 * FX_ONE as int, len);
}

/// The truncated length of a vector reaches at least half of any single
/// component's magnitude.
proof fn lemma_length_ge_component(p: Vec3d)
    requires
        bounded_s(p, FX_MUL_LIM as int - 1),
        length_squared_s(p) > 0,
    ensures
        length_s(p) >= 1,
        2 * length_s(p) >= abs_i(p.x as int),
        2 * length_s(p) >= abs_i(p.y as int),
        2 * length_s(p) >= abs_i(p.z as int),
{
    let ls = length_squared_s(p);
    let len = length_s(p);
    lemma_exists_isqrt(ls * FX_ONE);
    assert(is_isqrt(ls * FX_ONE, len));
    assert(len >= 1) by (nonlinear_arith)
        requires
            len >= 0,
            ls >= 1,
            len * len <= ls * FX_ONE,
            ls * FX_ONE < (len + 1) * (len + 1),
            FX_ONE == 65536,
    ;
    lemma_fx_square_nonneg(p.x as int);
    lemma_fx_square_nonneg(p.y as int);
    lemma_fx_square_nonneg(p.z as int);
    lemma_component_le_double_length(p.x as int, ls, len);
    lemma_component_le_double_length(p.y as int, ls, len);
    lemma_component_le_double_length(p.z as int, ls, len);
}

/// There is a truncated square root for every nonnegative number.
proof fn lemma_exists_isqrt(n: int)
    requires
        n >= 0,
    ensures
        exists|r: int| #[trigger] is_isqrt(n, r),
    decreases n,
{
    if n == 0 {
        assert(is_isqrt(0, 0)) by (nonlinear_arith);
    } else {
        lemma_exists_isqrt(n - 1);
        let r = choose|r: int| #[trigger] is_isqrt(n - 1, r);
        if (r + 1) * (r + 1) <= n {
            assert(is_isqrt(n, r + 1)) by (nonlinear_arith)
                requires
                    r >= 0,
                    (r + 1) * (r + 1) <= n,
                    n - 1 < (r + 1) * (r + 1),
            ;
        } else {
            assert(is_isqrt(n, r));
        }
    }
}

/// A component of a small vector is at most twice the truncated length.
proof fn lemma_component_le_double_length(c: int, ls: int, len: int)
    requires
        fx_mul_s(c, c) <= ls,
        1 <= ls,
        is_isqrt(ls * FX_ONE, len),
    ensures
        2 * len >= abs_i(c),
{
    let m = abs_i(c);
    lemma_fx_square_nonneg(c);
    crate::fixed::lemma_abs_mul(c, c);
    assert(m * m == c * c);
    crate::fixed::lemma_tdivq_abs(c * c, FX_ONE as int);
    let q = (m * m) / (FX_ONE as int);
    assert(fx_mul_s(c, c) == q);
    vstd::arithmetic::div_mod::lemma_fundamental_div_mod(m * m, FX_ONE as int);
    vstd::arithmetic::div_mod::lemma_mod_bound(m * m, FX_ONE as int);
    assert(2 * len >= m) by (nonlinear_arith)
        requires
            0 <= m,
            m * m == 65536 * q + (m * m) % 65536,
            0 <= (m * m) % 65536 < 65536,
            q <= ls,
            1 <= ls,
            len >= 0,
            len * len <= ls * 65536,
            ls * 65536 < (len + 1) * (len + 1),
    ;
}

/// The dot product of two vectors.
pub fn dot(v1: &Vec3d, v2: &Vec3d) -> (r: Fx)
    requires
        bounded_s(*v1, FX_MUL_LIM as int - 1),
        bounded_s(*v2, FX_MUL_LIM as int - 1),
    ensures
        r == dot_s(*v1, *v2),
        abs_i(r as int) <= 3 * FX_MUL_RES_LIM,
{
    proof {
        lemma_fx_mul_s_bound(v1.x as int, v2.x as int, FX_MUL_LIM as int - 1, FX_MUL_LIM as int - 1);
        lemma_fx_mul_s_bound(v1.y as int, v2.y as int, FX_MUL_LIM as int - 1, FX_MUL_LIM as int - 1);
        lemma_fx_mul_s_bound(v1.z as int, v2.z as int, FX_MUL_LIM as int - 1, FX_MUL_LIM as int - 1);
    }
    let xx = fx_mul(v1.x, v2.x);
    let yy = fx_mul(v1.y, v2.y);
    let zz = fx_mul(v1.z, v2.z);
    xx + yy + zz
}

/// The fixed-point cross product.
pub open spec fn cross_s(a: Vec3d, b: Vec3d) -> Vec3d {
    Vec3d {
        x: (fx_mul_s(a.y as int, b.z as int) - fx_mul_s(a.z as int, b.y as int)) as Fx,
        y: (fx_mul_s(a.z as int, b.x as int) - fx_mul_s(a.x as int, b.z as int)) as Fx,
        z: (fx_mul_s(a.x as int, b.y as int) - fx_mul_s(a.y as int, b.x as int)) as Fx,
    }
}

/// A cross product of bounded vectors is bounded, component by
/// component, by twice the scaled product of the bounds.
pub proof fn lemma_cross_s_bound(a: Vec3d, b: Vec3d, ma: int, mb: int)
    requires
        bounded_s(a, ma),
        bounded_s(b, mb),
    ensures
        bounded_s(cross_s(a, b), 2 * (ma * mb / (FX_ONE as int))),
{
    lemma_fx_mul_s_bound(a.y as int, b.z as int, ma, mb);
    lemma_fx_mul_s_bound(a.z as int, b.y as int, ma, mb);
    lemma_fx_mul_s_bound(a.z as int, b.x as int, ma, mb);
    lemma_fx_mul_s_bound(a.x as int, b.z as int, ma, mb);
    lemma_fx_mul_s_bound(a.x as int, b.y as int, ma, mb);
    lemma_fx_mul_s_bound(a.y as int, b.x as int, ma, mb);
}

/// The cross product of two vectors.
pub fn cross(v1: &Vec3d, v2: &Vec3d) -> (r: Vec3d)
    requires
        bounded_s(*v1, FX_MUL_LIM as int - 1),
        bounded_s(*v2, FX_MUL_LIM as int - 1),
    ensures
        r == cross_s(*v1, *v2),
        r.x == fx_mul_s(v1.y as int, v2.z as int) - fx_mul_s(v1.z as int, v2.y as int),
        r.y == fx_mul_s(v1.z as int, v2.x as int) - fx_mul_s(v1.x as int, v2.z as int),
        r.z == fx_mul_s(v1.x as int, v2.y as int) - fx_mul_s(v1.y as int, v2.x as int),
{
    proof {
        lemma_fx_mul_s_bound(v1.y as int, v2.z as int, FX_MUL_LIM as int - 1, FX_MUL_LIM as int - 1);
        lemma_fx_mul_s_bound(v1.z as int, v2.y as int, FX_MUL_LIM as int - 1, FX_MUL_LIM as int - 1);
        lemma_fx_mul_s_bound(v1.z as int, v2.x as int, FX_MUL_LIM as int - 1, FX_MUL_LIM as int - 1);
        lemma_fx_mul_s_bound(v1.x as int, v2.z as int, FX_MUL_LIM as int - 1, FX_MUL_LIM as int - 1);
        lemma_fx_mul_s_bound(v1.x as int, v2.y as int, FX_MUL_LIM as int - 1, FX_MUL_LIM as int - 1);
        lemma_fx_mul_s_bound(v1.y as int, v2.x as int, FX_MUL_LIM as int - 1, FX_MUL_LIM as int - 1);
    }
    Vec3d {
        x: fx_mul(v1.y, v2.z) - fx_mul(v1.z, v2.y),
        y: fx_mul(v1.z, v2.x) - fx_mul(v1.x, v2.z),
        z: fx_mul(v1.x, v2.y) - fx_mul(v1.y, v2.x),
    }
}

/// The distance between two points.
pub fn distance(v1: &Vec3d, v2: &Vec3d) -> (r: Fx)
    requires
        bounded_s(*v1, (FX_MUL_LIM as int - 1) / 2),
        bounded_s(*v2, (FX_MUL_LIM as int - 1) / 2),
    ensures
        r == length_s(
            Vec3d {
                x: (v1.x - v2.x) as Fx,
                y: (v1.y - v2.y) as Fx,
                z: (v1.z - v2.z) as Fx,
            },
        ),
        r >= 0,
{
    let d = v1.sub(v2);
    d.length()
}

} // verus!
