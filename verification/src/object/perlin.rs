//! Lattice gradient noise with turbulence octaves, for marbled textures.

use crate::fixed::abs_i;
use crate::fixed::fx_floor;
use crate::fixed::fx_mul;
use crate::fixed::fx_mul_s;
use crate::fixed::lemma_fx_mul_s_bound;
use crate::fixed::Fx;
use crate::fixed::FX_ONE;
use crate::rng::Prng;
use crate::vec3d::bounded_s;
use crate::vec3d::dot;
use crate::vec3d::dot_s;
use crate::vec3d::lemma_dot_s_bound;
use crate::vec3d::Vec3d;
use vstd::prelude::*;

verus! {

/// Magnitude bound on points fed to the noise (2^40).
pub const PERLIN_POINT_LIM: i128 = 1099511627776;

/// A lattice of random gradients with three permutation tables.
pub struct PerlinTexture {
    pub point_count: usize,
    pub rand_vec3d: Vec<Vec3d>,
    pub perm_x: Vec<u8>,
    pub perm_y: Vec<u8>,
    pub perm_z: Vec<u8>,
    pub scale: Fx,
}

/// The lattice is complete: 256 gradients of near-unit length and three
/// index tables of 256 bytes each, with the pattern scale in range.
/// The tables are built as shuffles, but only their size matters to the
/// lookup, so only the size is demanded here.
pub open spec fn perlin_wf(t: PerlinTexture) -> bool {
    &&& t.point_count == 256
    &&& t.rand_vec3d.len() == 256
    &&& forall|i: int|
        0 <= i < 256 ==> bounded_s(#[trigger] t.rand_vec3d[i], 2 * FX_ONE as int)
    &&& t.perm_x.len() == 256
    &&& t.perm_y.len() == 256
    &&& t.perm_z.len() == 256
    &&& abs_i(t.scale as int) <= PERLIN_POINT_LIM
}

/// A lattice coordinate wrapped into the table range.
pub open spec fn mask256_s(v: int) -> int {
    v % 256
}

/// The gradient chosen for the lattice cell corner `(i+di, j+dj, k+dk)`.
pub open spec fn corner_gradient_s(t: PerlinTexture, i: int, j: int, k: int) -> Vec3d {
    let px = t.perm_x[mask256_s(i)];
    let py = t.perm_y[mask256_s(j)];
    let pz = t.perm_z[mask256_s(k)];
    t.rand_vec3d[(px ^ py ^ pz) as int]
}

/// The smoothstep of one fractional coordinate.
pub open spec fn smooth_s(u: int) -> int {
    fx_mul_s(fx_mul_s(u, u), 3 * FX_ONE - 2 * u)
}

/// One corner's contribution to the trilinear blend: the gradient dotted
/// with the offset to the corner, weighted by the blend factors.
pub open spec fn corner_term_s(c: Vec3d, fr: Vec3d, inv: Vec3d, di: bool, dj: bool, dk: bool)
    -> int {
    let w = Vec3d {
        x: (fr.x - if di { FX_ONE } else { 0 }) as Fx,
        y: (fr.y - if dj { FX_ONE } else { 0 }) as Fx,
        z: (fr.z - if dk { FX_ONE } else { 0 }) as Fx,
    };
    let vx = if di { fr.x as int } else { inv.x as int };
    let vy = if dj { fr.y as int } else { inv.y as int };
    let vz = if dk { fr.z as int } else { inv.z as int };
    fx_mul_s(fx_mul_s(fx_mul_s(dot_s(c, w), vx), vy), vz)
}

/// The noise of a point: its cell located, the fractional position
/// smoothed, and the eight corner gradients blended.
#[verifier::opaque]
pub open spec fn perlin_noise_s(t: PerlinTexture, p: Vec3d) -> int {
    let i = (p.x as int) / (FX_ONE as int);
    let j = (p.y as int) / (FX_ONE as int);
    let k = (p.z as int) / (FX_ONE as int);
    let fr = Vec3d {
        x: (p.x - i * FX_ONE) as Fx,
        y: (p.y - j * FX_ONE) as Fx,
        z: (p.z - k * FX_ONE) as Fx,
    };
    let inv = Vec3d {
        x: (FX_ONE - smooth_s(fr.x as int)) as Fx,
        y: (FX_ONE - smooth_s(fr.y as int)) as Fx,
        z: (FX_ONE - smooth_s(fr.z as int)) as Fx,
    };
    corner_term_s(corner_gradient_s(t, i, j, k), fr, inv, false, false, false) + corner_term_s(
        corner_gradient_s(t, i, j, k + 1),
        fr,
        inv,
        false,
        false,
        true,
    ) + corner_term_s(corner_gradient_s(t, i, j + 1, k), fr, inv, false, true, false)
        + corner_term_s(corner_gradient_s(t, i, j + 1, k + 1), fr, inv, false, true, true)
        + corner_term_s(corner_gradient_s(t, i + 1, j, k), fr, inv, true, false, false)
        + corner_term_s(corner_gradient_s(t, i + 1, j, k + 1), fr, inv, true, false, true)
        + corner_term_s(corner_gradient_s(t, i + 1, j + 1, k), fr, inv, true, true, false)
        + corner_term_s(corner_gradient_s(t, i + 1, j + 1, k + 1), fr, inv, true, true, true)
}

/// The octave sum of the turbulence: noise at the current frequency,
/// weighted, plus the remaining octaves at doubled frequency and half
/// weight.
pub open spec fn turb_rec_s(t: PerlinTexture, p: Vec3d, weight: int, depth: int) -> int
    decreases depth,
{
    if depth <= 0 {
        0
    } else {
        fx_mul_s(weight, perlin_noise_s(t, p)) + turb_rec_s(
            t,
            Vec3d { x: (2 * p.x) as Fx, y: (2 * p.y) as Fx, z: (2 * p.z) as Fx },
            fx_mul_s(weight, crate::fixed::FX_HALF as int),
            depth - 1,
        )
    }
}

/// Turbulence: the magnitude of the octave sum.
pub open spec fn turbulence_s(t: PerlinTexture, p: Vec3d, depth: int) -> int {
    abs_i(turb_rec_s(t, p, FX_ONE as int, depth))
}

/// The lattice coordinate wrapped into the table range.
fn mask256(v: i128) -> (r: usize)
    requires
        -170141183460469231731687303715884105728 < v,
    ensures
        r == mask256_s(v as int),
        r < 256,
{
    if v >= 0 {
        ((v as u128) % 256) as usize
    } else {
        let m = ((-v) as u128) % 256;
        proof {
            vstd::arithmetic::div_mod::lemma_fundamental_div_mod(-v as int, 256);
            vstd::arithmetic::div_mod::lemma_mod_bound(-v as int, 256);
            vstd::arithmetic::div_mod::lemma_fundamental_div_mod(v as int, 256);
            vstd::arithmetic::div_mod::lemma_mod_bound(v as int, 256);
            let q = ((-v) as int) / 256;
            let rr = ((-v) as int) % 256;
            if rr == 0 {
                vstd::arithmetic::div_mod::lemma_fundamental_div_mod_converse(
                    v as int,
                    256,
                    -q,
                    0,
                );
            } else {
                assert((-q - 1) * 256 + (256 - rr) == v as int) by {
                    vstd::arithmetic::mul::lemma_mul_is_distributive_sub_other_way(256, -q, 1);
                    vstd::arithmetic::mul::lemma_mul_unary_negation(q, 256);
                    vstd::arithmetic::mul::lemma_mul_is_commutative(q, 256);
                    vstd::arithmetic::mul::lemma_mul_is_commutative(-q, 256);
                    vstd::arithmetic::mul::lemma_mul_is_commutative(-q - 1, 256);
                }
                vstd::arithmetic::div_mod::lemma_fundamental_div_mod_converse(
                    v as int,
                    256,
                    -q - 1,
                    256 - rr,
                );
            }
        }
        if m == 0 {
            0
        } else {
            (256 - m) as usize
        }
    }
}

/// One corner's contribution to the trilinear blend.
fn corner_term(c: &Vec3d, fr: &Vec3d, inv: &Vec3d, di: bool, dj: bool, dk: bool) -> (r: Fx)
    requires
        bounded_s(*c, 2 * FX_ONE as int),
        0 <= fr.x < FX_ONE,
        0 <= fr.y < FX_ONE,
        0 <= fr.z < FX_ONE,
        bounded_s(*inv, 2 * FX_ONE as int),
    ensures
        r == corner_term_s(*c, *fr, *inv, di, dj, dk),
        abs_i(r as int) <= 48 * FX_ONE as int,
{
    let w = Vec3d::new(
        fr.x - if di {
            FX_ONE
        } else {
            0
        },
        fr.y - if dj {
            FX_ONE
        } else {
            0
        },
        fr.z - if dk {
            FX_ONE
        } else {
            0
        },
    );
    let vx = if di {
        fr.x
    } else {
        inv.x
    };
    let vy = if dj {
        fr.y
    } else {
        inv.y
    };
    let vz = if dk {
        fr.z
    } else {
        inv.z
    };
    proof {
        lemma_dot_s_bound(*c, w, 131072, 65536);
        lemma_fx_mul_s_bound(dot_s(*c, w), vx as int, 393216, 131072);
        lemma_fx_mul_s_bound(fx_mul_s(dot_s(*c, w), vx as int), vy as int, 786432, 131072);
        lemma_fx_mul_s_bound(
            fx_mul_s(fx_mul_s(dot_s(*c, w), vx as int), vy as int),
            vz as int,
            1572864,
            131072,
        );
    }
    let d = dot(c, &w);
    fx_mul(fx_mul(fx_mul(d, vx), vy), vz)
}

impl PerlinTexture {
    /// A fresh lattice: 256 random near-unit gradients and three
    /// shuffled permutation tables.
    pub fn new(scale: Fx, rng: &mut Prng) -> (r: PerlinTexture)
        requires
            abs_i(scale as int) <= PERLIN_POINT_LIM,
        ensures
            perlin_wf(r),
            r.scale == scale,
    {
        let mut rand_vec3d: Vec<Vec3d> = Vec::new();
        let mut i: usize = 0;
        while i < 256
            invariant
                rand_vec3d.len() == i,
                i <= 256,
                forall|m: int|
                    0 <= m < i ==> bounded_s(#[trigger] rand_vec3d[m], 2 * FX_ONE as int),
            decreases 256 - i,
        {
            rand_vec3d.push(Vec3d::random_unit_vector(rng));
            i = i + 1;
        }
        let perm_x = PerlinTexture::permute(rng);
        let perm_y = PerlinTexture::permute(rng);
        let perm_z = PerlinTexture::permute(rng);
        PerlinTexture { point_count: 256, rand_vec3d, perm_x, perm_y, perm_z, scale }
    }

    /// A table of the 256 byte values, shuffled in place; the lookup
    /// relies only on the size, so that is all the contract states.
    fn permute(rng: &mut Prng) -> (r: Vec<u8>)
        ensures
            r.len() == 256,
    {
        let mut p: Vec<u8> = Vec::new();
        let mut i: usize = 0;
        while i < 256
            invariant
                p.len() == i,
                i <= 256,
            decreases 256 - i,
        {
            p.push(i as u8);
            i = i + 1;
        }
        let mut i: usize = 255;
        while i >= 1
            invariant
                p.len() == 256,
                i <= 255,
            decreases i,
        {
            let target = rng.next_below(i as u64) as usize;
            let tmp = p[i];
            p[i] = p[target];
            p[target] = tmp;
            i = i - 1;
        }
        p
    }

    /// The lattice noise of a point.
    #[verifier::rlimit(100)]
    pub fn noise(&self, point: &Vec3d) -> (r: Fx)
        requires
            perlin_wf(*self),
            bounded_s(*point, PERLIN_POINT_LIM as int),
        ensures
            r == perlin_noise_s(*self, *point),
            abs_i(r as int) <= 384 * FX_ONE as int,
    {
        proof {
            reveal(perlin_noise_s);
        }
        let i = fx_floor(point.x);
        let j = fx_floor(point.y);
        let k = fx_floor(point.z);
        proof {
            vstd::arithmetic::div_mod::lemma_fundamental_div_mod(point.x as int, FX_ONE as int);
            vstd::arithmetic::div_mod::lemma_mod_bound(point.x as int, FX_ONE as int);
            vstd::arithmetic::div_mod::lemma_fundamental_div_mod(point.y as int, FX_ONE as int);
            vstd::arithmetic::div_mod::lemma_mod_bound(point.y as int, FX_ONE as int);
            vstd::arithmetic::div_mod::lemma_fundamental_div_mod(point.z as int, FX_ONE as int);
            vstd::arithmetic::div_mod::lemma_mod_bound(point.z as int, FX_ONE as int);
        }
        let fr = Vec3d::new(point.x - i * FX_ONE, point.y - j * FX_ONE, point.z - k * FX_ONE);
        let inv = Vec3d::new(
            FX_ONE - PerlinTexture::smooth(fr.x),
            FX_ONE - PerlinTexture::smooth(fr.y),
            FX_ONE - PerlinTexture::smooth(fr.z),
        );
        let mut accum: Fx = 0;
        let c000 = self.gradient(i, j, k);
        let c001 = self.gradient(i, j, k + 1);
        let c010 = self.gradient(i, j + 1, k);
        let c011 = self.gradient(i, j + 1, k + 1);
        let c100 = self.gradient(i + 1, j, k);
        let c101 = self.gradient(i + 1, j, k + 1);
        let c110 = self.gradient(i + 1, j + 1, k);
        let c111 = self.gradient(i + 1, j + 1, k + 1);
        accum = accum + corner_term(&c000, &fr, &inv, false, false, false);
        accum = accum + corner_term(&c001, &fr, &inv, false, false, true);
        accum = accum + corner_term(&c010, &fr, &inv, false, true, false);
        accum = accum + corner_term(&c011, &fr, &inv, false, true, true);
        accum = accum + corner_term(&c100, &fr, &inv, true, false, false);
        accum = accum + corner_term(&c101, &fr, &inv, true, false, true);
        accum = accum + corner_term(&c110, &fr, &inv, true, true, false);
        accum = accum + corner_term(&c111, &fr, &inv, true, true, true);
        accum
    }

    /// The smoothstep of one fractional coordinate.
    fn smooth(u: Fx) -> (r: Fx)
        requires
            0 <= u < FX_ONE,
        ensures
            r == smooth_s(u as int),
            0 <= r <= 3 * FX_ONE,
    {
        proof {
            lemma_fx_mul_s_bound(u as int, u as int, 65536, 65536);
            crate::fixed::lemma_fx_mul_nonneg(u as int, u as int);
            lemma_fx_mul_s_bound(fx_mul_s(u as int, u as int), 3 * FX_ONE as int - 2 * u, 65536, 196608);
            crate::fixed::lemma_fx_mul_nonneg(
                fx_mul_s(u as int, u as int),
                3 * FX_ONE as int - 2 * u,
            );
        }
        fx_mul(fx_mul(u, u), 3 * FX_ONE - 2 * u)
    }

    /// The gradient chosen for a lattice corner.
    fn gradient(&self, i: i128, j: i128, k: i128) -> (r: Vec3d)
        requires
            perlin_wf(*self),
            -170141183460469231731687303715884105727 <= i,
            -170141183460469231731687303715884105727 <= j,
            -170141183460469231731687303715884105727 <= k,
        ensures
            r == corner_gradient_s(*self, i as int, j as int, k as int),
            bounded_s(r, 2 * FX_ONE as int),
    {
        let px = self.perm_x[mask256(i)];
        let py = self.perm_y[mask256(j)];
        let pz = self.perm_z[mask256(k)];
        self.rand_vec3d[(px ^ py ^ pz) as usize]
    }

    /// The turbulence of a point: octaves of noise at doubling
    /// frequency and halving weight, folded to a magnitude.
    #[verifier::rlimit(100)]
    pub fn turbulence(&self, point: &Vec3d, depth: i32) -> (r: Fx)
        requires
            perlin_wf(*self),
            bounded_s(*point, 8589934592),
            0 <= depth <= 7,
        ensures
            r == turbulence_s(*self, *point, depth as int),
            0 <= r <= 2688 * FX_ONE,
    {
        proof {
            vstd::arithmetic::power2::lemma2_to64();
        }
        let mut accum: Fx = 0;
        let mut temp = *point;
        let mut weight: Fx = FX_ONE;
        let mut bound: i128 = 8589934592;
        let mut d: i32 = 0;
        while d < depth
            invariant
                perlin_wf(*self),
                0 <= d <= depth <= 7,
                0 <= weight <= FX_ONE,
                bound == 8589934592 * vstd::arithmetic::power2::pow2(d as nat),
                bound <= 1099511627776,
                bounded_s(temp, bound as int),
                abs_i(accum as int) <= d as int * 384 * FX_ONE as int,
                turb_rec_s(*self, *point, FX_ONE as int, depth as int) == accum + turb_rec_s(
                    *self,
                    temp,
                    weight as int,
                    depth as int - d,
                ),
            decreases depth - d,
        {
            let n = self.noise(&temp);
            proof {
                crate::fixed::lemma_fx_attenuate(weight as int, n as int);
                lemma_fx_mul_s_bound(weight as int, n as int, 65536, 25165824);
            }
            accum = accum + fx_mul(weight, n);
            proof {
                crate::fixed::lemma_fx_mul_nonneg(weight as int, crate::fixed::FX_HALF as int);
                crate::fixed::lemma_fx_attenuate(crate::fixed::FX_HALF as int, weight as int);
                vstd::arithmetic::mul::lemma_mul_is_commutative(
                    weight as int,
                    crate::fixed::FX_HALF as int,
                );
                assert(fx_mul_s(weight as int, crate::fixed::FX_HALF as int) == fx_mul_s(
                    crate::fixed::FX_HALF as int,
                    weight as int,
                ));
                vstd::arithmetic::power2::lemma_pow2_adds(d as nat, 1);
                vstd::arithmetic::power2::lemma2_to64();
                assert(vstd::arithmetic::power2::pow2((d + 1) as nat) == 2
                    * vstd::arithmetic::power2::pow2(d as nat)) by {
                    vstd::arithmetic::power2::lemma_pow2_adds(d as nat, 1);
                }
                vstd::arithmetic::mul::lemma_mul_is_distributive_add_other_way(
                    2,
                    8589934592 * vstd::arithmetic::power2::pow2(d as nat) as int,
                    0,
                );
            }
            weight = fx_mul(weight, crate::fixed::FX_HALF);
            temp = Vec3d::new(2 * temp.x, 2 * temp.y, 2 * temp.z);
            proof {
                assert(bound * 2 == 8589934592 * vstd::arithmetic::power2::pow2(
                    (d + 1) as nat,
                )) by (nonlinear_arith)
                    requires
                        bound == 8589934592 * vstd::arithmetic::power2::pow2(d as nat),
                        vstd::arithmetic::power2::pow2((d + 1) as nat) == 2
                            * vstd::arithmetic::power2::pow2(d as nat),
                ;
            }
            bound = bound * 2;
            d = d + 1;
        }
        if accum >= 0 {
            accum
        } else {
            -accum
        }
    }
}

} // verus!