//! Materials: how surfaces scatter and emit light.

use crate::fixed::abs_i;
use crate::fixed::fx_div;
use crate::fixed::fx_div_s;
use crate::fixed::fx_in_range;
use crate::fixed::fx_max;
use crate::fixed::fx_min;
use crate::fixed::fx_mul;
use crate::fixed::fx_mul_s;
use crate::fixed::fx_sqrt;
use crate::fixed::fx_sqrt_s;
use crate::fixed::lemma_fx_mul_s_bound;
use crate::fixed::lemma_fx_square_nonneg;
use crate::fixed::lemma_isqrt_unique;
use crate::fixed::is_isqrt;
use crate::fixed::Fx;
use crate::fixed::FX_MUL_LIM;
use crate::fixed::FX_ONE;
use crate::object::hit::HitRecord;
use crate::object::texture::texture_value_s;
use crate::object::texture::texture_wf;
use crate::object::texture::SolidColor;
use crate::object::texture::Texture;
use crate::ray::Ray;
use crate::rng::Prng;
use crate::vec3d::bounded_s;
use crate::vec3d::dot;
use crate::vec3d::dot_s;
use crate::vec3d::length_s;
use crate::vec3d::length_squared_s;
use crate::vec3d::lemma_dot_s_bound;
use crate::vec3d::Color;
use crate::vec3d::Vec3d;
use crate::vec3d::VEC_LIM;
use vstd::prelude::*;

verus! {

/// What a scatter event yields: possibly a new ray, and an attenuation.
pub type Scattered = Option<(Option<Ray>, Vec3d)>;

/// A surface material.
pub enum Material {
    Empty(Empty),
    Light(Light),
    Lambertian(Lambertian),
    Metal(Metal),
    Dielectric(Dielectric),
    Isotropic(Isotropic),
}

/// Absorbs everything and emits nothing; a placeholder for hit records
/// that are read only for occupancy.
pub struct Empty {}

/// A texture-backed emitter; it never scatters.
pub struct Light {
    pub texture: Texture,
}

/// A diffuse surface with a texture-backed albedo.
pub struct Lambertian {
    pub texture: Texture,
}

/// A specular reflector with a fuzz radius.
pub struct Metal {
    pub albedo: Vec3d,
    pub fuss: Fx,
}

/// A refractive surface with Schlick-approximated reflectance.
pub struct Dielectric {
    pub refraction_index: Fx,
}

/// A uniform-sphere phase function, used inside participating media.
pub struct Isotropic {
    pub texture: Texture,
}

/// The material's parameters stay inside the ranges its arithmetic needs.
pub open spec fn material_wf(m: Material) -> bool {
    match m {
        Material::Empty(_) => true,
        Material::Light(li) => crate::object::texture::texture_wf_lim(
            li.texture,
            crate::object::texture::TEXTURE_EMIT_LIM as int,
        ),
        Material::Lambertian(l) => texture_wf(l.texture),
        Material::Metal(me) => bounded_s(me.albedo, FX_ONE as int) && -FX_ONE <= me.fuss
            <= FX_ONE,
        Material::Dielectric(d) => 0 < d.refraction_index <= 4294967296,
        Material::Isotropic(i) => texture_wf(i.texture),
    }
}

/// The geometry of a hit is sound enough to scatter from: the point and
/// the ray direction stay inside multiplication range and the normal is
/// of roughly unit length.
pub open spec fn scatter_geom_ok(ray_in: Ray, point: Vec3d, normal: Vec3d) -> bool {
    bounded_s(point, FX_MUL_LIM as int - 1) && bounded_s(normal, 2 * FX_ONE as int) && bounded_s(
        ray_in.direction,
        VEC_LIM as int,
    )
}

/// The mirror reflection of `v` about the unit-ish normal `n`.
pub open spec fn reflect_s(v: Vec3d, n: Vec3d) -> Vec3d {
    let d2 = fx_mul_s(dot_s(v, n), 2 * FX_ONE);
    Vec3d {
        x: (v.x - fx_mul_s(n.x as int, d2)) as Fx,
        y: (v.y - fx_mul_s(n.y as int, d2)) as Fx,
        z: (v.z - fx_mul_s(n.z as int, d2)) as Fx,
    }
}

/// The refraction of the unit-ish direction `v` at the normal `n` with
/// relative index `etai_over_etat`.
pub open spec fn refract_s(v: Vec3d, n: Vec3d, etai_over_etat: int) -> Vec3d {
    let cos = clamp_unit_s(dot_s(Vec3d { x: (-v.x) as Fx, y: (-v.y) as Fx, z: (-v.z) as Fx }, n));
    let px = fx_mul_s(v.x + fx_mul_s(n.x as int, cos), etai_over_etat);
    let py = fx_mul_s(v.y + fx_mul_s(n.y as int, cos), etai_over_etat);
    let pz = fx_mul_s(v.z + fx_mul_s(n.z as int, cos), etai_over_etat);
    let perp_ls = fx_mul_s(px, px) + fx_mul_s(py, py) + fx_mul_s(pz, pz);
    let par = -fx_sqrt_s(abs_i(FX_ONE - perp_ls));
    Vec3d {
        x: (px + fx_mul_s(n.x as int, par)) as Fx,
        y: (py + fx_mul_s(n.y as int, par)) as Fx,
        z: (pz + fx_mul_s(n.z as int, par)) as Fx,
    }
}

/// A cosine clamped into `[-1, 1]`.
pub open spec fn clamp_unit_s(c: int) -> int {
    if c > FX_ONE {
        FX_ONE as int
    } else if c < -FX_ONE {
        -FX_ONE as int
    } else {
        c
    }
}

/// Schlick's approximation of the reflectance at a given cosine and
/// refraction index.
pub open spec fn reflectance_s(cosine: int, refraction_index: int) -> int {
    let r0 = fx_div_s(FX_ONE - refraction_index, FX_ONE + refraction_index);
    let r0sq = fx_mul_s(r0, r0);
    let omc = FX_ONE - cosine;
    let p2 = fx_mul_s(omc, omc);
    let p4 = fx_mul_s(p2, p2);
    let p5 = fx_mul_s(p4, omc);
    r0sq + fx_mul_s(FX_ONE - r0sq, p5)
}

/// The effective refraction ratio: inverted on a front face.
pub open spec fn dielectric_ri_s(d: Dielectric, front_face: bool) -> int {
    if front_face {
        fx_div_s(FX_ONE as int, d.refraction_index as int)
    } else {
        d.refraction_index as int
    }
}

/// Everything a dielectric scatter answers, step for step: out-of-range
/// geometry, a zero-length ray or a vanishing refraction ratio absorb;
/// otherwise the one uniform draw decides, through Schlick's
/// approximation and the total-internal-reflection test, between the
/// mirrored and the refracted direction.
pub open spec fn dielectric_scatter_s(
    d: Dielectric,
    ray_in: Ray,
    point: Vec3d,
    normal: Vec3d,
    front_face: bool,
    state: u64,
) -> Scattered {
    let ri = dielectric_ri_s(d, front_face);
    if !scatter_geom_ok(ray_in, point, normal) || length_squared_s(ray_in.direction) == 0 || ri
        <= 0 {
        None
    } else {
        let len = length_s(ray_in.direction);
        let unit = Vec3d {
            x: fx_div_s(ray_in.direction.x as int, len) as Fx,
            y: fx_div_s(ray_in.direction.y as int, len) as Fx,
            z: fx_div_s(ray_in.direction.z as int, len) as Fx,
        };
        let cos = clamp_unit_s(
            dot_s(Vec3d { x: (-unit.x) as Fx, y: (-unit.y) as Fx, z: (-unit.z) as Fx }, normal),
        );
        let draw = crate::rng::prng_next_s(state) % 65536;
        let direction = if cannot_refract_s(ri, cos) || reflectance_s(cos, ri) > draw {
            reflect_s(unit, normal)
        } else {
            refract_s(unit, normal, ri)
        };
        Some(
            (
                Some(Ray { origin: point, direction, time: ray_in.time }),
                Vec3d { x: FX_ONE, y: FX_ONE, z: FX_ONE },
            ),
        )
    }
}

/// The generator state a dielectric scatter leaves behind: one draw on
/// the scattering path, untouched when the surface absorbs.
pub open spec fn dielectric_state_s(
    d: Dielectric,
    ray_in: Ray,
    point: Vec3d,
    normal: Vec3d,
    front_face: bool,
    state: u64,
) -> u64 {
    let ri = dielectric_ri_s(d, front_face);
    if !scatter_geom_ok(ray_in, point, normal) || length_squared_s(ray_in.direction) == 0 || ri
        <= 0 {
        state
    } else {
        crate::rng::prng_next_s(state)
    }
}

/// Everything a diffuse scatter answers: the drawn unit direction added
/// to the normal (or the normal alone when the sum vanishes), the exact
/// texture attenuation, and one pass through the direction sampler.
pub open spec fn lambertian_scatter_s(
    l: Lambertian,
    ray_in: Ray,
    point: Vec3d,
    normal: Vec3d,
    u: int,
    v: int,
    state: u64,
) -> Scattered {
    if !scatter_geom_ok(ray_in, point, normal) {
        None
    } else {
        let drawn = crate::vec3d::random_unit_vector_s(state, 64);
        let summed = Vec3d {
            x: (normal.x + drawn.0.x) as Fx,
            y: (normal.y + drawn.0.y) as Fx,
            z: (normal.z + drawn.0.z) as Fx,
        };
        let dir = if summed == (Vec3d { x: 0 as Fx, y: 0 as Fx, z: 0 as Fx }) {
            normal
        } else {
            summed
        };
        Some(
            (
                Some(Ray { origin: point, direction: dir, time: ray_in.time }),
                texture_value_s(l.texture, u, v, point),
            ),
        )
    }
}

/// Everything a metal scatter answers: the reflected direction
/// normalized and perturbed by the drawn unit vector scaled with the
/// fuzz radius, accepted only when it leaves the surface.
pub open spec fn metal_scatter_s(
    me: Metal,
    ray_in: Ray,
    point: Vec3d,
    normal: Vec3d,
    state: u64,
) -> Scattered {
    if !scatter_geom_ok(ray_in, point, normal) {
        None
    } else {
        let reflected = reflect_s(ray_in.direction, normal);
        if length_squared_s(reflected) == 0 {
            None
        } else {
            let drawn = crate::vec3d::random_unit_vector_s(state, 64);
            let len = length_s(reflected);
            let fuzzed = Vec3d {
                x: (fx_div_s(reflected.x as int, len) + fx_mul_s(drawn.0.x as int, me.fuss as int))
                    as Fx,
                y: (fx_div_s(reflected.y as int, len) + fx_mul_s(drawn.0.y as int, me.fuss as int))
                    as Fx,
                z: (fx_div_s(reflected.z as int, len) + fx_mul_s(drawn.0.z as int, me.fuss as int))
                    as Fx,
            };
            if dot_s(fuzzed, normal) <= 0 {
                None
            } else {
                Some((Some(Ray { origin: point, direction: fuzzed, time: ray_in.time }), me.albedo))
            }
        }
    }
}

/// The generator state a diffuse or isotropic scatter leaves behind:
/// one pass through the direction sampler on the scattering path.
pub open spec fn sampler_state_s(
    ray_in: Ray,
    point: Vec3d,
    normal: Vec3d,
    state: u64,
) -> u64 {
    if !scatter_geom_ok(ray_in, point, normal) {
        state
    } else {
        crate::vec3d::random_unit_vector_s(state, 64).1
    }
}

/// The generator state a metal scatter leaves behind: one pass through
/// the direction sampler once a nonzero reflection exists.
pub open spec fn metal_state_s(
    ray_in: Ray,
    point: Vec3d,
    normal: Vec3d,
    state: u64,
) -> u64 {
    if !scatter_geom_ok(ray_in, point, normal) || length_squared_s(
        reflect_s(ray_in.direction, normal),
    ) == 0 {
        state
    } else {
        crate::vec3d::random_unit_vector_s(state, 64).1
    }
}

/// Everything an isotropic scatter answers: the drawn unit direction
/// with the exact texture attenuation.
pub open spec fn isotropic_scatter_s(
    i: Isotropic,
    ray_in: Ray,
    point: Vec3d,
    normal: Vec3d,
    u: int,
    v: int,
    state: u64,
) -> Scattered {
    if !scatter_geom_ok(ray_in, point, normal) {
        None
    } else {
        let drawn = crate::vec3d::random_unit_vector_s(state, 64);
        Some(
            (
                Some(Ray { origin: point, direction: drawn.0, time: ray_in.time }),
                texture_value_s(i.texture, u, v, point),
            ),
        )
    }
}

/// One scatter mirror over all materials: what each variant's exact
/// mirror answers for the drawn state.
pub open spec fn scatter_mirror_s(
    m: Material,
    ray_in: Ray,
    point: Vec3d,
    normal: Vec3d,
    front_face: bool,
    u: int,
    v: int,
    state: u64,
) -> Scattered {
    match m {
        Material::Empty(_) => None,
        Material::Light(_) => Some(
            (None::<Ray>, Vec3d { x: FX_ONE, y: FX_ONE, z: FX_ONE }),
        ),
        Material::Lambertian(l) => lambertian_scatter_s(l, ray_in, point, normal, u, v, state),
        Material::Metal(me) => metal_scatter_s(me, ray_in, point, normal, state),
        Material::Dielectric(d) => dielectric_scatter_s(d, ray_in, point, normal, front_face, state),
        Material::Isotropic(i) => isotropic_scatter_s(i, ray_in, point, normal, u, v, state),
    }
}

/// The generator state each variant's scatter leaves behind.
pub open spec fn scatter_state_mirror_s(
    m: Material,
    ray_in: Ray,
    point: Vec3d,
    normal: Vec3d,
    front_face: bool,
    state: u64,
) -> u64 {
    match m {
        Material::Empty(_) => state,
        Material::Light(_) => state,
        Material::Lambertian(_) => sampler_state_s(ray_in, point, normal, state),
        Material::Metal(_) => metal_state_s(ray_in, point, normal, state),
        Material::Dielectric(d) => dielectric_state_s(d, ray_in, point, normal, front_face, state),
        Material::Isotropic(_) => sampler_state_s(ray_in, point, normal, state),
    }
}

/// Total internal reflection: the scaled sine leaves the unit range.
pub open spec fn cannot_refract_s(refraction_ratio: int, cos_theta: int) -> bool {
    let sin_theta = fx_sqrt_s(FX_ONE - fx_mul_s(cos_theta, cos_theta));
    fx_mul_s(refraction_ratio, sin_theta) > FX_ONE
}

/// A ray that meets a surface head on is never totally internally
/// reflected, whatever the refraction ratio: at cosine one the sine
/// vanishes, and the scaled sine stays inside the unit range.
pub proof fn lemma_head_on_always_refracts(refraction_ratio: int)
    ensures
        !cannot_refract_s(refraction_ratio, FX_ONE as int),
{
    crate::fixed::lemma_tdivq_abs(FX_ONE as int * FX_ONE, FX_ONE as int);
    vstd::arithmetic::div_mod::lemma_div_multiples_vanish(FX_ONE as int, FX_ONE as int);
    vstd::arithmetic::mul::lemma_mul_is_commutative(FX_ONE as int, FX_ONE as int);
    assert(fx_mul_s(FX_ONE as int, FX_ONE as int) == FX_ONE);
    assert(is_isqrt(0, 0));
    assert(is_isqrt((FX_ONE - fx_mul_s(FX_ONE as int, FX_ONE as int)) * FX_ONE, 0));
    lemma_isqrt_unique(0, 0, fx_sqrt_s(0));
    assert(fx_sqrt_s(FX_ONE - fx_mul_s(FX_ONE as int, FX_ONE as int)) == 0);
    assert(refraction_ratio * 0 == 0) by (nonlinear_arith);
    crate::fixed::lemma_tdivq_abs(0, FX_ONE as int);
    assert(fx_mul_s(refraction_ratio, 0) == 0);
}

/// The first Schlick coefficient stays strictly inside the unit range.
proof fn lemma_r0_unit(ri: int)
    requires
        0 < ri,
    ensures
        abs_i(fx_div_s(FX_ONE - ri, FX_ONE + ri)) < FX_ONE,
{
    crate::fixed::lemma_abs_mul(FX_ONE as int - ri, FX_ONE as int);
    crate::fixed::lemma_tdivq_abs((FX_ONE as int - ri) * FX_ONE, FX_ONE as int + ri);
    vstd::arithmetic::div_mod::lemma_div_pos_is_pos(
        abs_i((FX_ONE as int - ri) * FX_ONE),
        FX_ONE as int + ri,
    );
    vstd::arithmetic::mul::lemma_mul_inequality(
        abs_i(FX_ONE as int - ri),
        FX_ONE as int + ri - 1,
        FX_ONE as int,
    );
    vstd::arithmetic::mul::lemma_mul_is_commutative(abs_i(FX_ONE as int - ri), FX_ONE as int);
    vstd::arithmetic::mul::lemma_mul_is_commutative(FX_ONE as int + ri - 1, FX_ONE as int);
    vstd::arithmetic::div_mod::lemma_div_is_ordered(
        abs_i(FX_ONE as int - ri) * FX_ONE,
        (FX_ONE as int + ri - 1) * FX_ONE,
        FX_ONE as int + ri,
    );
    assert((FX_ONE as int + ri - 1) * FX_ONE < (FX_ONE as int + ri) * FX_ONE) by (nonlinear_arith)
        requires
            ri > 0,
            FX_ONE == 65536,
    ;
    vstd::arithmetic::div_mod::lemma_multiply_divide_lt(
        (FX_ONE as int + ri - 1) * FX_ONE,
        FX_ONE as int + ri,
        FX_ONE as int,
    );
}

/// The mirror reflection of `v` about `n`.
pub fn reflect(v_in: &Vec3d, normal: &Vec3d) -> (r: Vec3d)
    requires
        bounded_s(*v_in, VEC_LIM as int),
        bounded_s(*normal, 2 * FX_ONE as int),
    ensures
        r == reflect_s(*v_in, *normal),
        bounded_s(r, 2251799813685248),
{
    proof {
        lemma_dot_s_bound(*v_in, *normal, VEC_LIM as int, 2 * FX_ONE as int);
        // |dot| <= 3 * 2^47; |d2| <= 3 * 2^48; |n * d2| <= 3 * 2^49.
        lemma_fx_mul_s_bound(
            dot_s(*v_in, *normal),
            2 * FX_ONE as int,
            422212465065984,
            2 * FX_ONE as int,
        );
        let d2 = fx_mul_s(dot_s(*v_in, *normal), 2 * FX_ONE as int);
        lemma_fx_mul_s_bound(normal.x as int, d2, 2 * FX_ONE as int, 844424930131968);
        lemma_fx_mul_s_bound(normal.y as int, d2, 2 * FX_ONE as int, 844424930131968);
        lemma_fx_mul_s_bound(normal.z as int, d2, 2 * FX_ONE as int, 844424930131968);
    }
    let d = dot(v_in, normal);
    let d2 = fx_mul(d, 2 * FX_ONE);
    Vec3d {
        x: v_in.x - fx_mul(normal.x, d2),
        y: v_in.y - fx_mul(normal.y, d2),
        z: v_in.z - fx_mul(normal.z, d2),
    }
}

/// The refraction of `v` at `n` with the given relative index.
pub fn refract(v_in: &Vec3d, normal: &Vec3d, etai_over_etat: Fx) -> (r: Vec3d)
    requires
        bounded_s(*v_in, 2 * FX_ONE as int),
        bounded_s(*normal, 2 * FX_ONE as int),
        0 < etai_over_etat <= 4294967296,
    ensures
        r == refract_s(*v_in, *normal, etai_over_etat as int),
{
    let neg_v = v_in.neg();
    let d = dot(&neg_v, normal);
    let cos = fx_max(fx_min(d, FX_ONE), -FX_ONE);
    proof {
        lemma_refract_bounds(*v_in, *normal, etai_over_etat as int, cos as int);
        lemma_fx_mul_s_bound(
            v_in.x + fx_mul_s(normal.x as int, cos as int),
            etai_over_etat as int,
            4 * FX_ONE as int,
            4294967296,
        );
        lemma_fx_mul_s_bound(
            v_in.y + fx_mul_s(normal.y as int, cos as int),
            etai_over_etat as int,
            4 * FX_ONE as int,
            4294967296,
        );
        lemma_fx_mul_s_bound(
            v_in.z + fx_mul_s(normal.z as int, cos as int),
            etai_over_etat as int,
            4 * FX_ONE as int,
            4294967296,
        );
    }
    let px = fx_mul(v_in.x + fx_mul(normal.x, cos), etai_over_etat);
    let py = fx_mul(v_in.y + fx_mul(normal.y, cos), etai_over_etat);
    let pz = fx_mul(v_in.z + fx_mul(normal.z, cos), etai_over_etat);
    proof {
        lemma_fx_mul_s_bound(px as int, px as int, 17592186044416, 17592186044416);
        lemma_fx_mul_s_bound(py as int, py as int, 17592186044416, 17592186044416);
        lemma_fx_mul_s_bound(pz as int, pz as int, 17592186044416, 17592186044416);
    }
    let perp_ls = fx_mul(px, px) + fx_mul(py, py) + fx_mul(pz, pz);
    let m = if FX_ONE - perp_ls >= 0 {
        FX_ONE - perp_ls
    } else {
        -(FX_ONE - perp_ls)
    };
    let sq = fx_sqrt(m);
    proof {
        assert(sq < FX_MUL_LIM) by (nonlinear_arith)
            requires
                sq >= 0,
                (sq as int) * (sq as int) <= (m as int) * 65536,
                0 <= m <= 20000000000000000000000,
                FX_MUL_LIM == 36028797018963968,
        ;
    }
    let par = -sq;
    Vec3d {
        x: px + fx_mul(normal.x, par),
        y: py + fx_mul(normal.y, par),
        z: pz + fx_mul(normal.z, par),
    }
}

/// The intermediate values of a refraction stay inside operand ranges.
proof fn lemma_refract_bounds(v: Vec3d, n: Vec3d, eta: int, cos: int)
    requires
        bounded_s(v, 2 * FX_ONE as int),
        bounded_s(n, 2 * FX_ONE as int),
        0 < eta < FX_MUL_LIM,
        abs_i(cos) <= FX_ONE as int,
    ensures
        abs_i(fx_mul_s(n.x as int, cos)) <= 2 * FX_ONE as int,
        abs_i(fx_mul_s(n.y as int, cos)) <= 2 * FX_ONE as int,
        abs_i(fx_mul_s(n.z as int, cos)) <= 2 * FX_ONE as int,
{
    lemma_fx_mul_s_bound(n.x as int, cos, 2 * FX_ONE as int, FX_ONE as int);
    lemma_fx_mul_s_bound(n.y as int, cos, 2 * FX_ONE as int, FX_ONE as int);
    lemma_fx_mul_s_bound(n.z as int, cos, 2 * FX_ONE as int, FX_ONE as int);
}

/// Schlick's approximation of the reflectance.
fn reflectance(cosine: Fx, refraction_index: Fx) -> (r: Fx)
    requires
        abs_i(cosine as int) <= FX_ONE as int,
        0 < refraction_index < FX_MUL_LIM,
    ensures
        r == reflectance_s(cosine as int, refraction_index as int),
{
    let r0 = fx_div(FX_ONE - refraction_index, FX_ONE + refraction_index);
    proof {
        lemma_r0_unit(refraction_index as int);
        lemma_fx_mul_s_bound(r0 as int, r0 as int, FX_ONE as int, FX_ONE as int);
    }
    let r0sq = fx_mul(r0, r0);
    let omc = FX_ONE - cosine;
    proof {
        lemma_fx_mul_s_bound(omc as int, omc as int, 2 * FX_ONE as int, 2 * FX_ONE as int);
        lemma_fx_mul_s_bound(
            fx_mul_s(omc as int, omc as int),
            fx_mul_s(omc as int, omc as int),
            4 * FX_ONE as int,
            4 * FX_ONE as int,
        );
        lemma_fx_mul_s_bound(
            fx_mul_s(fx_mul_s(omc as int, omc as int), fx_mul_s(omc as int, omc as int)),
            omc as int,
            16 * FX_ONE as int,
            2 * FX_ONE as int,
        );
        lemma_fx_mul_s_bound(
            FX_ONE as int - fx_mul_s(r0 as int, r0 as int),
            fx_mul_s(
                fx_mul_s(fx_mul_s(omc as int, omc as int), fx_mul_s(omc as int, omc as int)),
                omc as int,
            ),
            2 * FX_ONE as int,
            32 * FX_ONE as int,
        );
    }
    let p2 = fx_mul(omc, omc);
    let p4 = fx_mul(p2, p2);
    let p5 = fx_mul(p4, omc);
    r0sq + fx_mul(FX_ONE - r0sq, p5)
}

impl Light {
    /// An emitter of a single color.
    pub fn new(color: Vec3d) -> (r: Light)
        ensures
            r.texture == Texture::SolidColor(SolidColor { color }),
    {
        Light { texture: Texture::SolidColor(SolidColor::new(color)) }
    }

    /// An emitter backed by a texture.
    pub fn from_texture(texture: Texture) -> (r: Light)
        ensures
            r.texture == texture,
    {
        Light { texture }
    }
}

impl Lambertian {
    /// A diffuse surface of a single albedo color.
    pub fn new(albedo: Vec3d) -> (r: Lambertian)
        ensures
            r.texture == Texture::SolidColor(SolidColor { color: albedo }),
    {
        Lambertian { texture: Texture::SolidColor(SolidColor::new(albedo)) }
    }

    /// A diffuse surface backed by a texture.
    pub fn from_texture(texture: Texture) -> (r: Lambertian)
        ensures
            r.texture == texture,
    {
        Lambertian { texture }
    }
}

impl Metal {
    /// A specular surface; the fuzz radius must not exceed one in
    /// magnitude, which keeps the fuzz scaling inside the unit range
    /// the scatter arithmetic needs.
    pub fn new(albedo: Vec3d, fuss: Fx) -> (r: Metal)
        requires
            -FX_ONE <= fuss <= FX_ONE,
        ensures
            r.albedo == albedo,
            r.fuss == fuss,
    {
        Metal { albedo, fuss }
    }
}

impl Dielectric {
    /// A refractive surface with the given index.
    pub fn new(refraction_index: Fx) -> (r: Dielectric)
        requires
            0 < refraction_index <= 4294967296,
        ensures
            r.refraction_index == refraction_index,
    {
        Dielectric { refraction_index }
    }
}

impl Isotropic {
    /// A phase function backed by a texture.
    pub fn new(texture: Texture) -> (r: Isotropic)
        ensures
            r.texture == texture,
    {
        Isotropic { texture }
    }

    /// A phase function of a single color.
    pub fn from_color(color: Vec3d) -> (r: Isotropic)
        ensures
            r.texture == Texture::SolidColor(SolidColor { color }),
    {
        Isotropic { texture: Texture::SolidColor(SolidColor::new(color)) }
    }
}

impl Material {
    /// What the material emits at the given coordinates and point.
    pub fn emitted(&self, u: Fx, v: Fx, p: &Vec3d) -> (r: Color)
        requires
            material_wf(*self),
            bounded_s(*p, FX_MUL_LIM as int - 1),
        ensures
            r == emitted_s(*self, u as int, v as int, *p),
            bounded_s(r, crate::object::texture::TEXTURE_EMIT_LIM as int),
    {
        match self {
            Material::Light(li) => li.texture.value(u, v, p),
            _ => Vec3d::zero(),
        }
    }

    /// The material's response to a hit: possibly a scattered ray, and an
    /// attenuation.  On a hit whose geometry is out of numeric range the
    /// surface absorbs the ray.
    pub fn scatter(&self, ray_in: &Ray, hit_record: &HitRecord, rng: &mut Prng) -> (r: Scattered)
        requires
            material_wf(*self),
        ensures
            scatter_shape_ok(
                *self,
                *ray_in,
                hit_record.point,
                hit_record.normal,
                hit_record.front_face,
                hit_record.u as int,
                hit_record.v as int,
                r,
            ),
            match r {
                Some((_, att)) => bounded_s(att, FX_ONE as int),
                None => true,
            },
            r == scatter_mirror_s(
                *self,
                *ray_in,
                hit_record.point,
                hit_record.normal,
                hit_record.front_face,
                hit_record.u as int,
                hit_record.v as int,
                old(rng).state,
            ),
            final(rng).state == scatter_state_mirror_s(
                *self,
                *ray_in,
                hit_record.point,
                hit_record.normal,
                hit_record.front_face,
                old(rng).state,
            ),
            match *self {
                Material::Lambertian(l) => r == lambertian_scatter_s(
                    l,
                    *ray_in,
                    hit_record.point,
                    hit_record.normal,
                    hit_record.u as int,
                    hit_record.v as int,
                    old(rng).state,
                ) && final(rng).state == sampler_state_s(
                    *ray_in,
                    hit_record.point,
                    hit_record.normal,
                    old(rng).state,
                ),
                Material::Metal(me) => r == metal_scatter_s(
                    me,
                    *ray_in,
                    hit_record.point,
                    hit_record.normal,
                    old(rng).state,
                ) && final(rng).state == metal_state_s(
                    *ray_in,
                    hit_record.point,
                    hit_record.normal,
                    old(rng).state,
                ),
                Material::Isotropic(i) => r == isotropic_scatter_s(
                    i,
                    *ray_in,
                    hit_record.point,
                    hit_record.normal,
                    hit_record.u as int,
                    hit_record.v as int,
                    old(rng).state,
                ) && final(rng).state == sampler_state_s(
                    *ray_in,
                    hit_record.point,
                    hit_record.normal,
                    old(rng).state,
                ),
                Material::Dielectric(d) => r == dielectric_scatter_s(
                    d,
                    *ray_in,
                    hit_record.point,
                    hit_record.normal,
                    hit_record.front_face,
                    old(rng).state,
                ) && final(rng).state == dielectric_state_s(
                    d,
                    *ray_in,
                    hit_record.point,
                    hit_record.normal,
                    hit_record.front_face,
                    old(rng).state,
                ),
                _ => true,
            },
    {
        let ok = check_scatter_geom(ray_in, &hit_record.point, &hit_record.normal);
        match self {
            Material::Empty(_) => None,
            Material::Light(_) => Some((None, Vec3d::new(FX_ONE, FX_ONE, FX_ONE))),
            Material::Lambertian(l) => {
                if !ok {
                    return None;
                }
                let ruv = Vec3d::random_unit_vector(rng);
                let summed = hit_record.normal.add(&ruv);
                let scatter_direction = if summed.near_zero() {
                    hit_record.normal
                } else {
                    summed
                };
                proof {
                    crate::object::texture::lemma_texture_wf_widens(
                        l.texture,
                        FX_ONE as int,
                        crate::object::texture::TEXTURE_EMIT_LIM as int,
                    );
                }
                let attenuation = l.texture.value(hit_record.u, hit_record.v, &hit_record.point);
                Some(
                    (
                        Some(Ray::new(hit_record.point, scatter_direction, ray_in.time)),
                        attenuation,
                    ),
                )
            },
            Material::Metal(metal) => {
                if !ok {
                    return None;
                }
                let reflected = reflect(&ray_in.direction, &hit_record.normal);
                if reflected.length_squared() == 0 {
                    return None;
                }
                let ruv = Vec3d::random_unit_vector(rng);
                proof {
                    lemma_fx_mul_s_bound(
                        ruv.x as int,
                        metal.fuss as int,
                        2 * FX_ONE as int,
                        FX_ONE as int,
                    );
                    lemma_fx_mul_s_bound(
                        ruv.y as int,
                        metal.fuss as int,
                        2 * FX_ONE as int,
                        FX_ONE as int,
                    );
                    lemma_fx_mul_s_bound(
                        ruv.z as int,
                        metal.fuss as int,
                        2 * FX_ONE as int,
                        FX_ONE as int,
                    );
                }
                let fuzzed = reflected.unit_vector().add(&ruv.scale(metal.fuss));
                let ray = Ray::new(hit_record.point, fuzzed, ray_in.time);
                let d = dot(&ray.direction, &hit_record.normal);
                if d <= 0 {
                    None
                } else {
                    Some((Some(ray), metal.albedo))
                }
            },
            Material::Dielectric(diel) => {
                if !ok {
                    return None;
                }
                if ray_in.direction.length_squared() == 0 {
                    return None;
                }
                let ri = if hit_record.front_face {
                    fx_div(FX_ONE, diel.refraction_index)
                } else {
                    diel.refraction_index
                };
                proof {
                    crate::fixed::lemma_fx_div_s_bound(
                        FX_ONE as int,
                        diel.refraction_index as int,
                        FX_ONE as int,
                    );
                }
                if ri <= 0 {
                    return None;
                }
                let unit_direction = ray_in.direction.unit_vector();
                let neg_unit = unit_direction.neg();
                let cos_theta = fx_max(fx_min(dot(&neg_unit, &hit_record.normal), FX_ONE), -FX_ONE);
                proof {
                    lemma_fx_mul_s_bound(
                        cos_theta as int,
                        cos_theta as int,
                        FX_ONE as int,
                        FX_ONE as int,
                    );
                    lemma_fx_square_nonneg(cos_theta as int);
                }
                let sin_theta = fx_sqrt(FX_ONE - fx_mul(cos_theta, cos_theta));
                proof {
                    assert(sin_theta <= FX_ONE) by (nonlinear_arith)
                        requires
                            sin_theta >= 0,
                            (sin_theta as int) * (sin_theta as int) <= (FX_ONE - fx_mul_s(
                                cos_theta as int,
                                cos_theta as int,
                            )) * (FX_ONE as int),
                            0 <= FX_ONE - fx_mul_s(cos_theta as int, cos_theta as int)
                                <= FX_ONE,
                            FX_ONE == 65536,
                    ;
                }
                let cannot_refract = fx_mul(ri, sin_theta) > FX_ONE;
                let draw = rng.next_unit();
                let direction = if cannot_refract || reflectance(cos_theta, ri) > draw {
                    reflect(&unit_direction, &hit_record.normal)
                } else {
                    refract(&unit_direction, &hit_record.normal, ri)
                };
                let attenuation = Vec3d::new(FX_ONE, FX_ONE, FX_ONE);
                let scattered = Ray::new(hit_record.point, direction, ray_in.time);
                Some((Some(scattered), attenuation))
            },
            Material::Isotropic(iso) => {
                if !ok {
                    return None;
                }
                let dir = Vec3d::random_unit_vector(rng);
                proof {
                    crate::object::texture::lemma_texture_wf_widens(
                        iso.texture,
                        FX_ONE as int,
                        crate::object::texture::TEXTURE_EMIT_LIM as int,
                    );
                }
                let attenuation = iso.texture.value(hit_record.u, hit_record.v, &hit_record.point);
                Some((Some(Ray::new(hit_record.point, dir, ray_in.time)), attenuation))
            },
        }
    }
}

/// What the material emits: lights answer their texture, all other
/// materials emit black.
pub open spec fn emitted_s(m: Material, u: int, v: int, p: Vec3d) -> Color {
    match m {
        Material::Light(li) => texture_value_s(li.texture, u, v, p),
        _ => Vec3d { x: 0 as Fx, y: 0 as Fx, z: 0 as Fx },
    }
}

/// The shape every scatter result has, per material: which materials
/// absorb, which always answer, what the attenuation is, and how the
/// scattered ray relates to the hit.
pub open spec fn scatter_shape_ok(
    m: Material,
    ray_in: Ray,
    point: Vec3d,
    normal: Vec3d,
    front_face: bool,
    u: int,
    v: int,
    r: Scattered,
) -> bool {
    match m {
        Material::Empty(_) => r is None,
        Material::Light(_) => r == Some(
            (None::<Ray>, Vec3d { x: FX_ONE, y: FX_ONE, z: FX_ONE }),
        ),
        Material::Lambertian(l) => if !scatter_geom_ok(ray_in, point, normal) {
            r is None
        } else {
            match r {
                Some((Some(ray), att)) => ray.origin == point && ray.time == ray_in.time && att
                    == texture_value_s(l.texture, u, v, point),
                _ => false,
            }
        },
        Material::Metal(me) => match r {
            Some((Some(ray), att)) => scatter_geom_ok(ray_in, point, normal) && ray.origin == point
                && ray.time == ray_in.time && att == me.albedo && dot_s(ray.direction, normal) > 0,
            Some(_) => false,
            None => true,
        },
        Material::Dielectric(diel) => match r {
            Some((Some(ray), att)) => {
                let len = crate::vec3d::length_s(ray_in.direction);
                let unit = Vec3d {
                    x: fx_div_s(ray_in.direction.x as int, len) as Fx,
                    y: fx_div_s(ray_in.direction.y as int, len) as Fx,
                    z: fx_div_s(ray_in.direction.z as int, len) as Fx,
                };
                let ri = if front_face {
                    fx_div_s(FX_ONE as int, diel.refraction_index as int)
                } else {
                    diel.refraction_index as int
                };
                &&& scatter_geom_ok(ray_in, point, normal)
                &&& ray.origin == point
                &&& ray.time == ray_in.time
                &&& att == (Vec3d { x: FX_ONE, y: FX_ONE, z: FX_ONE })
                &&& (ray.direction == reflect_s(unit, normal) || ray.direction == refract_s(
                    unit,
                    normal,
                    ri,
                ))
            },
            Some(_) => false,
            None => true,
        },
        Material::Isotropic(i) => if !scatter_geom_ok(ray_in, point, normal) {
            r is None
        } else {
            match r {
                Some((Some(ray), att)) => ray.origin == point && ray.time == ray_in.time && att
                    == texture_value_s(i.texture, u, v, point),
                _ => false,
            }
        },
    }
}

/// Whether the hit's geometry is inside the ranges scattering needs.
fn check_scatter_geom(ray_in: &Ray, point: &Vec3d, normal: &Vec3d) -> (r: bool)
    ensures
        r == scatter_geom_ok(*ray_in, *point, *normal),
{
    fx_in_range(point.x, FX_MUL_LIM - 1) && fx_in_range(point.y, FX_MUL_LIM - 1) && fx_in_range(
        point.z,
        FX_MUL_LIM - 1,
    ) && fx_in_range(normal.x, 2 * FX_ONE) && fx_in_range(normal.y, 2 * FX_ONE) && fx_in_range(
        normal.z,
        2 * FX_ONE,
    ) && fx_in_range(ray_in.direction.x, VEC_LIM) && fx_in_range(ray_in.direction.y, VEC_LIM)
        && fx_in_range(ray_in.direction.z, VEC_LIM)
}

} // verus!
