//! An axis-aligned box built from six parallelogram sides.

use crate::fixed::fx_mul_s;
use crate::fixed::Fx;
use crate::fixed::FX_ONE;
use crate::object::hit::hittable_wf;
use crate::object::hit::Hittable;
use crate::object::hit::HittableVec;
use crate::object::material::material_wf;
use crate::object::material::Dielectric;
use crate::object::material::Empty;
use crate::object::material::Isotropic;
use crate::object::material::Lambertian;
use crate::object::material::Light;
use crate::object::material::Material;
use crate::object::material::Metal;
use crate::object::quad::Quad;
use crate::object::texture::Checker;
use crate::object::texture::SolidColor;
use crate::object::texture::Texture;
use crate::vec3d::Point3d;
use crate::vec3d::Vec3d;
use vstd::prelude::*;

verus! {

/// A texture that holds no decoded raster, so it can be duplicated
/// field for field.
pub open spec fn texture_no_raster(t: Texture) -> bool
    decreases t,
{
    match t {
        Texture::SolidColor(_) => true,
        Texture::Checker(c) => texture_no_raster(*c.even) && texture_no_raster(*c.odd),
        Texture::ImageTexture(_) => false,
        Texture::PerlinTexture(_) => false,
    }
}

/// A material whose textures hold no decoded raster.
pub open spec fn material_no_raster(m: Material) -> bool {
    match m {
        Material::Empty(_) => true,
        Material::Light(li) => texture_no_raster(li.texture),
        Material::Lambertian(l) => texture_no_raster(l.texture),
        Material::Metal(_) => true,
        Material::Dielectric(_) => true,
        Material::Isotropic(i) => texture_no_raster(i.texture),
    }
}

/// A field-for-field copy of a raster-free texture.
fn dup_texture(t: &Texture) -> (r: Texture)
    requires
        texture_no_raster(*t),
    ensures
        r == *t,
    decreases *t,
{
    match t {
        Texture::SolidColor(s) => Texture::SolidColor(SolidColor { color: s.color }),
        Texture::Checker(c) => {
            let even = dup_texture(&c.even);
            let odd = dup_texture(&c.odd);
            Texture::Checker(
                Checker { inv_scale: c.inv_scale, even: Box::new(even), odd: Box::new(odd) },
            )
        },
        Texture::ImageTexture(_) => Texture::SolidColor(SolidColor { color: Vec3d::zero() }),
        Texture::PerlinTexture(_) => Texture::SolidColor(SolidColor { color: Vec3d::zero() }),
    }
}

/// A field-for-field copy of a raster-free material.
fn dup_material(m: &Material) -> (r: Material)
    requires
        material_no_raster(*m),
    ensures
        r == *m,
{
    match m {
        Material::Empty(_) => Material::Empty(Empty {  }),
        Material::Light(li) => Material::Light(Light { texture: dup_texture(&li.texture) }),
        Material::Lambertian(l) => Material::Lambertian(
            Lambertian { texture: dup_texture(&l.texture) },
        ),
        Material::Metal(me) => Material::Metal(Metal { albedo: me.albedo, fuss: me.fuss }),
        Material::Dielectric(d) => Material::Dielectric(
            Dielectric { refraction_index: d.refraction_index },
        ),
        Material::Isotropic(i) => Material::Isotropic(
            Isotropic { texture: dup_texture(&i.texture) },
        ),
    }
}

/// A cross product of two single-axis extents never vanishes when each
/// extent spans at least one whole unit; the sign bookkeeping covers
/// every orientation of the six sides.
proof fn lemma_axis_extent_cross(p: int, q: int)
    requires
        crate::fixed::FX_HALF <= p <= 4294967296,
        crate::fixed::FX_HALF <= q <= 4294967296,
    ensures
        fx_mul_s(p, q) >= 16384,
        fx_mul_s(p, q) <= 281474976710656,
        fx_mul_s(-p, q) == -fx_mul_s(p, q),
        fx_mul_s(p, -q) == -fx_mul_s(p, q),
        fx_mul_s(q, p) == fx_mul_s(p, q),
        fx_mul_s(q, -p) == -fx_mul_s(p, q),
        fx_mul_s(-q, p) == -fx_mul_s(p, q),
        fx_mul_s(fx_mul_s(p, q), fx_mul_s(p, q)) >= 1,
        fx_mul_s(-fx_mul_s(p, q), -fx_mul_s(p, q)) >= 1,
        fx_mul_s(0, p) == 0,
        fx_mul_s(p, 0) == 0,
        fx_mul_s(0, q) == 0,
        fx_mul_s(q, 0) == 0,
        fx_mul_s(0, 0) == 0,
        fx_mul_s(0, -p) == 0,
        fx_mul_s(-p, 0) == 0,
        fx_mul_s(0, -q) == 0,
        fx_mul_s(-q, 0) == 0,
{
    crate::fixed::lemma_tdivq_abs(p * q, FX_ONE as int);
    crate::fixed::lemma_tdivq_abs(0, FX_ONE as int);
    crate::fixed::lemma_fx_mul_s_bound(p, q, 4294967296, 4294967296);
    assert(p * q >= 16384 * FX_ONE) by (nonlinear_arith)
        requires
            p >= 32768,
            q >= 32768,
            FX_ONE == 65536,
    ;
    vstd::arithmetic::div_mod::lemma_div_is_ordered(
        16384 * FX_ONE as int,
        p * q,
        FX_ONE as int,
    );
    vstd::arithmetic::mul::lemma_mul_is_commutative(16384, FX_ONE as int);
    vstd::arithmetic::div_mod::lemma_div_multiples_vanish(16384, FX_ONE as int);
    assert(p * 0 == 0 && 0 * p == 0 && q * 0 == 0 && 0 * q == 0 && 0 * 0 == 0 && (-p) * 0 == 0
        && 0 * (-p) == 0 && (-q) * 0 == 0 && 0 * (-q) == 0) by (nonlinear_arith);
    assert((-p) * q == -(p * q)) by (nonlinear_arith);
    assert(p * (-q) == -(p * q)) by (nonlinear_arith);
    assert(q * p == p * q) by (nonlinear_arith);
    assert(q * (-p) == -(p * q)) by (nonlinear_arith);
    assert((-q) * p == -(p * q)) by (nonlinear_arith);
    let n = p * q;
    crate::fixed::lemma_tdivq_abs(-n, FX_ONE as int);
    let w = fx_mul_s(p, q);
    assert(fx_mul_s(-p, q) == -w);
    assert(fx_mul_s(p, -q) == -w);
    assert(fx_mul_s(q, -p) == -w);
    assert(fx_mul_s(-q, p) == -w);
    assert(w * w >= 268435456) by (nonlinear_arith)
        requires
            w >= 16384,
    ;
    assert((-w) * (-w) == w * w) by (nonlinear_arith);
    crate::fixed::lemma_tdivq_abs(w * w, FX_ONE as int);
    crate::fixed::lemma_tdivq_abs((-w) * (-w), FX_ONE as int);
    vstd::arithmetic::div_mod::lemma_fundamental_div_mod_converse(268435456, 65536, 4096, 0);
    vstd::arithmetic::div_mod::lemma_div_is_ordered(268435456, w * w, FX_ONE as int);
}

/// The lower corner of the box spanned by two points.
pub open spec fn box_min_s(a: Point3d, b: Point3d) -> Point3d {
    Vec3d {
        x: if a.x <= b.x { a.x } else { b.x },
        y: if a.y <= b.y { a.y } else { b.y },
        z: if a.z <= b.z { a.z } else { b.z },
    }
}

/// The upper corner of the box spanned by two points.
pub open spec fn box_max_s(a: Point3d, b: Point3d) -> Point3d {
    Vec3d {
        x: if a.x >= b.x { a.x } else { b.x },
        y: if a.y >= b.y { a.y } else { b.y },
        z: if a.z >= b.z { a.z } else { b.z },
    }
}

/// One side of the box: its corner and the two edges spanning the face.
pub open spec fn box_side_ok(h: Hittable, point: Point3d, u: Vec3d, v: Vec3d, m: Material)
    -> bool {
    &&& h is Quad
    &&& h->Quad_0.point == point
    &&& h->Quad_0.vec_u == u
    &&& h->Quad_0.vec_v == v
    &&& h->Quad_0.material == m
}

/// The six sides of the axis-aligned box between two opposite corners,
/// all carrying copies of one material: front, right, back, left, top,
/// bottom, in that order.  Each extent must span at least half a unit:
/// a conservative constant, chosen round rather than minimal, under
/// which every side's squared edge length provably clears the
/// degenerate-plane guard of the quad constructor at fixed-point
/// resolution.  The aggregate box is the corner box widened by the
/// planar padding.
#[verifier::rlimit(100)]
pub fn bbox(a: Point3d, b: Point3d, material: Material) -> (r: HittableVec)
    requires
        crate::vec3d::bounded_s(a, 2147483648),
        crate::vec3d::bounded_s(b, 2147483648),
        crate::fixed::abs_i(a.x as int - b.x) >= crate::fixed::FX_HALF,
        crate::fixed::abs_i(a.y as int - b.y) >= crate::fixed::FX_HALF,
        crate::fixed::abs_i(a.z as int - b.z) >= crate::fixed::FX_HALF,
        material_wf(material),
        material_no_raster(material),
    ensures
        r.objects@.len() == 6,
        hittable_wf(Hittable::List(r)),
        ({
            let mn = box_min_s(a, b);
            let mx = box_max_s(a, b);
            let dx = Vec3d { x: (mx.x - mn.x) as Fx, y: 0 as Fx, z: 0 as Fx };
            let dy = Vec3d { x: 0 as Fx, y: (mx.y - mn.y) as Fx, z: 0 as Fx };
            let dz = Vec3d { x: 0 as Fx, y: 0 as Fx, z: (mx.z - mn.z) as Fx };
            let ndx = Vec3d { x: (mn.x - mx.x) as Fx, y: 0 as Fx, z: 0 as Fx };
            let ndz = Vec3d { x: 0 as Fx, y: 0 as Fx, z: (mn.z - mx.z) as Fx };
            &&& box_side_ok(
                r.objects@[0],
                Vec3d { x: mn.x, y: mn.y, z: mx.z },
                dx,
                dy,
                material,
            )
            &&& box_side_ok(
                r.objects@[1],
                Vec3d { x: mx.x, y: mn.y, z: mx.z },
                ndz,
                dy,
                material,
            )
            &&& box_side_ok(
                r.objects@[2],
                Vec3d { x: mx.x, y: mn.y, z: mn.z },
                ndx,
                dy,
                material,
            )
            &&& box_side_ok(
                r.objects@[3],
                Vec3d { x: mn.x, y: mn.y, z: mn.z },
                dz,
                dy,
                material,
            )
            &&& box_side_ok(
                r.objects@[4],
                Vec3d { x: mn.x, y: mx.y, z: mx.z },
                dx,
                ndz,
                material,
            )
            &&& box_side_ok(
                r.objects@[5],
                Vec3d { x: mn.x, y: mn.y, z: mn.z },
                dx,
                dz,
                material,
            )
            &&& r.bbox.interval_x.min == mn.x - 2 && r.bbox.interval_x.max == mx.x + 2
            &&& r.bbox.interval_y.min == mn.y - 2 && r.bbox.interval_y.max == mx.y + 2
            &&& r.bbox.interval_z.min == mn.z - 2 && r.bbox.interval_z.max == mx.z + 2
        }),
{
    let mut sides = HittableVec::new();
    let min = Vec3d::new(
        if a.x <= b.x {
            a.x
        } else {
            b.x
        },
        if a.y <= b.y {
            a.y
        } else {
            b.y
        },
        if a.z <= b.z {
            a.z
        } else {
            b.z
        },
    );
    let max = Vec3d::new(
        if a.x >= b.x {
            a.x
        } else {
            b.x
        },
        if a.y >= b.y {
            a.y
        } else {
            b.y
        },
        if a.z >= b.z {
            a.z
        } else {
            b.z
        },
    );
    let dx = Vec3d::new(max.x - min.x, 0, 0);
    let dy = Vec3d::new(0, max.y - min.y, 0);
    let dz = Vec3d::new(0, 0, max.z - min.z);
    proof {
        lemma_axis_extent_cross(dx.x as int, dy.y as int);
        lemma_axis_extent_cross(dz.z as int, dy.y as int);
        lemma_axis_extent_cross(dx.x as int, dz.z as int);
        crate::fixed::lemma_fx_square_nonneg(fx_mul_s(dx.x as int, dy.y as int));
        crate::fixed::lemma_fx_square_nonneg(fx_mul_s(dz.z as int, dy.y as int));
        crate::fixed::lemma_fx_square_nonneg(fx_mul_s(dx.x as int, dz.z as int));
    }
    let q_front = Quad::new(
        Vec3d::new(min.x, min.y, max.z),
        dx,
        dy,
        dup_material(&material),
    );
    let q_right = Quad::new(
        Vec3d::new(max.x, min.y, max.z),
        dz.neg(),
        dy,
        dup_material(&material),
    );
    let q_back = Quad::new(
        Vec3d::new(max.x, min.y, min.z),
        dx.neg(),
        dy,
        dup_material(&material),
    );
    let q_left = Quad::new(Vec3d::new(min.x, min.y, min.z), dz, dy, dup_material(&material));
    let q_top = Quad::new(
        Vec3d::new(min.x, max.y, max.z),
        dx,
        dz.neg(),
        dup_material(&material),
    );
    let q_bottom = Quad::new(Vec3d::new(min.x, min.y, min.z), dx, dz, material);
    sides.add(Hittable::Quad(q_front));
    sides.add(Hittable::Quad(q_right));
    sides.add(Hittable::Quad(q_back));
    sides.add(Hittable::Quad(q_left));
    sides.add(Hittable::Quad(q_top));
    sides.add(Hittable::Quad(q_bottom));
    proof {
        assert(sides.objects@[0] == Hittable::Quad(q_front));
        assert(sides.objects@[1] == Hittable::Quad(q_right));
        assert(sides.objects@[2] == Hittable::Quad(q_back));
        assert(sides.objects@[3] == Hittable::Quad(q_left));
        assert(sides.objects@[4] == Hittable::Quad(q_top));
        assert(sides.objects@[5] == Hittable::Quad(q_bottom));
    }
    sides
}

} // verus!
