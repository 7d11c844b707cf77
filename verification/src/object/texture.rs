//! Surface textures: pure, stateless color lookups.

use crate::fixed::abs_i;
use crate::fixed::fx_div;
use crate::fixed::fx_floor;
use crate::fixed::fx_mul;
use crate::fixed::fx_mul_s;
use crate::fixed::Fx;
use crate::fixed::FX_DIV_LIM;
use crate::fixed::FX_MUL_LIM;
use crate::fixed::FX_ONE;
use crate::ray::Interval;
use crate::vec3d::bounded_s;
use crate::vec3d::Color;
use crate::vec3d::Vec3d;
use vstd::prelude::*;

verus! {

/// A texture: a color for every surface coordinate and point.
pub enum Texture {
    SolidColor(SolidColor),
    Checker(Checker),
    ImageTexture(ImageTexture),
    PerlinTexture(crate::object::perlin::PerlinTexture),
}

/// The same color everywhere.
pub struct SolidColor {
    pub color: Color,
}

impl SolidColor {
    /// A solid texture of the given color.
    pub fn new(color: Vec3d) -> (r: SolidColor)
        ensures
            r.color == color,
    {
        SolidColor { color }
    }
}

/// Two sub-textures picked by the parity of the floored, scaled point.
pub struct Checker {
    pub inv_scale: Fx,
    pub even: Box<Texture>,
    pub odd: Box<Texture>,
}

impl Checker {
    /// A checker over two sub-textures, with tiles of the given scale.
    pub fn new(even: Box<Texture>, odd: Box<Texture>, scale: Fx) -> (r: Checker)
        requires
            scale != 0,
            -FX_DIV_LIM < scale < FX_DIV_LIM,
        ensures
            r.inv_scale == crate::fixed::fx_div_s(FX_ONE as int, scale as int),
            r.even == even,
            r.odd == odd,
    {
        Checker { inv_scale: fx_div(FX_ONE, scale), even, odd }
    }

    /// A checker over two solid colors.
    pub fn from_color(color1: Vec3d, color2: Vec3d, scale: Fx) -> (r: Checker)
        requires
            scale != 0,
            -FX_DIV_LIM < scale < FX_DIV_LIM,
        ensures
            r.inv_scale == crate::fixed::fx_div_s(FX_ONE as int, scale as int),
            r.even == Box::new(Texture::SolidColor(SolidColor { color: color1 })),
            r.odd == Box::new(Texture::SolidColor(SolidColor { color: color2 })),
    {
        let even = Box::new(Texture::SolidColor(SolidColor::new(color1)));
        let odd = Box::new(Texture::SolidColor(SolidColor::new(color2)));
        Checker::new(even, odd, scale)
    }
}

/// A nearest-texel lookup into a decoded raster.  The raster arrives
/// already decoded; reading and decoding image files happens outside the
/// library.
pub struct ImageTexture {
    pub width: usize,
    pub height: usize,
    pub pixels: Vec<Color>,
}

impl ImageTexture {
    /// An image texture over a row-major raster of colors.
    pub fn new(width: usize, height: usize, pixels: Vec<Color>) -> (r: ImageTexture)
        requires
            pixels.len() == width * height,
            width < 65536,
            height < 65536,
        ensures
            r.width == width,
            r.height == height,
            r.pixels == pixels,
    {
        ImageTexture { width, height, pixels }
    }
}

/// The brightest value an emissive texture may carry (16 in
/// fixed-point form): light sources emit more than surfaces reflect.
pub const TEXTURE_EMIT_LIM: i128 = 1048576;

/// A texture tree is well formed up to a color limit: scales stay in
/// multiplication range, rasters match their dimensions, and all colors
/// stay within the limit.
pub open spec fn texture_wf_lim(t: Texture, lim: int) -> bool
    decreases t,
{
    match t {
        Texture::SolidColor(s) => bounded_s(s.color, lim),
        Texture::Checker(c) => -FX_MUL_LIM < c.inv_scale < FX_MUL_LIM && texture_wf_lim(
            *c.even,
            lim,
        ) && texture_wf_lim(*c.odd, lim),
        Texture::ImageTexture(im) => im.pixels.len() == im.width * im.height && im.width < 65536
            && im.height < 65536 && forall|i: int|
            0 <= i < im.pixels.len() ==> bounded_s(#[trigger] im.pixels[i], lim),
        Texture::PerlinTexture(pt) => crate::object::perlin::perlin_wf(pt),
    }
}

/// A texture for surface reflectance: colors within one unit.
pub open spec fn texture_wf(t: Texture) -> bool {
    texture_wf_lim(t, FX_ONE as int)
}

/// A well-formed texture under a tight limit is well formed under any
/// looser one.
pub proof fn lemma_texture_wf_widens(t: Texture, lim1: int, lim2: int)
    requires
        texture_wf_lim(t, lim1),
        lim1 <= lim2,
    ensures
        texture_wf_lim(t, lim2),
    decreases t,
{
    match t {
        Texture::Checker(c) => {
            lemma_texture_wf_widens(*c.even, lim1, lim2);
            lemma_texture_wf_widens(*c.odd, lim1, lim2);
        },
        _ => {},
    }
}

/// The marbled color of the noise texture at a point: a gray level from
/// the sine of the scaled depth plus the turbulence, clamped into the
/// unit range.  Points outside the noise's numeric range answer black.
pub open spec fn perlin_value_s(pt: crate::object::perlin::PerlinTexture, p: Vec3d) -> Color {
    if !bounded_s(p, 8589934592) {
        Vec3d { x: 0 as Fx, y: 0 as Fx, z: 0 as Fx }
    } else {
        let turb = crate::object::perlin::turbulence_s(pt, p, 7);
        let arg = fx_mul_s(pt.scale as int, p.z as int) + 10 * turb;
        let sv = crate::fxmath::fx_sin_s(arg);
        let v0 = fx_mul_s(crate::fixed::FX_HALF as int, FX_ONE + sv);
        let v = if v0 < 0 {
            0
        } else if v0 > FX_ONE {
            FX_ONE as int
        } else {
            v0
        };
        Vec3d { x: v as Fx, y: v as Fx, z: v as Fx }
    }
}

/// Whether the floored, scaled point has even coordinate-sum parity.
pub open spec fn checker_even_s(inv_scale: int, p: Vec3d) -> bool {
    let xi = fx_mul_s(p.x as int, inv_scale) / (FX_ONE as int);
    let yi = fx_mul_s(p.y as int, inv_scale) / (FX_ONE as int);
    let zi = fx_mul_s(p.z as int, inv_scale) / (FX_ONE as int);
    (xi + yi + zi) % 2 == 0
}

/// The texel indices of an image lookup: `u` clamped to `[0, 1]` and
/// scaled by the width, `v` flipped and scaled by the height, each held
/// below the last texel.
pub open spec fn image_texel_s(im: ImageTexture, u: int, v: int) -> (int, int) {
    let uc = if u < 0 {
        0
    } else if u > FX_ONE {
        FX_ONE as int
    } else {
        u
    };
    let vc = if v < 0 {
        0
    } else if v > FX_ONE {
        FX_ONE as int
    } else {
        v
    };
    let i0 = fx_mul_s(uc, im.width * FX_ONE) / (FX_ONE as int);
    let j0 = fx_mul_s(FX_ONE - vc, im.height * FX_ONE) / (FX_ONE as int);
    let i = if i0 >= im.width {
        im.width - 1
    } else {
        i0
    };
    let j = if j0 >= im.height {
        im.height - 1
    } else {
        j0
    };
    (i, j)
}

/// The color a texture yields at surface coordinates `(u, v)` and point
/// `p`.
pub open spec fn texture_value_s(t: Texture, u: int, v: int, p: Vec3d) -> Color
    decreases t,
{
    match t {
        Texture::SolidColor(s) => s.color,
        Texture::Checker(c) => if checker_even_s(c.inv_scale as int, p) {
            texture_value_s(*c.even, u, v, p)
        } else {
            texture_value_s(*c.odd, u, v, p)
        },
        Texture::ImageTexture(im) => if im.width == 0 || im.height == 0 {
            Vec3d { x: 0 as Fx, y: FX_ONE, z: FX_ONE }
        } else {
            let (i, j) = image_texel_s(im, u, v);
            im.pixels[j * im.width + i]
        },
        Texture::PerlinTexture(pt) => perlin_value_s(pt, p),
    }
}

impl Texture {
    /// The color of the texture at the given coordinates and point.
    pub fn value(&self, u: Fx, v: Fx, p: &Vec3d) -> (r: Color)
        requires
            texture_wf_lim(*self, TEXTURE_EMIT_LIM as int),
            bounded_s(*p, FX_MUL_LIM as int - 1),
        ensures
            r == texture_value_s(*self, u as int, v as int, *p),
            bounded_s(r, TEXTURE_EMIT_LIM as int),
            texture_wf(*self) ==> bounded_s(r, FX_ONE as int),
        decreases *self,
    {
        match self {
            Texture::SolidColor(s) => s.color,
            Texture::Checker(c) => {
                let p_val = p.scale(c.inv_scale);
                let xi = fx_floor(p_val.x);
                let yi = fx_floor(p_val.y);
                let zi = fx_floor(p_val.z);
                let sum = xi + yi + zi;
                let even: bool = if sum >= 0 {
                    ((sum as u128) % 2) == 0
                } else {
                    (((-sum) as u128) % 2) == 0
                };
                proof {
                    lemma_parity_abs(sum as int);
                }
                if even {
                    c.even.value(u, v, p)
                } else {
                    c.odd.value(u, v, p)
                }
            },
            Texture::ImageTexture(im) => {
                if im.width == 0 || im.height == 0 {
                    return Vec3d { x: 0, y: FX_ONE, z: FX_ONE };
                }
                let unit = Interval { min: 0, max: FX_ONE };
                let uc = unit.clamp(u);
                let vc = FX_ONE - unit.clamp(v);
                let wf: Fx = (im.width as i128) * 65536;
                let hf: Fx = (im.height as i128) * 65536;
                let i0 = fx_floor(fx_mul(uc, wf));
                let j0 = fx_floor(fx_mul(vc, hf));
                proof {
                    lemma_texel_nonneg(uc as int, im.width as int);
                    lemma_texel_nonneg(vc as int, im.height as int);
                }
                let i: usize = if i0 >= im.width as i128 {
                    im.width - 1
                } else {
                    i0 as usize
                };
                let j: usize = if j0 >= im.height as i128 {
                    im.height - 1
                } else {
                    j0 as usize
                };
                proof {
                    vstd::arithmetic::mul::lemma_mul_inequality(
                        j as int,
                        im.height as int - 1,
                        im.width as int,
                    );
                    vstd::arithmetic::mul::lemma_mul_is_commutative(j as int, im.width as int);
                    vstd::arithmetic::mul::lemma_mul_is_commutative(
                        im.height as int - 1,
                        im.width as int,
                    );
                    vstd::arithmetic::mul::lemma_mul_is_distributive_sub_other_way(
                        im.width as int,
                        im.height as int,
                        1,
                    );
                    vstd::arithmetic::mul::lemma_mul_is_commutative(
                        im.height as int,
                        im.width as int,
                    );
                    assert((j as int) * (im.width as int) + (i as int) < (im.width as int) * (
                    im.height as int));
                }
                im.pixels[j * im.width + i]
            },
            Texture::PerlinTexture(pt) => {
                if !(crate::fixed::fx_in_range(p.x, 8589934592) && crate::fixed::fx_in_range(
                    p.y,
                    8589934592,
                ) && crate::fixed::fx_in_range(p.z, 8589934592)) {
                    return Vec3d::zero();
                }
                let turb = pt.turbulence(p, 7);
                proof {
                    crate::fixed::lemma_fx_mul_s_bound(
                        pt.scale as int,
                        p.z as int,
                        1099511627776,
                        8589934592,
                    );
                }
                let arg = fx_mul(pt.scale, p.z) + 10 * turb;
                let sv = crate::fxmath::fx_sin(arg);
                let v0 = fx_mul(crate::fixed::FX_HALF, FX_ONE + sv);
                let v = if v0 < 0 {
                    0
                } else if v0 > FX_ONE {
                    FX_ONE
                } else {
                    v0
                };
                Vec3d::new(v, v, v)
            },
        }
    }
}

/// Parity can be read off the magnitude.
proof fn lemma_parity_abs(s: int)
    ensures
        (abs_i(s) % 2 == 0) == (s % 2 == 0),
{
    if s < 0 {
        vstd::arithmetic::div_mod::lemma_fundamental_div_mod(s, 2);
        vstd::arithmetic::div_mod::lemma_fundamental_div_mod(-s, 2);
        vstd::arithmetic::div_mod::lemma_mod_bound(s, 2);
        vstd::arithmetic::div_mod::lemma_mod_bound(-s, 2);
        let q = s / 2;
        let r = s % 2;
        if r == 0 {
            vstd::arithmetic::div_mod::lemma_fundamental_div_mod_converse(-s, 2, -q, 0);
        } else {
            assert((-q - 1) * 2 + (2 - r) == -s);
            vstd::arithmetic::div_mod::lemma_fundamental_div_mod_converse(-s, 2, -q - 1, 2 - r);
        }
    }
}

/// A clamped coordinate scaled by a small dimension lands at or above
/// zero and within the scaled range.
proof fn lemma_texel_nonneg(c: int, dim: int)
    requires
        0 <= c <= FX_ONE,
        0 <= dim < 65536,
    ensures
        0 <= fx_mul_s(c, dim * FX_ONE) / (FX_ONE as int) <= dim,
{
    vstd::arithmetic::mul::lemma_mul_nonnegative(c, dim * FX_ONE);
    vstd::arithmetic::mul::lemma_mul_nonnegative(dim, FX_ONE as int);
    crate::fixed::lemma_tdivq_abs(c * (dim * FX_ONE), FX_ONE as int);
    vstd::arithmetic::div_mod::lemma_div_pos_is_pos(c * (dim * FX_ONE), FX_ONE as int);
    vstd::arithmetic::div_mod::lemma_div_pos_is_pos(
        fx_mul_s(c, dim * FX_ONE),
        FX_ONE as int,
    );
    assert(c * (dim * FX_ONE) <= FX_ONE * (dim * FX_ONE)) by (nonlinear_arith)
        requires
            0 <= c <= FX_ONE,
            0 <= dim * FX_ONE,
    ;
    vstd::arithmetic::div_mod::lemma_div_is_ordered(
        c * (dim * FX_ONE),
        FX_ONE as int * (dim * FX_ONE),
        FX_ONE as int,
    );
    vstd::arithmetic::mul::lemma_mul_is_commutative(FX_ONE as int, dim * FX_ONE);
    vstd::arithmetic::div_mod::lemma_div_multiples_vanish(dim * FX_ONE, FX_ONE as int);
    vstd::arithmetic::div_mod::lemma_div_is_ordered(
        fx_mul_s(c, dim * FX_ONE) * FX_ONE,
        dim * FX_ONE * FX_ONE,
        FX_ONE as int,
    );
    vstd::arithmetic::div_mod::lemma_div_multiples_vanish(dim, FX_ONE as int);
    vstd::arithmetic::mul::lemma_mul_is_commutative(dim, FX_ONE as int);
    assert(fx_mul_s(c, dim * FX_ONE) <= dim * FX_ONE);
    vstd::arithmetic::div_mod::lemma_div_is_ordered(
        fx_mul_s(c, dim * FX_ONE),
        dim * FX_ONE,
        FX_ONE as int,
    );
}

} // verus!
