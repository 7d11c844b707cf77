//! Conversion of linear-light colors to 8-bit gamma-corrected bytes.
//!
//! Writing the bytes into an image file happens outside the library;
//! the library's contract ends at one byte triple per pixel, row-major.

use crate::fixed::fx_sqrt;
use crate::fixed::fx_sqrt_s;
use crate::fixed::Fx;
use crate::fixed::FX_DIV_LIM;
use crate::vec3d::bounded_s;
use crate::vec3d::Color;
use vstd::prelude::*;

verus! {

/// The largest representable channel value below one (0.999 in
/// fixed-point form), the clamp ceiling before byte scaling.
pub const CHANNEL_CEIL: i128 = 65470;

/// Gamma correction of one linear channel: the square root, with
/// values at or below zero mapped to zero.
pub open spec fn linear_to_gamma_s(v: int) -> int {
    if v > 0 {
        fx_sqrt_s(v)
    } else {
        0
    }
}

/// One channel as a byte: gamma-corrected, clamped to `[0, 0.999]`,
/// and scaled to the 8-bit range.
pub open spec fn channel_byte_s(v: int) -> int {
    let g = linear_to_gamma_s(v);
    let c = if g < 0 {
        0
    } else if g > CHANNEL_CEIL {
        CHANNEL_CEIL as int
    } else {
        g
    };
    c / 256
}

/// Gamma correction of one linear channel.
pub fn linear_to_gamma(value: Fx) -> (r: Fx)
    requires
        value < FX_DIV_LIM,
    ensures
        r == linear_to_gamma_s(value as int),
        r >= 0,
{
    if value > 0 {
        fx_sqrt(value)
    } else {
        0
    }
}

/// One channel as a byte.
fn channel_byte(value: Fx) -> (r: u8)
    requires
        value < FX_DIV_LIM,
    ensures
        r == channel_byte_s(value as int),
{
    let g = linear_to_gamma(value);
    let c: Fx = if g > CHANNEL_CEIL {
        CHANNEL_CEIL
    } else {
        g
    };
    proof {
        vstd::arithmetic::div_mod::lemma_div_is_ordered(c as int, CHANNEL_CEIL as int, 256);
        vstd::arithmetic::div_mod::lemma_div_pos_is_pos(c as int, 256);
    }
    ((c as u128) / 256) as u8
}

/// The row-major byte image of a buffer of linear-light colors: three
/// gamma-corrected, clamped, scaled bytes per pixel.
pub fn image_rgb8(pixels: &Vec<Color>) -> (r: Vec<u8>)
    requires
        forall|k: int| 0 <= k < pixels.len() ==> bounded_s(#[trigger] pixels@[k], FX_DIV_LIM as int - 1),
    ensures
        r.len() == 3 * pixels.len(),
        forall|k: int|
            0 <= k < pixels.len() ==> #[trigger] r@[3 * k] == channel_byte_s(pixels@[k].x as int)
                && r@[3 * k + 1] == channel_byte_s(pixels@[k].y as int) && r@[3 * k + 2]
                == channel_byte_s(pixels@[k].z as int),
{
    let mut out: Vec<u8> = Vec::new();
    let n = pixels.len();
    let mut i: usize = 0;
    while i < n
        invariant
            0 <= i <= n,
            n == pixels.len(),
            forall|k: int|
                0 <= k < pixels.len() ==> bounded_s(#[trigger] pixels@[k], FX_DIV_LIM as int - 1),
            out.len() == 3 * i,
            forall|k: int|
                0 <= k < i ==> #[trigger] out@[3 * k] == channel_byte_s(pixels@[k].x as int)
                    && out@[3 * k + 1] == channel_byte_s(pixels@[k].y as int) && out@[3 * k + 2]
                    == channel_byte_s(pixels@[k].z as int),
        decreases n - i,
    {
        let p = pixels[i];
        out.push(channel_byte(p.x));
        out.push(channel_byte(p.y));
        out.push(channel_byte(p.z));
        i = i + 1;
    }
    out
}

} // verus!
