//! Color mapping: gamma correction and quantization to 8-bit channels.

use vstd::prelude::*;
use crate::fx::{
    Fx, SCALE, iabs, tdiv, fx_div_raw, fx_sqrt_raw, spec_clamp, lemma_fx_div_mag,
    lemma_tdiv_sign,
};
use crate::vec3::Vec3;
use crate::interval::Interval;

verus! {

/// `0.999` in fixed point: the clamp ceiling before 8-bit scaling.
pub const CLAMP_TOP: i64 = 65470;

/// Gamma-2 correction: the square root for positive input, zero otherwise.
pub open spec fn spec_gamma(x: int) -> int {
    if x > 0 {
        fx_sqrt_raw(x)
    } else {
        0
    }
}

/// One output channel: the accumulated value averaged over the samples,
/// gamma-corrected, clamped into `[0, 0.999]`, and scaled to 8 bits.
pub open spec fn spec_channel_byte(acc: int, samples: int) -> int {
    let mean = fx_div_raw(acc, samples * SCALE);
    tdiv(256 * spec_clamp(spec_gamma(mean), 0, CLAMP_TOP as int), SCALE as int)
}

/// Gamma-2 correction of a single channel.
pub fn linear_to_gamma(x: Fx) -> (r: Fx)
    ensures
        r.raw == spec_gamma(x.raw as int),
        r.raw >= 0,
{
    if x.raw > 0 {
        x.sqrt()
    } else {
        Fx::zero()
    }
}

/// One channel of the output triple: average, gamma, clamp and scale.
fn channel_byte(acc: Fx, samples_per_pixel: i32) -> (r: u8)
    requires
        0 < samples_per_pixel,
        acc.raw > i64::MIN,
    ensures
        r as int == spec_channel_byte(acc.raw as int, samples_per_pixel as int),
{
    proof {
        assert(iabs(acc.raw as int) * SCALE <= 0x7fff_ffff_ffff_ffff
            * ((samples_per_pixel as int) * (SCALE as int))) by (nonlinear_arith)
            requires
                iabs(acc.raw as int) <= 0x7fff_ffff_ffff_ffff,
                samples_per_pixel >= 1,
                SCALE == 65536,
        ;
        lemma_fx_div_mag(acc.raw as int, (samples_per_pixel as int) * (SCALE as int),
            0x7fff_ffff_ffff_ffff);
    }
    let scale = Fx::from_int(samples_per_pixel as i64);
    let mean = acc.over(scale);
    let g = linear_to_gamma(mean);
    let cl = Interval::clamp(g, Fx::zero(), Fx { raw: CLAMP_TOP });
    let num: u64 = 256u64 * (cl.raw as u64);
    let v: u64 = num / 65536u64;
    proof {
        assert(v < 256) by (nonlinear_arith)
            requires
                v == num / 65536u64,
                num < 16777216,
        ;
        assert(v as int == tdiv(256 * (cl.raw as int), SCALE as int));
    }
    v as u8
}

/// The three 8-bit channel values the output sink receives for one pixel:
/// the accumulated color averaged over the samples, gamma-corrected,
/// clamped into `[0, 0.999]` and scaled to `[0, 255]`.
pub fn write_color_bytes(pixel_color: Vec3, samples_per_pixel: i32) -> (r: (u8, u8, u8))
    requires
        0 < samples_per_pixel,
        pixel_color.x.raw > i64::MIN,
        pixel_color.y.raw > i64::MIN,
        pixel_color.z.raw > i64::MIN,
    ensures
        r.0 as int == spec_channel_byte(pixel_color.x.raw as int, samples_per_pixel as int),
        r.1 as int == spec_channel_byte(pixel_color.y.raw as int, samples_per_pixel as int),
        r.2 as int == spec_channel_byte(pixel_color.z.raw as int, samples_per_pixel as int),
{
    let r = channel_byte(pixel_color.x(), samples_per_pixel);
    let g = channel_byte(pixel_color.y(), samples_per_pixel);
    let b = channel_byte(pixel_color.z(), samples_per_pixel);
    (r, g, b)
}

} // verus!
