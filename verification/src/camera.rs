//! The camera and sampler: viewport derivation, per-pixel jittered rays,
//! recursive path evaluation, and the packed preview framebuffer.

use vstd::prelude::*;
use crate::fx::{
    Fx, SCALE, iabs, tdiv, fx_mul_raw, fx_div_raw, fx_sqrt_raw, spec_clamp,
    lemma_fx_mul_mag, lemma_fx_div_mag, lemma_fx_mul_one, lemma_fx_mul_le,
    lemma_tdiv_mag, lemma_tdiv_sign, lemma_sqrt_floor,
};
use crate::vec3::{
    Vec3, Point3, spec_add, spec_sub, spec_scale, spec_div_scalar, spec_neg, spec_cross,
    spec_comp_mul, spec_len2, spec_unit, spec_color01, lemma_cross_mags, lemma_dot_mags,
};
use crate::ray::Ray;
use crate::interval::Interval;
use crate::hittable::HitRecord;
use crate::hittable_list::{HittableList, spec_list_hit};
use crate::material::{Material, spec_scatters, spec_attenuation, spec_scatter_dir_ok};
use crate::rng::{Rng, random_double};
use crate::color::linear_to_gamma;

verus! {

/// One half in fixed point.
pub const HALF: i64 = 32768;

/// Tangent of half the default 40-degree vertical field of view, in fixed
/// point.
pub const DEFAULT_TAN_HALF_VFOV: i64 = 23855;

/// The sky color `(0.5, 0.7, 1.0)` at the top of the background gradient.
pub const SKY_R: i64 = 32768;

/// Green channel of the sky color, `0.7` in fixed point.
pub const SKY_G: i64 = 45875;

/// Blue channel of the sky color.
pub const SKY_B: i64 = 65536;

/// The near-plane epsilon `0.001` in fixed point, suppressing
/// self-intersection at a hit point.
pub const T_EPS: i64 = 65;

/// The tracing horizon: hits beyond this parameter fall to the background.
pub const T_FAR: i64 = 0x400_0000;

/// Black.
pub open spec fn spec_black() -> Vec3 {
    Vec3 { x: Fx { raw: 0 }, y: Fx { raw: 0 }, z: Fx { raw: 0 } }
}

/// White.
pub open spec fn spec_white() -> Vec3 {
    Vec3 { x: Fx { raw: SCALE }, y: Fx { raw: SCALE }, z: Fx { raw: SCALE } }
}

/// The sky color.
pub open spec fn spec_sky() -> Vec3 {
    Vec3 { x: Fx { raw: SKY_R }, y: Fx { raw: SKY_G }, z: Fx { raw: SKY_B } }
}

/// The interval every path segment is traced in.
pub open spec fn spec_trace_interval() -> Interval {
    Interval { min: Fx { raw: T_EPS }, max: Fx { raw: T_FAR } }
}

/// The background gradient for a unit direction: linear interpolation from
/// white to the sky color by `a = (y + 1) / 2`, with `a` clamped into
/// `[0, 1]` against fixed-point rounding slop.
pub open spec fn spec_background(u: Vec3) -> Vec3 {
    let a = Fx { raw: spec_clamp(fx_mul_raw(HALF as int, u.y.raw + SCALE), 0, SCALE as int) as i64 };
    let oma = Fx { raw: (SCALE - a.raw) as i64 };
    spec_add(spec_scale(spec_white(), oma), spec_scale(spec_sky(), a))
}

/// Attenuation by the unit color is the identity: a bounce off a material
/// whose albedo is `(1, 1, 1)` hands the recursive color through exactly,
/// so such a surface loses no energy to the composition itself.
pub proof fn lemma_unit_attenuation(c: Vec3)
    requires
        spec_color01(c),
    ensures
        crate::vec3::spec_comp_mul(c, spec_white()) == c,
{
    lemma_fx_mul_one(c.x.raw as int);
    lemma_fx_mul_one(c.y.raw as int);
    lemma_fx_mul_one(c.z.raw as int);
}

/// At the gradient's extremes the background is exact: a unit direction
/// straight up yields the sky color, straight down yields white; in between
/// the interpolation parameter is clamped into the unit interval.
pub proof fn lemma_background_extremes(up: Vec3, down: Vec3)
    requires
        up.y.raw == SCALE,
        down.y.raw == -SCALE,
    ensures
        spec_background(up) == (Vec3 {
            x: Fx { raw: spec_sky().x.raw },
            y: Fx { raw: spec_sky().y.raw },
            z: Fx { raw: spec_sky().z.raw },
        }),
        spec_background(down) == (Vec3 {
            x: Fx { raw: SCALE },
            y: Fx { raw: SCALE },
            z: Fx { raw: SCALE },
        }),
{
    lemma_fx_mul_one(SKY_R as int);
    lemma_fx_mul_one(SKY_G as int);
    lemma_fx_mul_one(SKY_B as int);
    lemma_fx_mul_one(SCALE as int);
    lemma_fx_mul_one(0);
    assert(fx_mul_raw(HALF as int, 2 * (SCALE as int)) == SCALE) by {
        assert((32768 * 131072) / 65536 == 65536) by (nonlinear_arith);
    }
    assert(fx_mul_raw(HALF as int, 0) == 0) by {
        crate::fx::lemma_tdiv_mag(0, SCALE as int, 0);
    }
}

/// Everywhere on the gradient the channels stay inside the band between
/// white and the sky color: red in `[1/2, 1]`, green in `[0.7, 1]`, and
/// blue exactly one, whatever the direction.
pub proof fn lemma_background_channel_range(u: Vec3)
    ensures
        SKY_R <= spec_background(u).x.raw <= SCALE,
        SKY_G <= spec_background(u).y.raw <= SCALE,
        spec_background(u).z.raw == SCALE,
{
    let a = spec_clamp(fx_mul_raw(HALF as int, u.y.raw + SCALE), 0, SCALE as int);
    let sc = SCALE as int;
    assert(0 <= a <= sc);
    lemma_fx_mul_one(sc - a);
    lemma_fx_mul_one(a);
    crate::fx::lemma_fx_mul_le(SKY_R as int, a);
    crate::fx::lemma_fx_mul_le(SKY_G as int, a);
    // Red: (1 - a) + floor(a / 2) never falls below one half.
    let qr = fx_mul_raw(SKY_R as int, a);
    assert(qr == tdiv(32768 * a, sc));
    assert(tdiv(32768 * a, sc) == (32768 * a) / sc);
    vstd::arithmetic::div_mod::lemma_fundamental_div_mod(32768 * a, sc);
    let rr = (32768 * a) % sc;
    if a <= 65534 {
        assert(sc - a + qr >= SKY_R) by (nonlinear_arith)
            requires
                sc == 65536,
                sc * qr + rr == 32768 * a,
                0 <= rr < sc,
                0 <= a <= 65534,
        ;
    } else {
        assert(a == 65535 || a == 65536);
        assert(tdiv(32768 * (65535 as int), 65536) == 32767);
        assert(tdiv(32768 * (65536 as int), 65536) == 32768);
    }
    // Green: (1 - a) + floor(0.7 a) never falls below 0.7.
    let qg = fx_mul_raw(SKY_G as int, a);
    assert(qg == tdiv(45875 * a, sc));
    assert(tdiv(45875 * a, sc) == (45875 * a) / sc);
    vstd::arithmetic::div_mod::lemma_fundamental_div_mod(45875 * a, sc);
    let rg = (45875 * a) % sc;
    if a <= 65532 {
        assert(sc - a + qg >= SKY_G) by (nonlinear_arith)
            requires
                sc == 65536,
                sc * qg + rg == 45875 * a,
                0 <= rg < sc,
                0 <= a <= 65532,
        ;
    } else {
        assert(a == 65533 || a == 65534 || a == 65535 || a == 65536);
        assert(tdiv(45875 * (65533 as int), 65536) == 45872);
        assert(tdiv(45875 * (65534 as int), 65536) == 45873);
        assert(tdiv(45875 * (65535 as int), 65536) == 45874);
        assert(tdiv(45875 * (65536 as int), 65536) == 45875);
    }
}

/// The background gradient, evaluated on a unit direction.
pub fn background_color(unit_direction: Vec3) -> (r: Vec3)
    requires
        unit_direction.bounded(0x0200_0000),
    ensures
        r == spec_background(unit_direction),
        spec_color01(r),
{
    let ys = unit_direction.y().plus(Fx::one());
    proof {
        lemma_fx_mul_mag(HALF as int, ys.raw as int, 0x8000, 0x0400_0000, 0x0200_0000);
    }
    let a0 = Fx::new(HALF).times(ys);
    let a = Interval::clamp(a0, Fx::zero(), Fx::one());
    let oma = Fx::one().minus(a);
    proof {
        lemma_fx_mul_one(oma.raw as int);
        lemma_fx_mul_one(a.raw as int);
        lemma_fx_mul_le(SKY_R as int, a.raw as int);
        lemma_fx_mul_le(SKY_G as int, a.raw as int);
        lemma_fx_mul_le(SKY_B as int, a.raw as int);
        lemma_fx_mul_le(SCALE as int, oma.raw as int);
    }
    let white = Vec3::new(Fx::one(), Fx::one(), Fx::one());
    let sky = Vec3::new(Fx::new(SKY_R), Fx::new(SKY_G), Fx::new(SKY_B));
    white.scale(oma).plus(sky.scale(a))
}

/// The camera: configuration, the viewport quantities derived from it, and
/// the packed preview framebuffer written in scan order.
#[derive(Clone, Debug)]
pub struct Camera {
    pub aspect_ratio: Fx,
    pub image_width: i32,
    pub samples_per_pixel: i32,
    pub max_depth: i32,
    pub image_height: i32,
    pub center: Point3,
    /// The reciprocal of the sample count, kept for the configuration
    /// surface; the renderer averages by exact division by the sample
    /// count instead, which rounds once rather than twice.
    pub pixel_sample_scale: Fx,
    pub pixel_delta_u: Vec3,
    pub pixel_delta_v: Vec3,
    pub pixel00_loc: Point3,
    pub tan_half_vfov: Fx,
    pub look_from: Point3,
    pub look_at: Point3,
    pub vup: Vec3,
    pub buffer: Vec<u32>,
    pub ppm: Vec<(u8, u8, u8)>,
}

/// The image height before the floor of one: the width divided by the
/// aspect ratio, truncated to an integer.
pub open spec fn spec_raw_height(width: int, aspect: int) -> int {
    tdiv(fx_div_raw(width * SCALE, aspect), SCALE as int)
}

/// The configuration fields the camera owns, as far as `intialize` and
/// `render` need them representable.
pub open spec fn spec_config_ok(c: Camera) -> bool {
    0 < c.image_width <= 4096 && 0x4000 <= c.aspect_ratio.raw <= 0x40_0000
        && 0 < c.samples_per_pixel <= 65536 && 0 < c.tan_half_vfov.raw <= 0x4_0000
        && c.look_from.bounded(0x100_0000) && c.look_at.bounded(0x100_0000)
        && c.vup.bounded(0x100_0000)
}

/// The basis derivation succeeds: the focal axis has positive length and
/// the up vector is not parallel to it.
pub open spec fn spec_basis_ok(c: Camera) -> bool {
    spec_len2(spec_focal_vec(c)) > 0
        && spec_len2(spec_cross(c.vup, spec_w_basis(c))) > 0
}

/// The vector from the look-at point to the camera.
pub open spec fn spec_focal_vec(c: Camera) -> Vec3 {
    spec_sub(c.look_from, c.look_at)
}

/// The focal length.
pub open spec fn spec_focal(c: Camera) -> Fx {
    Fx { raw: fx_sqrt_raw(spec_len2(spec_focal_vec(c))) as i64 }
}

/// The backward basis vector.
pub open spec fn spec_w_basis(c: Camera) -> Vec3 {
    spec_unit(spec_focal_vec(c))
}

/// The rightward basis vector.
pub open spec fn spec_u_basis(c: Camera) -> Vec3 {
    spec_unit(spec_cross(c.vup, spec_w_basis(c)))
}

/// The upward basis vector.
pub open spec fn spec_v_basis(c: Camera) -> Vec3 {
    spec_cross(spec_w_basis(c), spec_u_basis(c))
}

/// Viewport height: twice the half-field tangent times the focal length.
pub open spec fn spec_viewport_height(c: Camera) -> Fx {
    let hf = fx_mul_raw(c.tan_half_vfov.raw as int, spec_focal(c).raw as int);
    Fx { raw: (hf + hf) as i64 }
}

/// Viewport width: the height scaled by the aspect ratio.
pub open spec fn spec_viewport_width(c: Camera) -> Fx {
    Fx { raw: fx_mul_raw(spec_viewport_height(c).raw as int, c.aspect_ratio.raw as int) as i64 }
}

/// The horizontal viewport edge vector.
pub open spec fn spec_viewport_u(c: Camera) -> Vec3 {
    spec_scale(spec_u_basis(c), spec_viewport_width(c))
}

/// The vertical viewport edge vector, pointing down the image.
pub open spec fn spec_viewport_v(c: Camera) -> Vec3 {
    spec_scale(spec_neg(spec_v_basis(c)), spec_viewport_height(c))
}

/// The world-space step from one pixel to the next along a row.
pub open spec fn spec_pixel_delta_u(c: Camera) -> Vec3 {
    spec_div_scalar(spec_viewport_u(c), Fx { raw: ((c.image_width as int) * SCALE) as i64 })
}

/// The world-space step from one row to the next.
pub open spec fn spec_pixel_delta_v(c: Camera) -> Vec3 {
    spec_div_scalar(spec_viewport_v(c), Fx { raw: (spec_image_height(c) * SCALE) as i64 })
}

/// The image height `intialize` derives, floored at one row.
pub open spec fn spec_image_height(c: Camera) -> int {
    let h0 = spec_raw_height(c.image_width as int, c.aspect_ratio.raw as int);
    if h0 < 1 {
        1
    } else {
        h0
    }
}

/// The world position of the viewport's upper-left corner.
pub open spec fn spec_upper_left(c: Camera) -> Vec3 {
    spec_sub(
        spec_sub(
            spec_sub(c.look_from, spec_scale(spec_w_basis(c), spec_focal(c))),
            spec_div_scalar(spec_viewport_u(c), Fx { raw: (2 * SCALE) as i64 }),
        ),
        spec_div_scalar(spec_viewport_v(c), Fx { raw: (2 * SCALE) as i64 }),
    )
}

/// The world position of pixel (0, 0)'s sample center.
pub open spec fn spec_pixel00(c: Camera) -> Vec3 {
    spec_add(
        spec_upper_left(c),
        spec_scale(spec_add(spec_pixel_delta_u(c), spec_pixel_delta_v(c)), Fx { raw: HALF }),
    )
}

/// The derived state `render` relies on after `intialize` succeeded.
pub open spec fn spec_initialized(c: Camera) -> bool {
    0 < c.image_width <= 4096 && 0 < c.image_height <= 16384
        && 0 < c.samples_per_pixel <= 65536
        && c.buffer@.len() == (c.image_width as int) * (c.image_height as int)
        && c.center.bounded(0x100_0000) && c.pixel_delta_u.bounded(0x1000_0000_0000)
        && c.pixel_delta_v.bounded(0x1_0000_0000_0000)
        && c.pixel00_loc.bounded(0x4_0000_0000_0000)
}

/// A zeroed framebuffer of the given size.
fn zero_buffer(n: usize) -> (r: Vec<u32>)
    ensures
        r@.len() == n,
        forall|k: int| 0 <= k < n ==> r@[k] == 0u32,
{
    let mut v: Vec<u32> = Vec::new();
    let mut i: usize = 0;
    while i < n
        invariant
            i <= n,
            v@.len() == i,
            forall|k: int| 0 <= k < i ==> v@[k] == 0u32,
        decreases n - i,
    {
        v.push(0u32);
        i = i + 1;
    }
    v
}

/// One packed 8-bit channel: a unit-range channel scaled to `[0, 255]`.
pub open spec fn spec_byte255(c: int) -> int {
    tdiv(255 * c, SCALE as int)
}

/// The `0RGB` word the preview framebuffer stores for a color.
pub open spec fn spec_packed(color: Vec3) -> int {
    spec_byte255(color.x.raw as int) * 65536 + spec_byte255(color.y.raw as int) * 256
        + spec_byte255(color.z.raw as int)
}

/// The color stored for a pixel whose samples accumulated to `acc`: each
/// channel averaged over the `spp` samples, then gamma-corrected.
pub open spec fn spec_pixel_color(acc: Vec3, spp: int) -> Vec3 {
    Vec3 {
        x: Fx { raw: crate::color::spec_gamma(fx_div_raw(acc.x.raw as int, spp * SCALE)) as i64 },
        y: Fx { raw: crate::color::spec_gamma(fx_div_raw(acc.y.raw as int, spp * SCALE)) as i64 },
        z: Fx { raw: crate::color::spec_gamma(fx_div_raw(acc.z.raw as int, spp * SCALE)) as i64 },
    }
}

/// The three 8-bit values the output sink receives for a pixel whose
/// samples accumulated to `acc`.
pub open spec fn spec_ppm_triple(acc: Vec3, spp: int) -> (int, int, int) {
    (
        crate::color::spec_channel_byte(acc.x.raw as int, spp),
        crate::color::spec_channel_byte(acc.y.raw as int, spp),
        crate::color::spec_channel_byte(acc.z.raw as int, spp),
    )
}

/// What one output triple holds after rendering: the clamp-then-scale
/// mapping of an accumulation of `spp` unit-range sample colors.
pub open spec fn spec_rendered_triple(t: (u8, u8, u8), spp: int) -> bool {
    exists|acc: Vec3|
        0 <= acc.x.raw <= spp * SCALE && 0 <= acc.y.raw <= spp * SCALE && 0 <= acc.z.raw
            <= spp * SCALE && (t.0 as int, t.1 as int, t.2 as int)
            == #[trigger] spec_ppm_triple(acc, spp)
}

/// What a framebuffer word holds after rendering: the packed, gamma-
/// corrected average of an accumulation of `spp` unit-range sample colors.
pub open spec fn spec_rendered_word(word: u32, spp: int) -> bool {
    exists|acc: Vec3|
        0 <= acc.x.raw <= spp * SCALE && 0 <= acc.y.raw <= spp * SCALE && 0 <= acc.z.raw
            <= spp * SCALE && word == spec_packed(#[trigger] spec_pixel_color(acc, spp)) as u32
}

/// The sample ray for pixel `(i, j)` under jitter `(px, py)`: from the
/// camera center toward the pixel's world position offset by the jitter in
/// pixel-step units.
pub open spec fn spec_sample_ray(center: Vec3, p00: Vec3, du: Vec3, dv: Vec3, i: int, j: int,
    px: Fx, py: Fx) -> Ray {
    Ray {
        origin: center,
        direction: spec_sub(
            spec_add(
                spec_add(p00, spec_scale(du, Fx { raw: (i * SCALE + px.raw) as i64 })),
                spec_scale(dv, Fx { raw: (j * SCALE + py.raw) as i64 }),
            ),
            center,
        ),
    }
}

/// The accumulations `n` path samples for pixel `(i, j)` can produce:
/// black for zero samples; otherwise a previous accumulation plus one
/// possible color of one jittered sample ray — jitter within half a pixel
/// step each way, the color bound by `spec_possible_color`.
pub open spec fn spec_possible_accum(center: Vec3, p00: Vec3, du: Vec3, dv: Vec3, md: int,
    world: HittableList, i: int, j: int, n: int, acc: Vec3) -> bool
    decreases n,
{
    if n <= 0 {
        acc == spec_black()
    } else {
        exists|prev: Vec3, px: Fx, py: Fx, s: Vec3|
            #![trigger spec_add(prev, s), spec_sample_ray(center, p00, du, dv, i, j, px, py)]
            spec_possible_accum(center, p00, du, dv, md, world, i, j, n - 1, prev)
                && -(HALF as int) <= px.raw < HALF && -(HALF as int) <= py.raw < HALF
                && spec_possible_color(spec_sample_ray(center, p00, du, dv, i, j, px, py),
                world, md, s) && spec_color01(s) && acc == spec_add(prev, s)
    }
}

/// Pixel `(i, j)` of the outputs holds the record of one possible
/// accumulation `acc` of `spp` samples: the output triple is `acc`'s
/// clamp-then-scale mapping and the framebuffer word its packed
/// gamma-corrected average.
pub open spec fn spec_pixel_stored_with(acc: Vec3, center: Vec3, p00: Vec3, du: Vec3,
    dv: Vec3, md: int, world: HittableList, spp: int, w: int, buf: Seq<u32>,
    ppm: Seq<(u8, u8, u8)>, i: int, j: int) -> bool {
    spec_possible_accum(center, p00, du, dv, md, world, i, j, spp, acc)
        && 0 <= acc.x.raw <= spp * SCALE && 0 <= acc.y.raw <= spp * SCALE && 0 <= acc.z.raw
        <= spp * SCALE && (ppm[j * w + i].0 as int, ppm[j * w + i].1 as int,
    ppm[j * w + i].2 as int) == spec_ppm_triple(acc, spp) && buf[j * w + i] == spec_packed(
        spec_pixel_color(acc, spp),
    ) as u32
}

/// Pixel `(i, j)` is the record of some possible accumulation.
pub open spec fn spec_pixel_stored(center: Vec3, p00: Vec3, du: Vec3, dv: Vec3, md: int,
    world: HittableList, spp: int, w: int, buf: Seq<u32>, ppm: Seq<(u8, u8, u8)>, i: int,
    j: int) -> bool {
    exists|acc: Vec3|
        #[trigger] spec_pixel_stored_with(acc, center, p00, du, dv, md, world, spp, w, buf,
            ppm, i, j)
}

/// Pixel `(i, j)` of the rendered camera records a possible accumulation
/// of its own jittered samples against this scene.
pub open spec fn spec_pixel_recorded(c: Camera, world: HittableList, i: int, j: int) -> bool {
    spec_pixel_stored(c.center, c.pixel00_loc, c.pixel_delta_u, c.pixel_delta_v,
        c.max_depth as int, world, c.samples_per_pixel as int, c.image_width as int,
        c.buffer@, c.ppm@, i, j)
}

/// Close the step case of `spec_possible_accum`: a witness of previous
/// accumulation, jitter and sample color yields a possible accumulation.
proof fn lemma_accum_step(center: Vec3, p00: Vec3, du: Vec3, dv: Vec3, md: int,
    world: HittableList, i: int, j: int, n: int, prev: Vec3, px: Fx, py: Fx, s: Vec3,
    acc: Vec3)
    requires
        n > 0,
        spec_possible_accum(center, p00, du, dv, md, world, i, j, n - 1, prev),
        -(HALF as int) <= px.raw < HALF,
        -(HALF as int) <= py.raw < HALF,
        spec_possible_color(spec_sample_ray(center, p00, du, dv, i, j, px, py), world, md, s),
        spec_color01(s),
        acc == spec_add(prev, s),
    ensures
        spec_possible_accum(center, p00, du, dv, md, world, i, j, n, acc),
{
}

/// A stored pixel stays stored when the outputs keep its entries.
proof fn lemma_pixel_stored_frame(center: Vec3, p00: Vec3, du: Vec3, dv: Vec3, md: int,
    world: HittableList, spp: int, w: int, buf1: Seq<u32>, ppm1: Seq<(u8, u8, u8)>,
    buf2: Seq<u32>, ppm2: Seq<(u8, u8, u8)>, i: int, j: int)
    requires
        spec_pixel_stored(center, p00, du, dv, md, world, spp, w, buf1, ppm1, i, j),
        buf2[j * w + i] == buf1[j * w + i],
        ppm2[j * w + i] == ppm1[j * w + i],
    ensures
        spec_pixel_stored(center, p00, du, dv, md, world, spp, w, buf2, ppm2, i, j),
{
    let acc = choose|acc: Vec3|
        #[trigger] spec_pixel_stored_with(acc, center, p00, du, dv, md, world, spp, w, buf1,
            ppm1, i, j);
    assert(spec_pixel_stored_with(acc, center, p00, du, dv, md, world, spp, w, buf2, ppm2,
        i, j));
}

/// Scale a unit-range channel to `[0, 255]`.
fn byte255(c: Fx) -> (r: u32)
    requires
        0 <= c.raw <= SCALE,
    ensures
        r as int == spec_byte255(c.raw as int),
        r < 256,
{
    let num: u64 = 255u64 * (c.raw as u64);
    let v: u64 = num / 65536u64;
    proof {
        lemma_tdiv_mag(255 * (c.raw as int), SCALE as int, 255);
        assert(v as int == tdiv(255 * (c.raw as int), SCALE as int));
    }
    v as u32
}

impl Camera {
    /// A camera over the given configuration, with the default recursion
    /// depth and field of view, and a zeroed framebuffer.
    pub fn new(aspect_ratio: Fx, image_width: i32, samples_per_pixel: i32, look_from: Point3,
        look_at: Point3, vup: Vec3) -> (r: Camera)
        requires
            0 < image_width <= 4096,
            0x4000 <= aspect_ratio.raw <= 0x40_0000,
            0 < samples_per_pixel <= 65536,
            look_from.bounded(0x100_0000),
            look_at.bounded(0x100_0000),
            vup.bounded(0x100_0000),
        ensures
            r.aspect_ratio == aspect_ratio,
            r.image_width == image_width,
            r.samples_per_pixel == samples_per_pixel,
            r.max_depth == 20,
            r.tan_half_vfov.raw == DEFAULT_TAN_HALF_VFOV,
            r.look_from == look_from,
            r.look_at == look_at,
            r.vup == vup,
            r.image_height == spec_raw_height(image_width as int, aspect_ratio.raw as int),
            r.buffer@.len() == (r.image_width as int) * (r.image_height as int),
            forall|k: int| 0 <= k < r.buffer@.len() ==> r.buffer@[k] == 0u32,
            r.center == (Vec3 { x: Fx { raw: 0 }, y: Fx { raw: 0 }, z: Fx { raw: 0 } }),
            r.pixel_sample_scale.raw == 0,
            r.pixel_delta_u == (Vec3 { x: Fx { raw: 0 }, y: Fx { raw: 0 }, z: Fx { raw: 0 } }),
            r.pixel_delta_v == (Vec3 { x: Fx { raw: 0 }, y: Fx { raw: 0 }, z: Fx { raw: 0 } }),
            r.pixel00_loc == (Vec3 { x: Fx { raw: 0 }, y: Fx { raw: 0 }, z: Fx { raw: 0 } }),
            r.ppm@.len() == 0,
            spec_config_ok(r),
    {
        proof {
            lemma_fx_div_mag((image_width as int) * SCALE, aspect_ratio.raw as int,
                0x4000_0000);
            lemma_tdiv_sign((image_width as int) * SCALE * SCALE, aspect_ratio.raw as int);
            lemma_tdiv_mag(fx_div_raw((image_width as int) * SCALE, aspect_ratio.raw as int),
                SCALE as int, 0x4000);
        }
        let wfx = Fx::from_int(image_width as i64);
        let hfx = wfx.over(aspect_ratio);
        proof {
            assert(hfx.raw >= 0) by {
                assert(fx_div_raw((image_width as int) * SCALE, aspect_ratio.raw as int)
                    == tdiv((image_width as int) * SCALE * SCALE, aspect_ratio.raw as int));
            }
        }
        let image_height = hfx.trunc() as i32;
        proof {
            assert(0 <= (image_width as int) * (image_height as int) <= 0x8000_0000)
                by (nonlinear_arith)
                requires
                    0 < image_width <= 4096,
                    0 <= image_height <= 0x4000,
            ;
        }
        let n = (image_width as i64) * (image_height as i64);
        let buffer = zero_buffer(n as usize);
        Camera {
            max_depth: 20,
            aspect_ratio,
            image_width,
            samples_per_pixel,
            image_height,
            tan_half_vfov: Fx { raw: DEFAULT_TAN_HALF_VFOV },
            look_from,
            look_at,
            vup,
            center: Vec3 { x: Fx { raw: 0 }, y: Fx { raw: 0 }, z: Fx { raw: 0 } },
            pixel_sample_scale: Fx { raw: 0 },
            pixel_delta_u: Vec3 { x: Fx { raw: 0 }, y: Fx { raw: 0 }, z: Fx { raw: 0 } },
            pixel_delta_v: Vec3 { x: Fx { raw: 0 }, y: Fx { raw: 0 }, z: Fx { raw: 0 } },
            pixel00_loc: Vec3 { x: Fx { raw: 0 }, y: Fx { raw: 0 }, z: Fx { raw: 0 } },
            buffer,
            ppm: Vec::new(),
        }
    }

    /// Derive the camera basis: the focal length and the orthonormal-up-to
    /// -rounding vectors `w` (backward), `u` (rightward) and `v` (upward).
    /// Fails exactly when the basis degenerates.
    fn derive_basis(&self) -> (r: Option<(Fx, Vec3, Vec3, Vec3)>)
        requires
            spec_config_ok(*self),
        ensures
            r is Some <==> spec_basis_ok(*self),
            (match r {
                Some(q) => q.0 == spec_focal(*self) && q.1 == spec_w_basis(*self)
                    && q.2 == spec_u_basis(*self) && q.3 == spec_v_basis(*self)
                    && 0 <= q.0.raw <= 0x400_0000 && q.1.bounded(0x0200_0000)
                    && q.2.bounded(0x0200_0000) && q.3.bounded(0x8_0000_0000),
                None => true,
            }),
    {
        let fl_vec = self.look_from.minus(self.look_at);
        proof {
            lemma_dot_mags(fl_vec, fl_vec, 0x200_0000, 0x200_0000, 0x4_0000_0000);
        }
        let l2f = fl_vec.length_squared();
        if l2f.raw <= 0 {
            return None;
        }
        let focal_length = l2f.sqrt();
        proof {
            lemma_sqrt_floor((l2f.raw as int) * (SCALE as int));
            assert(focal_length.raw <= 0x400_0000) by (nonlinear_arith)
                requires
                    focal_length.raw >= 0,
                    (focal_length.raw as int) * (focal_length.raw as int)
                        <= (l2f.raw as int) * (SCALE as int),
                    0 <= l2f.raw <= 0xC_0000_0000,
                    SCALE == 65536,
            ;
        }
        let w = fl_vec.unit_vector();
        proof {
            lemma_cross_mags(self.vup, w, 0x100_0000, 0x0200_0000, 0x2_0000_0000);
        }
        let cr = self.vup.cross(&w);
        let l2c = cr.length_squared();
        if l2c.raw <= 0 {
            return None;
        }
        let u = cr.unit_vector();
        proof {
            lemma_cross_mags(w, u, 0x0200_0000, 0x0200_0000, 0x4_0000_0000);
        }
        let v = w.cross(&u);
        Some((focal_length, w, u, v))
    }

    /// The viewport edge vectors from the basis.
    fn derive_edges(&self, focal_length: Fx, u: Vec3, v: Vec3) -> (r: (Vec3, Vec3))
        requires
            spec_config_ok(*self),
            focal_length == spec_focal(*self),
            0 <= focal_length.raw <= 0x400_0000,
            u == spec_u_basis(*self),
            u.bounded(0x0200_0000),
            v == spec_v_basis(*self),
            v.bounded(0x8_0000_0000),
        ensures
            r.0 == spec_viewport_u(*self),
            r.1 == spec_viewport_v(*self),
            r.0.bounded(0x1000_0000_0000),
            r.1.bounded(0x1_0000_0000_0000),
    {
        proof {
            lemma_fx_mul_mag(self.tan_half_vfov.raw as int, focal_length.raw as int,
                0x4_0000, 0x400_0000, 0x1000_0000);
        }
        let hf = self.tan_half_vfov.times(focal_length);
        let viewport_height = hf.plus(hf);
        proof {
            lemma_fx_mul_mag(viewport_height.raw as int, self.aspect_ratio.raw as int,
                0x2000_0000, 0x40_0000, 0x8_0000_0000);
        }
        let viewport_width = viewport_height.times(self.aspect_ratio);
        proof {
            lemma_fx_mul_mag(u.x.raw as int, viewport_width.raw as int, 0x0200_0000,
                0x8_0000_0000, 0x1000_0000_0000);
            lemma_fx_mul_mag(u.y.raw as int, viewport_width.raw as int, 0x0200_0000,
                0x8_0000_0000, 0x1000_0000_0000);
            lemma_fx_mul_mag(u.z.raw as int, viewport_width.raw as int, 0x0200_0000,
                0x8_0000_0000, 0x1000_0000_0000);
        }
        let viewport_u = u.scale(viewport_width);
        let nv = v.negate();
        proof {
            lemma_fx_mul_mag(nv.x.raw as int, viewport_height.raw as int, 0x8_0000_0000,
                0x2000_0000, 0x1_0000_0000_0000);
            lemma_fx_mul_mag(nv.y.raw as int, viewport_height.raw as int, 0x8_0000_0000,
                0x2000_0000, 0x1_0000_0000_0000);
            lemma_fx_mul_mag(nv.z.raw as int, viewport_height.raw as int, 0x8_0000_0000,
                0x2000_0000, 0x1_0000_0000_0000);
        }
        let viewport_v = nv.scale(viewport_height);
        (viewport_u, viewport_v)
    }

    /// The pixel deltas from the viewport edges.
    fn derive_deltas(&self, image_height: i32, viewport_u: Vec3, viewport_v: Vec3)
        -> (r: (Vec3, Vec3))
        requires
            spec_config_ok(*self),
            0 < image_height <= 0x4000,
            image_height == spec_image_height(*self),
            viewport_u == spec_viewport_u(*self),
            viewport_u.bounded(0x1000_0000_0000),
            viewport_v == spec_viewport_v(*self),
            viewport_v.bounded(0x1_0000_0000_0000),
        ensures
            r.0 == spec_pixel_delta_u(*self),
            r.1 == spec_pixel_delta_v(*self),
            r.0.bounded(0x1000_0000_0000),
            r.1.bounded(0x1_0000_0000_0000),
    {
        let wdiv = Fx::from_int(self.image_width as i64);
        let hdiv = Fx::from_int(image_height as i64);
        proof {
            lemma_div_fits(viewport_u.x.raw as int, wdiv.raw as int, 0x1000_0000_0000);
            lemma_div_fits(viewport_u.y.raw as int, wdiv.raw as int, 0x1000_0000_0000);
            lemma_div_fits(viewport_u.z.raw as int, wdiv.raw as int, 0x1000_0000_0000);
            lemma_div_fits(viewport_v.x.raw as int, hdiv.raw as int, 0x1_0000_0000_0000);
            lemma_div_fits(viewport_v.y.raw as int, hdiv.raw as int, 0x1_0000_0000_0000);
            lemma_div_fits(viewport_v.z.raw as int, hdiv.raw as int, 0x1_0000_0000_0000);
        }
        let pixel_delta_u = viewport_u.div_scalar(wdiv);
        let pixel_delta_v = viewport_v.div_scalar(hdiv);
        (pixel_delta_u, pixel_delta_v)
    }

    /// The position of pixel (0, 0): the viewport's upper-left corner plus
    /// half a pixel step in each direction.
    #[verifier::rlimit(100)]
    #[verifier::spinoff_prover]
    fn derive_pixel00(&self, focal_length: Fx, w: Vec3, viewport_u: Vec3, viewport_v: Vec3,
        pixel_delta_u: Vec3, pixel_delta_v: Vec3) -> (r: Vec3)
        requires
            spec_config_ok(*self),
            focal_length == spec_focal(*self),
            0 <= focal_length.raw <= 0x400_0000,
            w == spec_w_basis(*self),
            w.bounded(0x0200_0000),
            viewport_u == spec_viewport_u(*self),
            viewport_u.bounded(0x1000_0000_0000),
            viewport_v == spec_viewport_v(*self),
            viewport_v.bounded(0x1_0000_0000_0000),
            pixel_delta_u == spec_pixel_delta_u(*self),
            pixel_delta_u.bounded(0x1000_0000_0000),
            pixel_delta_v == spec_pixel_delta_v(*self),
            pixel_delta_v.bounded(0x1_0000_0000_0000),
        ensures
            r == spec_pixel00(*self),
            r.bounded(0x4_0000_0000_0000),
    {
        proof {
            lemma_fx_mul_mag(w.x.raw as int, focal_length.raw as int, 0x0200_0000,
                0x400_0000, 0x8_0000_0000);
            lemma_fx_mul_mag(w.y.raw as int, focal_length.raw as int, 0x0200_0000,
                0x400_0000, 0x8_0000_0000);
            lemma_fx_mul_mag(w.z.raw as int, focal_length.raw as int, 0x0200_0000,
                0x400_0000, 0x8_0000_0000);
        }
        let two = Fx::from_int(2);
        proof {
            lemma_div_fits(viewport_u.x.raw as int, 2 * SCALE, 0x1000_0000_0000);
            lemma_div_fits(viewport_u.y.raw as int, 2 * SCALE, 0x1000_0000_0000);
            lemma_div_fits(viewport_u.z.raw as int, 2 * SCALE, 0x1000_0000_0000);
            lemma_div_fits(viewport_v.x.raw as int, 2 * SCALE, 0x1_0000_0000_0000);
            lemma_div_fits(viewport_v.y.raw as int, 2 * SCALE, 0x1_0000_0000_0000);
            lemma_div_fits(viewport_v.z.raw as int, 2 * SCALE, 0x1_0000_0000_0000);
        }
        let viewport_upper_left = self.look_from.minus(w.scale(focal_length)).minus(
            viewport_u.div_scalar(two)).minus(viewport_v.div_scalar(two));
        let pd_sum = pixel_delta_u.plus(pixel_delta_v);
        proof {
            lemma_fx_mul_mag(pd_sum.x.raw as int, HALF as int, 0x2_0000_0000_0000, 0x8000,
                0x1_0000_0000_0000);
            lemma_fx_mul_mag(pd_sum.y.raw as int, HALF as int, 0x2_0000_0000_0000, 0x8000,
                0x1_0000_0000_0000);
            lemma_fx_mul_mag(pd_sum.z.raw as int, HALF as int, 0x2_0000_0000_0000, 0x8000,
                0x1_0000_0000_0000);
        }
        viewport_upper_left.plus(pd_sum.scale(Fx::new(HALF)))
    }

    /// The pixel deltas and the position of pixel (0, 0) from the basis.
    fn derive_viewport(&self, image_height: i32, focal_length: Fx, w: Vec3, u: Vec3, v: Vec3)
        -> (r: (Vec3, Vec3, Vec3))
        requires
            spec_config_ok(*self),
            0 < image_height <= 0x4000,
            image_height == spec_image_height(*self),
            focal_length == spec_focal(*self),
            0 <= focal_length.raw <= 0x400_0000,
            w == spec_w_basis(*self),
            w.bounded(0x0200_0000),
            u == spec_u_basis(*self),
            u.bounded(0x0200_0000),
            v == spec_v_basis(*self),
            v.bounded(0x8_0000_0000),
        ensures
            r.0 == spec_pixel_delta_u(*self),
            r.1 == spec_pixel_delta_v(*self),
            r.2 == spec_pixel00(*self),
            r.0.bounded(0x1000_0000_0000),
            r.1.bounded(0x1_0000_0000_0000),
            r.2.bounded(0x4_0000_0000_0000),
    {
        let edges = self.derive_edges(focal_length, u, v);
        let deltas = self.derive_deltas(image_height, edges.0, edges.1);
        let pixel00_loc = self.derive_pixel00(focal_length, w, edges.0, edges.1, deltas.0,
            deltas.1);
        (deltas.0, deltas.1, pixel00_loc)
    }

    /// Derive the viewport from the configuration: image height (at least
    /// one row), sample scale, camera basis, pixel deltas, the position of
    /// pixel (0, 0), and a fresh framebuffer. Returns false, changing
    /// nothing, when the basis degenerates: a zero focal axis, or an up
    /// vector parallel to it.
    pub fn intialize(&mut self) -> (ok: bool)
        requires
            spec_config_ok(*old(self)),
        ensures
            ok == spec_basis_ok(*old(self)),
            !ok ==> *final(self) == *old(self),
            final(self).aspect_ratio == old(self).aspect_ratio,
            final(self).image_width == old(self).image_width,
            final(self).samples_per_pixel == old(self).samples_per_pixel,
            final(self).max_depth == old(self).max_depth,
            final(self).tan_half_vfov == old(self).tan_half_vfov,
            final(self).look_from == old(self).look_from,
            final(self).look_at == old(self).look_at,
            final(self).vup == old(self).vup,
            ok ==> final(self).image_height == spec_image_height(*old(self)),
            ok ==> final(self).center == old(self).look_from,
            ok ==> final(self).pixel_sample_scale.raw == fx_div_raw(SCALE as int,
                (old(self).samples_per_pixel as int) * SCALE),
            ok ==> final(self).pixel_delta_u == spec_pixel_delta_u(*old(self)),
            ok ==> final(self).pixel_delta_v == spec_pixel_delta_v(*old(self)),
            ok ==> final(self).pixel00_loc == spec_pixel00(*old(self)),
            ok ==> final(self).buffer@.len() == (final(self).image_width as int)
                * (final(self).image_height as int),
            ok ==> (forall|k: int|
                0 <= k < final(self).buffer@.len() ==> final(self).buffer@[k] == 0u32),
            ok ==> final(self).ppm@.len() == 0,
            ok ==> spec_initialized(*final(self)),
    {
        let basis = self.derive_basis();
        let (focal_length, w, u, v) = match basis {
            Some(q) => q,
            None => {
                return false;
            },
        };
        proof {
            lemma_fx_div_mag((self.image_width as int) * SCALE, self.aspect_ratio.raw as int,
                0x4000_0000);
            lemma_tdiv_sign((self.image_width as int) * SCALE * SCALE,
                self.aspect_ratio.raw as int);
            lemma_tdiv_mag(fx_div_raw((self.image_width as int) * SCALE,
                self.aspect_ratio.raw as int), SCALE as int, 0x4000);
            lemma_fx_div_mag(SCALE as int, (self.samples_per_pixel as int) * SCALE,
                SCALE as int);
            assert(SCALE * SCALE <= SCALE * ((self.samples_per_pixel as int) * SCALE))
                by (nonlinear_arith)
                requires
                    SCALE == 65536,
                    self.samples_per_pixel >= 1,
            ;
        }
        let wfx = Fx::from_int(self.image_width as i64);
        let hfx = wfx.over(self.aspect_ratio);
        proof {
            assert(fx_div_raw((self.image_width as int) * SCALE, self.aspect_ratio.raw as int)
                == tdiv((self.image_width as int) * SCALE * SCALE,
                    self.aspect_ratio.raw as int));
        }
        let h0 = hfx.trunc() as i32;
        let image_height: i32 = if h0 < 1 {
            1
        } else {
            h0
        };
        let pixel_sample_scale = Fx::one().over(Fx::from_int(self.samples_per_pixel as i64));
        let center = self.look_from;
        let vp = self.derive_viewport(image_height, focal_length, w, u, v);
        proof {
            assert(0 <= (self.image_width as int) * (image_height as int) <= 0x8000_0000)
                by (nonlinear_arith)
                requires
                    0 < self.image_width <= 4096,
                    0 < image_height <= 0x4000,
            ;
        }
        let n = (self.image_width as i64) * (image_height as i64);
        let buffer = zero_buffer(n as usize);

        self.image_height = image_height;
        self.pixel_sample_scale = pixel_sample_scale;
        self.center = center;
        self.pixel_delta_u = vp.0;
        self.pixel_delta_v = vp.1;
        self.pixel00_loc = vp.2;
        self.buffer = buffer;
        self.ppm = Vec::new();
        true
    }
}

/// The scatter step of a possible path: some scattered direction the
/// material admits, and some color the scattered ray itself can produce,
/// attenuated by the material.
pub open spec fn spec_scatter_step(m: Material, ray: Ray, r2: HitRecord,
    world: HittableList, depth: int, c: Vec3) -> bool
    decreases depth, 0int,
{
    depth > 0 && exists|sd: Vec3, rc: Vec3|
        #![trigger spec_scatter_dir_ok(m, ray, r2, sd), spec_comp_mul(rc, spec_attenuation(m))]
        spec_scatter_dir_ok(m, ray, r2, sd) && spec_possible_color(
            Ray { origin: r2.p, direction: sd },
            world,
            depth - 1,
            rc,
        ) && c == spec_comp_mul(rc, spec_attenuation(m))
}

/// The colors a path evaluation can produce: black once the depth budget
/// is exhausted, for a ray outside the numeric envelope, or on absorption;
/// the exact background on a miss; and, on a hit whose material scatters,
/// the attenuated value of a color the scattered ray itself can produce —
/// with the scattered direction bound by `spec_scatter_dir_ok`, so the
/// whole path is pinned down to the sampler's draws.
pub open spec fn spec_possible_color(ray: Ray, world: HittableList, depth: int, c: Vec3)
    -> bool
    decreases depth, 1int,
{
    if depth <= 0 {
        c == spec_black()
    } else if !(ray.origin.bounded(0x400_0000) && ray.direction.bounded(0x400_0000)) {
        c == spec_black()
    } else {
        match spec_list_hit(world, ray, spec_trace_interval()) {
            Some(r2) => match r2.material {
                Some(m) => if spec_scatters(m, ray) {
                    spec_scatter_step(m, ray, r2, world, depth, c)
                } else {
                    c == spec_black()
                },
                None => c == spec_black(),
            },
            None => if spec_len2(ray.direction) > 0 {
                c == spec_background(spec_unit(ray.direction))
            } else {
                c == spec_black()
            },
        }
    }
}

/// Close the scatter case of `spec_possible_color`: a witness pair of
/// scattered direction and recursive color yields a possible color.
proof fn lemma_possible_color_scatter(ray: Ray, world: HittableList, depth: int,
    r2: HitRecord, m: Material, sd: Vec3, rc: Vec3, c: Vec3)
    requires
        depth > 0,
        ray.origin.bounded(0x400_0000),
        ray.direction.bounded(0x400_0000),
        spec_list_hit(world, ray, spec_trace_interval()) == Some(r2),
        r2.material == Some(m),
        spec_scatters(m, ray),
        spec_scatter_dir_ok(m, ray, r2, sd),
        spec_possible_color(Ray { origin: r2.p, direction: sd }, world, depth - 1, rc),
        c == spec_comp_mul(rc, spec_attenuation(m)),
    ensures
        spec_possible_color(ray, world, depth, c),
{
    assert(spec_scatter_dir_ok(m, ray, r2, sd) && spec_possible_color(
        Ray { origin: r2.p, direction: sd },
        world,
        depth - 1,
        rc,
    ) && c == spec_comp_mul(rc, spec_attenuation(m)));
    assert(spec_scatter_step(m, ray, r2, world, depth, c));
}

impl Camera {
    /// A jitter offset: two draws in `[-1/2, 1/2)` of a pixel step.
    fn sample_square(rng: &mut Rng) -> (r: Vec3)
        ensures
            -32768 <= r.x.raw < 32768,
            -32768 <= r.y.raw < 32768,
            r.z.raw == 0,
    {
        let px = Fx::new(-HALF).plus(random_double(rng));
        let py = Fx::new(-HALF).plus(random_double(rng));
        Vec3::new(px, py, Fx::zero())
    }

    /// The ray for pixel `(i, j)`: from the camera center toward the
    /// pixel's world position jittered by up to half a pixel step each way.
    fn get_ray(&self, i: i32, j: i32, rng: &mut Rng) -> (r: Ray)
        requires
            spec_initialized(*self),
            0 <= i < self.image_width,
            0 <= j < self.image_height,
        ensures
            r.origin == self.center,
            exists|px: Fx, py: Fx|
                -32768 <= px.raw < 32768 && -32768 <= py.raw < 32768 && r.direction
                    == spec_sub(
                    spec_add(
                        spec_add(
                            self.pixel00_loc,
                            spec_scale(self.pixel_delta_u,
                                Fx { raw: ((i as int) * SCALE + px.raw) as i64 }),
                        ),
                        spec_scale(self.pixel_delta_v,
                            Fx { raw: ((j as int) * SCALE + py.raw) as i64 }),
                    ),
                    self.center,
                ),
    {
        let offset = Self::sample_square(rng);
        let ifx = Fx::from_int(i as i64).plus(offset.x);
        let jfx = Fx::from_int(j as i64).plus(offset.y);
        proof {
            lemma_fx_mul_mag(self.pixel_delta_u.x.raw as int, ifx.raw as int,
                0x1000_0000_0000, 0x1000_0000, 0x100_0000_0000_0000);
            lemma_fx_mul_mag(self.pixel_delta_u.y.raw as int, ifx.raw as int,
                0x1000_0000_0000, 0x1000_0000, 0x100_0000_0000_0000);
            lemma_fx_mul_mag(self.pixel_delta_u.z.raw as int, ifx.raw as int,
                0x1000_0000_0000, 0x1000_0000, 0x100_0000_0000_0000);
            lemma_fx_mul_mag(self.pixel_delta_v.x.raw as int, jfx.raw as int,
                0x1_0000_0000_0000, 0x4000_0000, 0x4000_0000_0000_0000);
            lemma_fx_mul_mag(self.pixel_delta_v.y.raw as int, jfx.raw as int,
                0x1_0000_0000_0000, 0x4000_0000, 0x4000_0000_0000_0000);
            lemma_fx_mul_mag(self.pixel_delta_v.z.raw as int, jfx.raw as int,
                0x1_0000_0000_0000, 0x4000_0000, 0x4000_0000_0000_0000);
        }
        let pixel_sample = self.pixel00_loc.plus(self.pixel_delta_u.scale(ifx)).plus(
            self.pixel_delta_v.scale(jfx));
        let ray_direction = pixel_sample.minus(self.center);
        proof {
            assert(-32768 <= offset.x.raw < 32768 && -32768 <= offset.y.raw < 32768
                && ray_direction == spec_sub(
                spec_add(
                    spec_add(
                        self.pixel00_loc,
                        spec_scale(self.pixel_delta_u,
                            Fx { raw: ((i as int) * SCALE + offset.x.raw) as i64 }),
                    ),
                    spec_scale(self.pixel_delta_v,
                        Fx { raw: ((j as int) * SCALE + offset.y.raw) as i64 }),
                ),
                self.center,
            ));
        }
        Ray::new(self.center, ray_direction)
    }

    /// Resolve a ray's color against the scene: black once the depth budget
    /// is exhausted; the scattered path's color attenuated by the struck
    /// material on a hit; the background gradient when the ray escapes. A
    /// ray outside the numeric envelope, or with a direction that vanishes
    /// at fixed-point resolution, contributes black. The result's channels
    /// always lie in the unit range.
    pub fn ray_color(ray: Ray, world: &HittableList, depth: i32, rng: &mut Rng) -> (c: Vec3)
        requires
            world.wf(),
        ensures
            spec_color01(c),
            depth <= 0 ==> c == spec_black(),
            (depth > 0 && ray.origin.bounded(0x400_0000) && ray.direction.bounded(0x400_0000)
                && spec_list_hit(*world, ray, spec_trace_interval()) is None
                && spec_len2(ray.direction) > 0) ==> c == spec_background(
                spec_unit(ray.direction)),
            (depth > 0 && ray.origin.bounded(0x400_0000) && ray.direction.bounded(0x400_0000)
                && spec_list_hit(*world, ray, spec_trace_interval()) is None
                && spec_len2(ray.direction) <= 0) ==> c == spec_black(),
            (depth > 0 && ray.origin.bounded(0x400_0000) && ray.direction.bounded(0x400_0000)
                && (match spec_list_hit(*world, ray, spec_trace_interval()) {
                    Some(r2) => match r2.material {
                        Some(m) => !spec_scatters(m, ray),
                        None => true,
                    },
                    None => false,
                })) ==> c == spec_black(),
            spec_possible_color(ray, *world, depth as int, c),
        decreases depth,
    {
        if depth <= 0 {
            return Vec3::zero();
        }
        if !(ray.origin.in_bounds(0x400_0000) && ray.direction.in_bounds(0x400_0000)) {
            return Vec3::zero();
        }
        let mut rec = HitRecord::new();
        let ray_t = Interval::new(Fx::new(T_EPS), Fx::new(T_FAR));
        if world.hit(ray, ray_t, &mut rec) {
            if let Some(material) = rec.material {
                let mut attenuation = Vec3::zero();
                let mut scattered = Ray::new(Vec3::zero(), Vec3::zero());
                if material.scatter(&ray, &rec, rng, &mut attenuation, &mut scattered) {
                    let rc = Self::ray_color(scattered, world, depth - 1, rng);
                    proof {
                        lemma_fx_mul_le(rc.x.raw as int, attenuation.x.raw as int);
                        lemma_fx_mul_le(rc.y.raw as int, attenuation.y.raw as int);
                        lemma_fx_mul_le(rc.z.raw as int, attenuation.z.raw as int);
                    }
                    let out = rc.comp_mul(attenuation);
                    proof {
                        assert(scattered == (Ray {
                            origin: rec.p,
                            direction: scattered.direction,
                        }));
                        assert((depth - 1) as int == depth as int - 1);
                        lemma_possible_color_scatter(ray, *world, depth as int, rec,
                            material, scattered.direction, rc, out);
                    }
                    return out;
                }
                return Vec3::zero();
            }
            return Vec3::zero();
        }
        let l2 = ray.direction.length_squared();
        if l2.raw <= 0 {
            return Vec3::zero();
        }
        let unit_direction = ray.direction.unit_vector();
        background_color(unit_direction)
    }

    /// Store the packed `0RGB` word for a unit-range color at pixel
    /// `(x, y)` of the scan-order framebuffer.
    pub fn update_pixel(&mut self, x: i32, y: i32, color: Vec3)
        requires
            spec_initialized(*old(self)),
            0 <= x < old(self).image_width,
            0 <= y < old(self).image_height,
            spec_color01(color),
        ensures
            final(self).buffer@ == old(self).buffer@.update(
                (y as int) * (old(self).image_width as int) + (x as int),
                spec_packed(color) as u32),
            0 <= spec_packed(color) <= 0xFFFFFF,
            final(self).buffer@.len() == old(self).buffer@.len(),
            final(self).aspect_ratio == old(self).aspect_ratio,
            final(self).image_width == old(self).image_width,
            final(self).samples_per_pixel == old(self).samples_per_pixel,
            final(self).max_depth == old(self).max_depth,
            final(self).image_height == old(self).image_height,
            final(self).center == old(self).center,
            final(self).pixel_sample_scale == old(self).pixel_sample_scale,
            final(self).pixel_delta_u == old(self).pixel_delta_u,
            final(self).pixel_delta_v == old(self).pixel_delta_v,
            final(self).pixel00_loc == old(self).pixel00_loc,
            final(self).tan_half_vfov == old(self).tan_half_vfov,
            final(self).look_from == old(self).look_from,
            final(self).look_at == old(self).look_at,
            final(self).vup == old(self).vup,
            final(self).ppm == old(self).ppm,
            spec_initialized(*final(self)),
    {
        let r = byte255(color.x());
        let g = byte255(color.y());
        let b = byte255(color.z());
        let v: u32 = (r << 16u32) | (g << 8u32) | b;
        proof {
            assert(v == r * 65536 + g * 256 + b) by (bit_vector)
                requires
                    v == (r << 16u32) | (g << 8u32) | b,
                    r < 256,
                    g < 256,
                    b < 256,
            ;
        }
        proof {
            assert(0 <= (y as int) * (self.image_width as int) + (x as int)
                < (self.image_width as int) * (self.image_height as int))
                by (nonlinear_arith)
                requires
                    0 <= x < self.image_width,
                    0 <= y < self.image_height,
            ;
            assert((self.image_width as int) * (self.image_height as int) <= 0x8000_0000)
                by (nonlinear_arith)
                requires
                    0 < self.image_width <= 4096,
                    0 < self.image_height <= 16384,
            ;
        }
        let idx = ((y as i64) * (self.image_width as i64) + (x as i64)) as usize;
        self.buffer.set(idx, v);
    }

    /// Render the scene: derive the viewport, then, for every pixel in scan
    /// order, average `samples_per_pixel` jittered path samples, apply
    /// gamma-2 correction, and store the packed color. Returns false,
    /// changing nothing but derived state, exactly when the camera basis
    /// degenerates.
    pub fn render(&mut self, world: &HittableList, rng: &mut Rng) -> (ok: bool)
        requires
            world.wf(),
            spec_config_ok(*old(self)),
        ensures
            ok == spec_basis_ok(*old(self)),
            ok ==> spec_initialized(*final(self)),
            final(self).samples_per_pixel == old(self).samples_per_pixel,
            ok ==> forall|k: int|
                0 <= k < final(self).buffer@.len() ==> (#[trigger] final(self).buffer@[k])
                    <= 0xFFFFFF,
            ok ==> forall|k: int|
                0 <= k < final(self).buffer@.len() ==> spec_rendered_word(
                    #[trigger] final(self).buffer@[k], final(self).samples_per_pixel as int),
            ok ==> final(self).ppm@.len() == final(self).buffer@.len(),
            ok ==> forall|k: int|
                0 <= k < final(self).ppm@.len() ==> spec_rendered_triple(
                    #[trigger] final(self).ppm@[k], final(self).samples_per_pixel as int),
            ok ==> forall|i: int, j: int|
                0 <= i < final(self).image_width && 0 <= j < final(self).image_height
                    ==> #[trigger] spec_pixel_recorded(*final(self), *world, i, j),
    {
        if !self.intialize() {
            return false;
        }
        let w = self.image_width;
        let h = self.image_height;
        let spp0 = self.samples_per_pixel;
        let ghost c0 = self.center;
        let ghost p000 = self.pixel00_loc;
        let ghost du0 = self.pixel_delta_u;
        let ghost dv0 = self.pixel_delta_v;
        let ghost md0 = self.max_depth as int;
        let mut j: i32 = 0;
        while j < h
            invariant
                spec_initialized(*self),
                world.wf(),
                w == self.image_width,
                h == self.image_height,
                spp0 == self.samples_per_pixel,
                0 <= j <= h,
                forall|k: int|
                    0 <= k < self.buffer@.len() ==> (#[trigger] self.buffer@[k]) <= 0xFFFFFF,
                forall|k: int|
                    0 <= k < (j as int) * (w as int) ==> spec_rendered_word(
                        #[trigger] self.buffer@[k], spp0 as int),
                self.ppm@.len() == (j as int) * (w as int),
                forall|k: int|
                    0 <= k < self.ppm@.len() ==> spec_rendered_triple(
                        #[trigger] self.ppm@[k], spp0 as int),
                c0 == self.center,
                p000 == self.pixel00_loc,
                du0 == self.pixel_delta_u,
                dv0 == self.pixel_delta_v,
                md0 == self.max_depth as int,
                forall|ki: int, kj: int|
                    0 <= ki < w && 0 <= kj < j ==> #[trigger] spec_pixel_stored(c0, p000,
                        du0, dv0, md0, *world, spp0 as int, w as int, self.buffer@,
                        self.ppm@, ki, kj),
            decreases h - j,
        {
            let mut i: i32 = 0;
            while i < w
                invariant
                    spec_initialized(*self),
                    world.wf(),
                    w == self.image_width,
                    h == self.image_height,
                    spp0 == self.samples_per_pixel,
                    0 <= i <= w,
                    0 <= j < h,
                    forall|k: int|
                        0 <= k < self.buffer@.len() ==> (#[trigger] self.buffer@[k])
                            <= 0xFFFFFF,
                    forall|k: int|
                        0 <= k < (j as int) * (w as int) + (i as int) ==> spec_rendered_word(
                            #[trigger] self.buffer@[k], spp0 as int),
                    self.ppm@.len() == (j as int) * (w as int) + (i as int),
                    forall|k: int|
                        0 <= k < self.ppm@.len() ==> spec_rendered_triple(
                            #[trigger] self.ppm@[k], spp0 as int),
                    c0 == self.center,
                    p000 == self.pixel00_loc,
                    du0 == self.pixel_delta_u,
                    dv0 == self.pixel_delta_v,
                    md0 == self.max_depth as int,
                    forall|ki: int, kj: int|
                        0 <= ki < w && 0 <= kj < j ==> #[trigger] spec_pixel_stored(c0,
                            p000, du0, dv0, md0, *world, spp0 as int, w as int,
                            self.buffer@, self.ppm@, ki, kj),
                    forall|ki: int|
                        0 <= ki < i ==> #[trigger] spec_pixel_stored(c0, p000, du0, dv0,
                            md0, *world, spp0 as int, w as int, self.buffer@, self.ppm@,
                            ki, j as int),
                decreases w - i,
            {
                let spp = self.samples_per_pixel;
                let mut pixel_color = Vec3::zero();
                let mut s: i32 = 0;
                while s < spp
                    invariant
                        spec_initialized(*self),
                        world.wf(),
                        spp == self.samples_per_pixel,
                        w == self.image_width,
                        h == self.image_height,
                        0 <= i < w,
                        0 <= j < h,
                        0 <= s <= spp,
                        0 <= pixel_color.x.raw <= (s as int) * SCALE,
                        0 <= pixel_color.y.raw <= (s as int) * SCALE,
                        0 <= pixel_color.z.raw <= (s as int) * SCALE,
                        c0 == self.center,
                        p000 == self.pixel00_loc,
                        du0 == self.pixel_delta_u,
                        dv0 == self.pixel_delta_v,
                        md0 == self.max_depth as int,
                        spec_possible_accum(c0, p000, du0, dv0, md0, *world, i as int,
                            j as int, s as int, pixel_color),
                        forall|k: int|
                            0 <= k < self.buffer@.len() ==> (#[trigger] self.buffer@[k])
                                <= 0xFFFFFF,
                    decreases spp - s,
                {
                    let r = self.get_ray(i, j, rng);
                    let c = Self::ray_color(r, world, self.max_depth, rng);
                    proof {
                        assert((s as int) * SCALE + SCALE == ((s + 1) as int) * SCALE)
                            by (nonlinear_arith)
                            requires
                                0 <= s < 65536,
                        ;
                        assert((s as int) * SCALE <= 65536 * 65536) by (nonlinear_arith)
                            requires
                                0 <= s <= 65536,
                        ;
                    }
                    let ghost prev = pixel_color;
                    pixel_color = pixel_color.plus(c);
                    proof {
                        let (gpx, gpy) = choose|px: Fx, py: Fx|
                            -32768 <= px.raw < 32768 && -32768 <= py.raw < 32768
                                && r.direction == spec_sub(
                                spec_add(
                                    spec_add(
                                        self.pixel00_loc,
                                        spec_scale(self.pixel_delta_u,
                                            Fx { raw: ((i as int) * SCALE + px.raw) as i64 }),
                                    ),
                                    spec_scale(self.pixel_delta_v,
                                        Fx { raw: ((j as int) * SCALE + py.raw) as i64 }),
                                ),
                                self.center,
                            );
                        assert(r == spec_sample_ray(c0, p000, du0, dv0, i as int, j as int,
                            gpx, gpy));
                        lemma_accum_step(c0, p000, du0, dv0, md0, *world, i as int,
                            j as int, (s + 1) as int, prev, gpx, gpy, c, pixel_color);
                    }
                    s = s + 1;
                }
                proof {
                    assert((spp as int) * SCALE <= 65536 * 65536) by (nonlinear_arith)
                        requires
                            0 < spp <= 65536,
                    ;
                    lemma_mean_channel(pixel_color.x.raw as int, spp as int);
                    lemma_mean_channel(pixel_color.y.raw as int, spp as int);
                    lemma_mean_channel(pixel_color.z.raw as int, spp as int);
                }
                let scale_fx = Fx::from_int(spp as i64);
                let mx = pixel_color.x().over(scale_fx);
                let my = pixel_color.y().over(scale_fx);
                let mz = pixel_color.z().over(scale_fx);
                proof {
                    lemma_gamma_unit(mx.raw as int);
                    lemma_gamma_unit(my.raw as int);
                    lemma_gamma_unit(mz.raw as int);
                }
                let final_color = Vec3::new(linear_to_gamma(mx), linear_to_gamma(my),
                    linear_to_gamma(mz));
                let ghost prev_ppm = self.ppm@;
                let triple = crate::color::write_color_bytes(pixel_color, spp);
                proof {
                    assert((triple.0 as int, triple.1 as int, triple.2 as int)
                        == spec_ppm_triple(pixel_color, spp0 as int));
                    assert(spec_rendered_triple(triple, spp0 as int));
                }
                self.ppm.push(triple);
                let ghost prev_buf = self.buffer@;
                self.update_pixel(i, j, final_color);
                proof {
                    assert(0 <= (j as int) * (self.image_width as int) + (i as int)
                        < (self.image_width as int) * (self.image_height as int))
                        by (nonlinear_arith)
                        requires
                            0 <= i < self.image_width,
                            0 <= j < self.image_height,
                    ;
                    assert forall|k: int|
                        0 <= k < self.buffer@.len() implies (#[trigger] self.buffer@[k])
                            <= 0xFFFFFF by {
                        let idx = (j as int) * (self.image_width as int) + (i as int);
                        if k != idx {
                            assert(self.buffer@[k] == prev_buf[k]);
                        }
                    }
                    let idx = (j as int) * (self.image_width as int) + (i as int);
                    assert(final_color == spec_pixel_color(pixel_color, spp0 as int));
                    assert(spec_rendered_word(self.buffer@[idx], spp0 as int));
                    assert forall|k: int|
                        0 <= k < idx + 1 implies spec_rendered_word(
                            #[trigger] self.buffer@[k], spp0 as int) by {
                        if k != idx {
                            assert(self.buffer@[k] == prev_buf[k]);
                        }
                    }
                    assert(spec_pixel_stored_with(pixel_color, c0, p000, du0, dv0, md0,
                        *world, spp0 as int, w as int, self.buffer@, self.ppm@, i as int,
                        j as int));
                    assert(spec_pixel_stored(c0, p000, du0, dv0, md0, *world, spp0 as int,
                        w as int, self.buffer@, self.ppm@, i as int, j as int));
                    assert forall|ki: int, kj: int|
                        0 <= ki < w && 0 <= kj < j implies #[trigger] spec_pixel_stored(c0,
                            p000, du0, dv0, md0, *world, spp0 as int, w as int,
                            self.buffer@, self.ppm@, ki, kj) by {
                        assert(0 <= kj * (w as int) + ki < idx) by (nonlinear_arith)
                            requires
                                0 <= ki < w,
                                0 <= kj < j,
                                idx == (j as int) * (w as int) + (i as int),
                                0 <= i,
                        ;
                        assert(self.buffer@[kj * (w as int) + ki]
                            == prev_buf[kj * (w as int) + ki]);
                        assert(self.ppm@[kj * (w as int) + ki]
                            == prev_ppm[kj * (w as int) + ki]);
                        lemma_pixel_stored_frame(c0, p000, du0, dv0, md0, *world,
                            spp0 as int, w as int, prev_buf, prev_ppm, self.buffer@,
                            self.ppm@, ki, kj);
                    }
                    assert forall|ki: int|
                        0 <= ki < i implies #[trigger] spec_pixel_stored(c0, p000, du0,
                            dv0, md0, *world, spp0 as int, w as int, self.buffer@,
                            self.ppm@, ki, j as int) by {
                        assert(0 <= (j as int) * (w as int) + ki < idx);
                        assert(self.buffer@[(j as int) * (w as int) + ki]
                            == prev_buf[(j as int) * (w as int) + ki]);
                        assert(self.ppm@[(j as int) * (w as int) + ki]
                            == prev_ppm[(j as int) * (w as int) + ki]);
                        lemma_pixel_stored_frame(c0, p000, du0, dv0, md0, *world,
                            spp0 as int, w as int, prev_buf, prev_ppm, self.buffer@,
                            self.ppm@, ki, j as int);
                    }
                }
                i = i + 1;
            }
            proof {
                assert(((j + 1) as int) * (w as int) == (j as int) * (w as int) + (w as int))
                    by (nonlinear_arith);
            }
            j = j + 1;
        }
        proof {
            assert((h as int) * (w as int) == (w as int) * (h as int)) by (nonlinear_arith);
        }
        true
    }
}

/// Averaging a channel accumulated over `n` unit-range samples lands in the
/// unit range.
proof fn lemma_mean_channel(acc: int, n: int)
    requires
        0 < n,
        0 <= acc <= n * SCALE,
    ensures
        0 <= fx_div_raw(acc, n * SCALE) <= SCALE,
{
    lemma_tdiv_sign(acc * SCALE, n * SCALE);
    assert(iabs(acc) * SCALE <= SCALE * iabs(n * SCALE)) by (nonlinear_arith)
        requires
            0 <= acc <= n * SCALE,
            0 < n,
            SCALE == 65536,
    ;
    lemma_fx_div_mag(acc, n * SCALE, SCALE as int);
}

/// The gamma correction of a unit-range channel stays in the unit range.
proof fn lemma_gamma_unit(x: int)
    requires
        x <= SCALE,
    ensures
        0 <= crate::color::spec_gamma(x) <= SCALE,
{
    if x > 0 {
        lemma_sqrt_floor(x * SCALE);
        let s = fx_sqrt_raw(x);
        assert(s <= SCALE) by (nonlinear_arith)
            requires
                s >= 0,
                s * s <= x * SCALE,
                x <= SCALE,
                SCALE == 65536,
        ;
    }
}

/// Division fit: a numerator within `bound * |divisor| / SCALE` keeps the
/// fixed-point quotient within `bound`.
proof fn lemma_div_fits(a: int, b: int, bound: int)
    requires
        b >= SCALE,
        0 <= bound,
        iabs(a) <= bound,
    ensures
        iabs(fx_div_raw(a, b)) <= bound,
{
    assert(iabs(a) * SCALE <= bound * iabs(b)) by (nonlinear_arith)
        requires
            iabs(a) <= bound,
            b >= SCALE,
            SCALE == 65536,
            iabs(b) == b,
            0 <= bound,
    ;
    lemma_fx_div_mag(a, b, bound);
}

} // verus!
