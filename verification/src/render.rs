//! The recursive integrator and the banded renderer.

use vstd::prelude::*;
use crate::fixed::{fx_ok, fmul, div_floor, isqrt, mul_fx, SCALE};
use crate::vec3::{Vec3, Color};
use crate::ray::Ray;
use crate::hittable::{Hitrecord, ray_wf, t_range_ok, rec_matches};
use crate::hittable_list::{Hittablelist, spec_scan, list_no_media};
use crate::material::{Material, spec_emitted, mat_eq, opt_mat_eq, lemma_mat_eq_sem};
use crate::camera::Camera;
use crate::rng;

verus! {

/// Largest radiance a channel can carry before the clamp.
pub const CLMAX: i64 = 0x1_0000_0000;

/// The self-intersection epsilon: about a thousandth of a unit.
pub const T_EPS: i64 = 66;

/// The far limit of every primary intersection query.
pub const T_FAR: i64 = 0x40_0000_0000;

/// A color with every channel clamped into `[0, CLMAX]`.
pub open spec fn spec_clamp3(c: Vec3) -> Vec3 {
    Vec3 {
        x: spec_clamp_ch(c.x as int) as i64,
        y: spec_clamp_ch(c.y as int) as i64,
        z: spec_clamp_ch(c.z as int) as i64,
    }
}

/// One integration step: the emission plus the attenuated bounce,
/// clamped channelwise.
pub open spec fn spec_combine(e: Vec3, att: Vec3, bounce: Vec3) -> Vec3 {
    spec_clamp3(
        Vec3 {
            x: (e.x + fmul(att.x as int, bounce.x as int)) as i64,
            y: (e.y + fmul(att.y as int, bounce.y as int)) as i64,
            z: (e.z + fmul(att.z as int, bounce.z as int)) as i64,
        },
    )
}

/// The deterministic attenuation each material kind owes on a
/// scatter: the diffuse kinds sample their texture at the hit, a
/// metal uses its fixed albedo, and glass is white.  A light never
/// scatters, so no attenuation is admissible for it.
pub open spec fn spec_att_of(mat: Material, m: Hitrecord, att: Vec3) -> bool {
    match mat {
        Material::Lambertian(l) => att == l.spec_attenuation(m.u as int, m.v as int, m.p),
        Material::Metal(mt) => att == mt.albedo,
        Material::Dielectric(_) => att == (Vec3 { x: SCALE, y: SCALE, z: SCALE }),
        Material::Isotropic(i) => att == i.spec_attenuation(m.u as int, m.v as int, m.p),
        Material::Diffuselight(_) => false,
    }
}

/// What the integrator owes for a media-free scene with a positive
/// bounce budget: a miss is the clamped background; a hit without a
/// material is black; a light contributes exactly its clamped
/// emission; and any other hit is either the clamped emission alone
/// (the scatter was rejected) or the emission combined with some
/// admissible attenuation and a bounce within the integrator's own
/// bounds, black when the budget is spent.
pub open spec fn ray_color_post(
    objs: Seq<crate::hittable_list::Object>,
    r: Ray,
    bg: Vec3,
    depth: int,
    out: Vec3,
) -> bool {
    match spec_scan(objs, r, T_EPS as int, T_FAR as int) {
        None => out == spec_clamp3(bg),
        Some(m) => match m.mat_ptr {
            None => out == (Vec3 { x: 0, y: 0, z: 0 }),
            Some(mat) => {
                let e = spec_emitted(*mat, m.u as int, m.v as int, m.p);
                &&& ((*mat) is Diffuselight ==> out == spec_clamp3(e))
                &&& (out == spec_clamp3(e) || exists|att: Vec3, bounce: Vec3|
                    #[trigger] spec_combine(e, att, bounce) == out && spec_att_of(*mat, m, att)
                        && bounce.nonneg() && bounce.x <= CLMAX && bounce.y <= CLMAX && bounce.z
                        <= CLMAX && (depth <= 1 ==> bounce == (Vec3 { x: 0, y: 0, z: 0 })))
            },
        },
    }
}

/// A radiance channel clamped into `[0, CLMAX]`.
pub open spec fn spec_clamp_ch(x: int) -> int {
    if x < 0 {
        0
    } else if x > CLMAX {
        CLMAX as int
    } else {
        x
    }
}

/// Clamps one radiance channel.
fn clamp_ch(x: i64) -> (r: i64)
    ensures
        r == spec_clamp_ch(x as int),
        0 <= r <= CLMAX,
{
    if x < 0 {
        0
    } else if x > CLMAX {
        CLMAX
    } else {
        x
    }
}

/// A color with every channel clamped.
fn clamp_color(c: &Color) -> (r: Color)
    ensures
        r == spec_clamp3(*c),
        r.nonneg(),
        r.x <= CLMAX && r.y <= CLMAX && r.z <= CLMAX,
{
    Vec3 { x: clamp_ch(c.x), y: clamp_ch(c.y), z: clamp_ch(c.z) }
}

/// Whether a ray is within the intersectable bounds.
fn ray_ok(r: &Ray) -> (res: bool)
    ensures
        res == ray_wf(*r),
{
    -0x2_0000_0000 <= r.orig.x && r.orig.x <= 0x2_0000_0000 && -0x2_0000_0000 <= r.orig.y
        && r.orig.y <= 0x2_0000_0000 && -0x2_0000_0000 <= r.orig.z && r.orig.z <= 0x2_0000_0000
        && -0x800_0000 <= r.dir.x && r.dir.x <= 0x800_0000 && -0x800_0000 <= r.dir.y && r.dir.y
        <= 0x800_0000 && -0x800_0000 <= r.dir.z && r.dir.z <= 0x800_0000 && -0x10_0000_0000
        <= r.tm && r.tm <= 0x10_0000_0000
}

/// The recursive radiance estimate.
///
/// An exhausted bounce budget is exactly black; a miss is the
/// clamped background; a hit adds the material's emission to the
/// attenuated radiance of the scattered ray.  The result never has
/// a negative channel, whatever the scene.
pub fn ray_color(r: &Ray, background: &Color, world: &Hittablelist, depth: i32) -> (out: Color)
    requires
        world.wf(),
        background.nonneg(),
    ensures
        depth <= 0 ==> out == (Vec3 { x: 0, y: 0, z: 0 }),
        out.nonneg(),
        out.x <= CLMAX && out.y <= CLMAX && out.z <= CLMAX,
        depth > 0 && ray_wf(*r) && list_no_media(world.objects@) ==> ray_color_post(
            world.objects@,
            *r,
            *background,
            depth as int,
            out,
        ),
    decreases depth,
{
    if depth <= 0 {
        return Vec3 { x: 0, y: 0, z: 0 };
    }
    if !ray_ok(r) {
        return Vec3 { x: 0, y: 0, z: 0 };
    }
    let ghost objs = world.objects@;
    let ghost sm = spec_scan(objs, *r, T_EPS as int, T_FAR as int);
    let rec = match world.hit(r, T_EPS, T_FAR) {
        None => {
            return clamp_color(background);
        },
        Some(rec) => rec,
    };
    let mat = match &rec.mat_ptr {
        None => {
            return Vec3 { x: 0, y: 0, z: 0 };
        },
        Some(m) => m,
    };
    proof {
        if list_no_media(objs) {
            assert(sm matches Some(srec) && rec_matches(rec, srec));
            let srec = sm->0;
            if rec.mat_ptr is Some && srec.mat_ptr is Some {
                lemma_mat_eq_sem(
                    *rec.mat_ptr->0,
                    *srec.mat_ptr->0,
                    rec.u as int,
                    rec.v as int,
                    rec.p,
                );
            }
        }
    }
    let emitted = mat.emitted(rec.u, rec.v, &rec.p);
    match mat.scatter(r, &rec) {
        None => clamp_color(&emitted),
        Some((attenuation, scattered)) => {
            let bounced = ray_color(&scattered, background, world, depth - 1);
            proof {
                crate::fixed::lemma_fmul_range(
                    attenuation.x as int,
                    bounced.x as int,
                    0x1_0001_0000,
                    CLMAX as int,
                    0x1_0001_0000_0000i128 as int,
                );
                crate::fixed::lemma_fmul_range(
                    attenuation.y as int,
                    bounced.y as int,
                    0x1_0001_0000,
                    CLMAX as int,
                    0x1_0001_0000_0000i128 as int,
                );
                crate::fixed::lemma_fmul_range(
                    attenuation.z as int,
                    bounced.z as int,
                    0x1_0001_0000,
                    CLMAX as int,
                    0x1_0001_0000_0000i128 as int,
                );
                lemma_att_nonneg(attenuation.x as int, bounced.x as int);
                lemma_att_nonneg(attenuation.y as int, bounced.y as int);
                lemma_att_nonneg(attenuation.z as int, bounced.z as int);
            }
            let cx = emitted.x + mul_fx(attenuation.x, bounced.x);
            let cy = emitted.y + mul_fx(attenuation.y, bounced.y);
            let cz = emitted.z + mul_fx(attenuation.z, bounced.z);
            let out = clamp_color(&Vec3 { x: cx, y: cy, z: cz });
            proof {
                if list_no_media(objs) {
                    let srec = sm->0;
                    let om = srec.mat_ptr->0;
                    let e = spec_emitted(*om, srec.u as int, srec.v as int, srec.p);
                    assert(spec_combine(e, attenuation, bounced) == out);
                }
            }
            out
        },
    }
}

/// A rescaled product of non-negative channels is non-negative.
proof fn lemma_att_nonneg(a: int, c: int)
    requires
        0 <= a,
        0 <= c,
    ensures
        0 <= fmul(a, c),
{
    assert(0 <= a * c) by (nonlinear_arith)
        requires
            0 <= a,
            0 <= c,
    ;
    vstd::arithmetic::div_mod::lemma_fundamental_div_mod(a * c, 65536);
}

/// Averages a summed pixel, applies the square-root gamma step and
/// rescales each channel into a byte.
pub fn calc_color(sum: &Color, samples_per_pixel: u32) -> (r: [u8; 3])
    requires
        1 <= samples_per_pixel <= 4096,
        sum.nonneg(),
        sum.x <= 0x1000_0000_0000,
        sum.y <= 0x1000_0000_0000,
        sum.z <= 0x1000_0000_0000,
    ensures
        r@[0] == spec_channel_byte(sum.x as int, samples_per_pixel as int),
        r@[1] == spec_channel_byte(sum.y as int, samples_per_pixel as int),
        r@[2] == spec_channel_byte(sum.z as int, samples_per_pixel as int),
{
    let b0 = channel_byte(sum.x, samples_per_pixel);
    let b1 = channel_byte(sum.y, samples_per_pixel);
    let b2 = channel_byte(sum.z, samples_per_pixel);
    let out: [u8; 3] = [b0, b1, b2];
    proof {
        assert(out@[0] == b0 && out@[1] == b1 && out@[2] == b2);
    }
    out
}

/// What one output byte is: the gamma-corrected average, clamped to
/// just under one, then spread over 256 steps.
pub open spec fn spec_channel_byte(sum: int, samples: int) -> int {
    let avg = sum / samples;
    let g = crate::fixed::sqrt_floor(avg * (SCALE as int));
    let cl = if g > 65535 {
        65535
    } else {
        g
    };
    cl / 256
}

/// Computes one output byte.
fn channel_byte(sum: i64, samples: u32) -> (r: u8)
    requires
        1 <= samples <= 4096,
        0 <= sum <= 0x1000_0000_0000,
    ensures
        r == spec_channel_byte(sum as int, samples as int),
{
    let avg = div_floor(sum as i128, samples as i128);
    proof {
        assert(0 <= avg <= 0x1000_0000_0000);
    }
    let g = isqrt((avg * 65536) as u128);
    proof {
        assert((avg * 65536) as u128 == avg * 65536);
    }
    let cl: i64 = if g > 65535 {
        65535
    } else {
        g as i64
    };
    let b = div_floor(cl as i128, 256);
    b as u8
}

/// The sum an empty scene owes every pixel: each sample sees the
/// clamped background.
pub open spec fn spec_bg_pixel(bg: Vec3, samples: int) -> Vec3 {
    Vec3 {
        x: (samples * spec_clamp_ch(bg.x as int)) as i64,
        y: (samples * spec_clamp_ch(bg.y as int)) as i64,
        z: (samples * spec_clamp_ch(bg.z as int)) as i64,
    }
}

/// Renders one horizontal band of the image: for every pixel, the
/// average of many jittered samples, delivered in row order.  On an
/// empty scene every pixel is exactly the sample count times the
/// clamped background.
pub fn render_band(
    cam: &Camera,
    world: &Hittablelist,
    background: &Color,
    image_width: u32,
    image_height: u32,
    line_beg: u32,
    line_end: u32,
    samples_per_pixel: u32,
    max_depth: i32,
) -> (out: Vec<Color>)
    requires
        cam.wf(),
        world.wf(),
        background.nonneg(),
        2 <= image_width <= 0x4000,
        2 <= image_height <= 0x4000,
        line_beg <= line_end <= image_height,
        1 <= samples_per_pixel <= 1024,
    ensures
        out@.len() == (line_end - line_beg) * image_width,
        forall|i: int|
            0 <= i < out@.len() ==> (#[trigger] out@[i]).nonneg() && out@[i].x
                <= 0x1000_0000_0000 && out@[i].y <= 0x1000_0000_0000 && out@[i].z
                <= 0x1000_0000_0000,
        world.objects@.len() == 0 && max_depth >= 1 ==> forall|i: int|
            0 <= i < out@.len() ==> #[trigger] out@[i] == spec_bg_pixel(
                *background,
                samples_per_pixel as int,
            ),
{
    let mut out: Vec<Color> = Vec::new();
    let mut y = line_beg;
    while y < line_end
        invariant
            line_beg <= y <= line_end,
            out@.len() == (y - line_beg) * image_width,
            cam.wf(),
            world.wf(),
            background.nonneg(),
            2 <= image_width <= 0x4000,
            2 <= image_height <= 0x4000,
            line_end <= image_height,
            1 <= samples_per_pixel <= 1024,
            forall|i: int|
                0 <= i < out@.len() ==> (#[trigger] out@[i]).nonneg() && out@[i].x
                    <= 0x1000_0000_0000 && out@[i].y <= 0x1000_0000_0000 && out@[i].z
                    <= 0x1000_0000_0000,
            world.objects@.len() == 0 && max_depth >= 1 ==> forall|i: int|
                0 <= i < out@.len() ==> #[trigger] out@[i] == spec_bg_pixel(
                    *background,
                    samples_per_pixel as int,
                ),
        decreases line_end - y,
    {
        let mut x: u32 = 0;
        while x < image_width
            invariant
                0 <= x <= image_width,
                line_beg <= y < line_end,
                out@.len() == (y - line_beg) * image_width + x,
                cam.wf(),
                world.wf(),
                background.nonneg(),
                2 <= image_width <= 0x4000,
                2 <= image_height <= 0x4000,
                line_end <= image_height,
                1 <= samples_per_pixel <= 1024,
                forall|i: int|
                    0 <= i < out@.len() ==> (#[trigger] out@[i]).nonneg() && out@[i].x
                        <= 0x1000_0000_0000 && out@[i].y <= 0x1000_0000_0000 && out@[i].z
                        <= 0x1000_0000_0000,
                world.objects@.len() == 0 && max_depth >= 1 ==> forall|i: int|
                    0 <= i < out@.len() ==> #[trigger] out@[i] == spec_bg_pixel(
                        *background,
                        samples_per_pixel as int,
                    ),
            decreases image_width - x,
        {
            let mut pixel = Vec3 { x: 0i64, y: 0i64, z: 0i64 };
            let mut s: u32 = 0;
            while s < samples_per_pixel
                invariant
                    0 <= s <= samples_per_pixel,
                    samples_per_pixel <= 1024,
                    pixel.nonneg(),
                    pixel.x <= s * 0x1_0000_0000i64,
                    pixel.y <= s * 0x1_0000_0000i64,
                    pixel.z <= s * 0x1_0000_0000i64,
                    cam.wf(),
                    world.wf(),
                    background.nonneg(),
                    2 <= image_width <= 0x4000,
                    2 <= image_height <= 0x4000,
                    line_beg <= y < line_end <= image_height,
                    0 <= x < image_width,
                    world.objects@.len() == 0 && max_depth >= 1 ==> pixel == spec_bg_pixel(
                        *background,
                        s as int,
                    ),
                decreases samples_per_pixel - s,
            {
                let u = sample_coord(x, image_width);
                let v = sample_coord(y, image_height);
                let ray = cam.get_ray(u, v);
                let c = ray_color(&ray, background, world, max_depth);
                proof {
                    assert(pixel.x + c.x <= (s + 1) * 0x1_0000_0000i64 && pixel.y + c.y <= (s
                        + 1) * 0x1_0000_0000i64 && pixel.z + c.z <= (s + 1)
                        * 0x1_0000_0000i64) by (nonlinear_arith)
                        requires
                            s <= 1024,
                            pixel.x <= s * 0x1_0000_0000i64,
                            pixel.y <= s * 0x1_0000_0000i64,
                            pixel.z <= s * 0x1_0000_0000i64,
                            0 <= c.x <= 0x1_0000_0000,
                            0 <= c.y <= 0x1_0000_0000,
                            0 <= c.z <= 0x1_0000_0000,
                            0 <= pixel.x && 0 <= pixel.y && 0 <= pixel.z,
                    ;
                }
                pixel = Vec3 { x: pixel.x + c.x, y: pixel.y + c.y, z: pixel.z + c.z };
                proof {
                    if world.objects@.len() == 0 && max_depth >= 1 {
                        assert(list_no_media(world.objects@));
                        assert(spec_scan(world.objects@, ray, T_EPS as int, T_FAR as int)
                            is None);
                        assert(c == spec_clamp3(*background));
                        let cbx = spec_clamp_ch(background.x as int);
                        let cby = spec_clamp_ch(background.y as int);
                        let cbz = spec_clamp_ch(background.z as int);
                        assert((s + 1) * cbx == s * cbx + cbx && (s + 1) * cby == s * cby + cby
                            && (s + 1) * cbz == s * cbz + cbz && 0 <= (s + 1) * cbx
                            <= 0x401_0000_0000_0000 && 0 <= (s + 1) * cby
                            <= 0x401_0000_0000_0000 && 0 <= (s + 1) * cbz
                            <= 0x401_0000_0000_0000) by (nonlinear_arith)
                            requires
                                0 <= s <= 1024,
                                0 <= cbx <= 0x1_0000_0000,
                                0 <= cby <= 0x1_0000_0000,
                                0 <= cbz <= 0x1_0000_0000,
                        ;
                        assert(pixel == spec_bg_pixel(*background, s + 1));
                    }
                }
                s = s + 1;
            }
            proof {
                assert(pixel.x <= 0x400_0000_0000 && pixel.y <= 0x400_0000_0000 && pixel.z
                    <= 0x400_0000_0000) by (nonlinear_arith)
                    requires
                        s <= 1024,
                        pixel.x <= s * 0x1_0000_0000i64,
                        pixel.y <= s * 0x1_0000_0000i64,
                        pixel.z <= s * 0x1_0000_0000i64,
                ;
            }
            out.push(pixel);
            x = x + 1;
        }
        proof {
            assert((y + 1 - line_beg) * image_width == (y - line_beg) * image_width
                + image_width) by (nonlinear_arith);
        }
        y = y + 1;
    }
    proof {
        assert(out@.len() == (line_end - line_beg) * image_width);
    }
    out
}

/// The jittered normalized coordinate of a pixel index.
fn sample_coord(i: u32, extent: u32) -> (r: i64)
    requires
        2 <= extent <= 0x4000,
        i < extent,
    ensures
        0 <= r <= SCALE,
{
    let jitter = rng::random_fx_unit();
    let num: i128 = (i as i128) * 65536 + (jitter as i128);
    let den: i128 = (extent as i128 - 1) * 65536;
    let q = div_floor(num, den);
    proof {
        assert(0 <= q <= 65536) by (nonlinear_arith)
            requires
                1 <= den,
                0 <= num,
                num <= den * 65536,
                den * q <= num < den * (q + 1),
        ;
    }
    q as i64
}

} // verus!
