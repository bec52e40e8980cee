//! The thin-lens camera: precomputed viewport frame, defocus disk
//! sampling and shutter-time jitter.

use vstd::prelude::*;
use crate::fixed::{fx_ok, fmul, div_fx, mul_fx, SCALE, FXMAX};
use crate::func::{sin_fx, cos_fx, degrees_to_radians};
use crate::vec3::{Vec3, Point3};
use crate::ray::Ray;
use crate::hittable::ray_wf;
use crate::rng;

verus! {

pub struct Camera {
    pub origin: Point3,
    pub lower_left_corner: Point3,
    pub horizontal: Vec3,
    pub vertical: Vec3,
    pub u: Vec3,
    pub v: Vec3,
    pub w: Vec3,
    pub lens_radius: i64,
    pub time0: i64,
    pub time1: i64,
}

/// A coordinate clamped into a symmetric range.
pub open spec fn spec_clamp_to(x: int, m: int) -> int {
    if x > m {
        m
    } else if x < -m {
        -m
    } else {
        x
    }
}

/// Clamps a coordinate into a symmetric range.
fn clamp_to(x: i64, m: i64) -> (r: i64)
    requires
        m >= 0,
    ensures
        r == spec_clamp_to(x as int, m as int),
        -m <= r <= m,
{
    if x > m {
        m
    } else if x < -m {
        -m
    } else {
        x
    }
}

impl Camera {
    /// Every field within the range that keeps generated rays
    /// intersectable.
    pub open spec fn wf(self) -> bool {
        -0x1_0000_0000 <= self.origin.x <= 0x1_0000_0000 && -0x1_0000_0000 <= self.origin.y
            <= 0x1_0000_0000 && -0x1_0000_0000 <= self.origin.z <= 0x1_0000_0000 && -0x2_0000_0000
            <= self.lower_left_corner.x <= 0x2_0000_0000 && -0x2_0000_0000
            <= self.lower_left_corner.y <= 0x2_0000_0000 && -0x2_0000_0000
            <= self.lower_left_corner.z <= 0x2_0000_0000 && -0x100_0000 <= self.horizontal.x
            <= 0x100_0000 && -0x100_0000 <= self.horizontal.y <= 0x100_0000 && -0x100_0000
            <= self.horizontal.z <= 0x100_0000 && -0x100_0000 <= self.vertical.x <= 0x100_0000
            && -0x100_0000 <= self.vertical.y <= 0x100_0000 && -0x100_0000 <= self.vertical.z
            <= 0x100_0000 && -SCALE <= self.u.x <= SCALE && -SCALE <= self.u.y <= SCALE && -SCALE
            <= self.u.z <= SCALE && -SCALE <= self.v.x <= SCALE && -SCALE <= self.v.y <= SCALE
            && -SCALE <= self.v.z <= SCALE && 0 <= self.lens_radius <= SCALE && 0 <= self.time0
            <= self.time1 <= SCALE
    }

    /// Builds the viewport frame from the view parameters.  The
    /// half-height comes from the tangent of half the field of view;
    /// every derived quantity is clamped into the well-formed range.
    pub fn new(
        lookfrom: &Point3,
        lootat: &Point3,
        vup: &Vec3,
        vfov: i64,
        aspect_ratio: i64,
        aperture: i64,
        focus_dist: i64,
        time0: i64,
        time1: i64,
    ) -> (c: Camera)
        requires
            -0x1_0000_0000 <= lookfrom.x <= 0x1_0000_0000,
            -0x1_0000_0000 <= lookfrom.y <= 0x1_0000_0000,
            -0x1_0000_0000 <= lookfrom.z <= 0x1_0000_0000,
            -0x1_0000_0000 <= lootat.x <= 0x1_0000_0000,
            -0x1_0000_0000 <= lootat.y <= 0x1_0000_0000,
            -0x1_0000_0000 <= lootat.z <= 0x1_0000_0000,
            -0x10_0000 <= vup.x <= 0x10_0000,
            -0x10_0000 <= vup.y <= 0x10_0000,
            -0x10_0000 <= vup.z <= 0x10_0000,
            !(vup.x == 0 && vup.y == 0 && vup.z == 0),
            SCALE <= vfov <= 170 * SCALE,
            SCALE / 4 <= aspect_ratio <= 4 * SCALE,
            0 <= aperture <= 2 * SCALE,
            SCALE / 16 <= focus_dist <= 1024 * SCALE,
            0 <= time0 <= time1 <= SCALE,
        ensures
            c.wf(),
            c.origin == *lookfrom,
            c.time0 == time0,
            c.time1 == time1,
    {
        let theta = crate::func::degrees_to_radians(vfov);
        let half = div_fx(theta, 2 * SCALE);
        let s = sin_fx(clamp_to(half, 0x20_0000));
        let co = cos_fx(clamp_to(half, 0x20_0000));
        let h: i64 = if co <= 256 {
            256 * SCALE
        } else {
            clamp_to(div_fx(s, co), 256 * SCALE)
        };
        proof {
            assert(fx_ok(h as int));
        }
        let viewport_height = clamp_to(mul_fx(2 * SCALE, h), 1024 * SCALE);
        let viewport_width = clamp_to(mul_fx(aspect_ratio, viewport_height), 4096 * SCALE);
        let dx = lookfrom.x - lootat.x;
        let dy = lookfrom.y - lootat.y;
        let dz = lookfrom.z - lootat.z;
        let w: Vec3 = if dx == 0 && dy == 0 && dz == 0 {
            Vec3 { x: 0, y: 0, z: SCALE }
        } else {
            Vec3 { x: dx, y: dy, z: dz }.unit_vector()
        };
        let cu = Vec3::cross(vup, &w);
        let u: Vec3 = if cu.x == 0 && cu.y == 0 && cu.z == 0 {
            Vec3 { x: SCALE, y: 0, z: 0 }
        } else {
            proof {
                lemma_cam_cross(*vup, w, cu);
            }
            cu.unit_vector()
        };
        let cv = Vec3::cross(&w, &u);
        proof {
            lemma_cam_cross(w, u, cv);
        }
        let v = Vec3 {
            x: clamp_to(cv.x, 2 * SCALE),
            y: clamp_to(cv.y, 2 * SCALE),
            z: clamp_to(cv.z, 2 * SCALE),
        };
        let vwf = clamp_to(mul_fx(viewport_width, focus_dist), 0x100_0000);
        let vhf = clamp_to(mul_fx(viewport_height, focus_dist), 0x100_0000);
        let hori = Vec3 {
            x: clamp_to(mul_fx(u.x, vwf), 0x100_0000),
            y: clamp_to(mul_fx(u.y, vwf), 0x100_0000),
            z: clamp_to(mul_fx(u.z, vwf), 0x100_0000),
        };
        let vert = Vec3 {
            x: clamp_to(mul_fx(v.x, vhf), 0x100_0000),
            y: clamp_to(mul_fx(v.y, vhf), 0x100_0000),
            z: clamp_to(mul_fx(v.z, vhf), 0x100_0000),
        };
        let wf0 = Vec3 {
            x: clamp_to(mul_fx(w.x, focus_dist), 0x8000_0000),
            y: clamp_to(mul_fx(w.y, focus_dist), 0x8000_0000),
            z: clamp_to(mul_fx(w.z, focus_dist), 0x8000_0000),
        };
        let llc = Vec3 {
            x: clamp_to(lookfrom.x - div2(hori.x) - div2(vert.x) - wf0.x, 0x2_0000_0000),
            y: clamp_to(lookfrom.y - div2(hori.y) - div2(vert.y) - wf0.y, 0x2_0000_0000),
            z: clamp_to(lookfrom.z - div2(hori.z) - div2(vert.z) - wf0.z, 0x2_0000_0000),
        };
        let u2 = Vec3 {
            x: clamp_to(u.x, SCALE),
            y: clamp_to(u.y, SCALE),
            z: clamp_to(u.z, SCALE),
        };
        let v2 = Vec3 {
            x: clamp_to(v.x, SCALE),
            y: clamp_to(v.y, SCALE),
            z: clamp_to(v.z, SCALE),
        };
        Camera {
            origin: lookfrom.copy(),
            lower_left_corner: llc,
            horizontal: hori,
            vertical: vert,
            u: u2,
            v: v2,
            w,
            lens_radius: clamp_to(div_fx(aperture, 2 * SCALE), SCALE),
            time0,
            time1,
        }
    }

    pub fn copy(&self) -> (c: Camera)
        ensures
            c == *self,
    {
        Camera {
            origin: self.origin.copy(),
            lower_left_corner: self.lower_left_corner.copy(),
            horizontal: self.horizontal.copy(),
            vertical: self.vertical.copy(),
            u: self.u.copy(),
            v: self.v.copy(),
            w: self.w.copy(),
            lens_radius: self.lens_radius,
            time0: self.time0,
            time1: self.time1,
        }
    }

    /// A jittered ray through normalized screen coordinates: the
    /// defocus-disk offset moves the origin, the direction points at
    /// the viewport, and the shutter time is drawn from the
    /// interval.  Every generated ray is intersectable.
    pub fn get_ray(&self, s: i64, t: i64) -> (r: Ray)
        requires
            self.wf(),
            0 <= s <= SCALE,
            0 <= t <= SCALE,
        ensures
            ray_wf(r),
            self.time0 <= r.tm <= self.time1,
    {
        let rd = Vec3::random_in_unit_disk();
        let rdx = mul_fx(self.lens_radius, rd.x);
        let rdy = mul_fx(self.lens_radius, rd.y);
        proof {
            crate::fixed::lemma_fmul_le(rd.x as int, self.lens_radius as int, 65536);
            crate::fixed::lemma_fmul_le(rd.y as int, self.lens_radius as int, 65536);
            crate::fixed::lemma_fmul_le(rdx as int, self.u.x as int, 65537);
            crate::fixed::lemma_fmul_le(rdx as int, self.u.y as int, 65537);
            crate::fixed::lemma_fmul_le(rdx as int, self.u.z as int, 65537);
            crate::fixed::lemma_fmul_le(rdy as int, self.v.x as int, 65537);
            crate::fixed::lemma_fmul_le(rdy as int, self.v.y as int, 65537);
            crate::fixed::lemma_fmul_le(rdy as int, self.v.z as int, 65537);
        }
        let offset = Vec3 {
            x: mul_fx(self.u.x, rdx) + mul_fx(self.v.x, rdy),
            y: mul_fx(self.u.y, rdx) + mul_fx(self.v.y, rdy),
            z: mul_fx(self.u.z, rdx) + mul_fx(self.v.z, rdy),
        };
        let ox = clamp_to(self.origin.x + offset.x, 0x2_0000_0000);
        let oy = clamp_to(self.origin.y + offset.y, 0x2_0000_0000);
        let oz = clamp_to(self.origin.z + offset.z, 0x2_0000_0000);
        proof {
            crate::fixed::lemma_fmul_le(self.horizontal.x as int, s as int, 0x100_0000);
            crate::fixed::lemma_fmul_le(self.horizontal.y as int, s as int, 0x100_0000);
            crate::fixed::lemma_fmul_le(self.horizontal.z as int, s as int, 0x100_0000);
            crate::fixed::lemma_fmul_le(self.vertical.x as int, t as int, 0x100_0000);
            crate::fixed::lemma_fmul_le(self.vertical.y as int, t as int, 0x100_0000);
            crate::fixed::lemma_fmul_le(self.vertical.z as int, t as int, 0x100_0000);
        }
        let dx = clamp_to(
            self.lower_left_corner.x + mul_fx(self.horizontal.x, s) + mul_fx(self.vertical.x, t)
                - ox,
            0x800_0000,
        );
        let dy = clamp_to(
            self.lower_left_corner.y + mul_fx(self.horizontal.y, s) + mul_fx(self.vertical.y, t)
                - oy,
            0x800_0000,
        );
        let dz = clamp_to(
            self.lower_left_corner.z + mul_fx(self.horizontal.z, s) + mul_fx(self.vertical.z, t)
                - oz,
            0x800_0000,
        );
        let tm = rng::random_fx_between(self.time0, self.time1);
        Ray { orig: Vec3 { x: ox, y: oy, z: oz }, dir: Vec3 { x: dx, y: dy, z: dz }, tm }
    }
}

/// Halves a coordinate, rounding toward minus infinity.
fn div2(x: i64) -> (r: i64)
    ensures
        -0x8000_0000_0000_0000 <= 2 * r <= 0x7fff_ffff_ffff_ffff,
        r == (x as int) / 2,
{
    crate::fixed::div_floor(x as i128, 2) as i64
}

/// A cross product of two bounded factors stays within the linear
/// range.
proof fn lemma_cam_cross(a: Vec3, b: Vec3, c: Vec3)
    requires
        -0x10_0000 <= a.x <= 0x10_0000,
        -0x10_0000 <= a.y <= 0x10_0000,
        -0x10_0000 <= a.z <= 0x10_0000,
        -0x2_0000 <= b.x <= 0x2_0000,
        -0x2_0000 <= b.y <= 0x2_0000,
        -0x2_0000 <= b.z <= 0x2_0000,
        c == Vec3::spec_cross(a, b),
    ensures
        c.lin_ok(),
        -0x8_0000_0000 <= c.x <= 0x8_0000_0000,
        -0x8_0000_0000 <= c.y <= 0x8_0000_0000,
        -0x8_0000_0000 <= c.z <= 0x8_0000_0000,
{
    crate::vec3::lemma_mul_bound2(a.y as int, b.z as int, 0x10_0000, 0x2_0000);
    crate::vec3::lemma_mul_bound2(a.z as int, b.y as int, 0x10_0000, 0x2_0000);
    crate::vec3::lemma_mul_bound2(a.z as int, b.x as int, 0x10_0000, 0x2_0000);
    crate::vec3::lemma_mul_bound2(a.x as int, b.z as int, 0x10_0000, 0x2_0000);
    crate::vec3::lemma_mul_bound2(a.x as int, b.y as int, 0x10_0000, 0x2_0000);
    crate::vec3::lemma_mul_bound2(a.y as int, b.x as int, 0x10_0000, 0x2_0000);
    lemma_cam_shrink(a.y * b.z - a.z * b.y);
    lemma_cam_shrink(a.z * b.x - a.x * b.z);
    lemma_cam_shrink(a.x * b.y - a.y * b.x);
}

/// Dividing by the scale shrinks a bounded value into the linear
/// range.
proof fn lemma_cam_shrink(x: int)
    requires
        -0x8_0000_0000_0000 <= x <= 0x8_0000_0000_0000,
    ensures
        -0x8_0000_0000 <= x / 65536 <= 0x8_0000_0000,
{
    vstd::arithmetic::div_mod::lemma_fundamental_div_mod(x, 65536);
}

} // verus!
