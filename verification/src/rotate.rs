//! The rotation wrapper: turns a child object about the vertical
//! axis, with the turned box precomputed at construction.

use vstd::prelude::*;
use crate::fixed::{fx_ok, div_floor, SCALE};
use crate::func::{sin_fx, cos_fx, degrees_to_radians, spec_sin, spec_cos, spec_degrees_to_radians, QPI_FX};
use crate::vec3::{Vec3, Point3, VMAX};
use crate::aabb::Aabb;
use crate::hittable_list::{Object, obj_wf, obj_box, lemma_obj_box_bounded, box_bounded, BBMAX};

verus! {

pub struct RotateY {
    pub ptr: Option<Box<Object>>,
    pub sin_theta: i64,
    pub cos_theta: i64,
    pub hasbox: bool,
    pub bbox: Aabb,
}

impl RotateY {
    pub fn default_new() -> (r: RotateY)
        ensures
            r.ptr is None,
            r.sin_theta == 0,
            r.cos_theta == SCALE,
            !r.hasbox,
    {
        RotateY {
            ptr: None,
            sin_theta: 0,
            cos_theta: SCALE,
            hasbox: false,
            bbox: Aabb::default_new(),
        }
    }
}

/// The smaller of two mathematical integers.
pub open spec fn rmin(a: int, b: int) -> int {
    if a < b {
        a
    } else {
        b
    }
}

/// The larger of two mathematical integers.
pub open spec fn rmax(a: int, b: int) -> int {
    if a > b {
        a
    } else {
        b
    }
}

/// A turned corner clamped into the tree range.
pub open spec fn spec_clamp_corner(x: int) -> int {
    if x > crate::hittable_list::BBMAX {
        crate::hittable_list::BBMAX as int
    } else if x < -crate::hittable_list::BBMAX {
        -crate::hittable_list::BBMAX as int
    } else {
        x
    }
}

/// The turned box of a child box: the extents of its four corner
/// pairs rotated by the stored angle, padded by one parameter step
/// and clamped into the tree range; the vertical axis passes
/// through.
pub open spec fn spec_rot_box(c: int, s: int, b: Aabb) -> Aabb {
    let c00 = spec_rot(c, s, b.minimum.x as int, b.minimum.z as int);
    let c01 = spec_rot(c, s, b.minimum.x as int, b.maximum.z as int);
    let c10 = spec_rot(c, s, b.maximum.x as int, b.minimum.z as int);
    let c11 = spec_rot(c, s, b.maximum.x as int, b.maximum.z as int);
    let x00 = spec_clamp_corner(c00.0);
    let x01 = spec_clamp_corner(c01.0);
    let x10 = spec_clamp_corner(c10.0);
    let x11 = spec_clamp_corner(c11.0);
    let z00 = spec_clamp_corner(c00.1);
    let z01 = spec_clamp_corner(c01.1);
    let z10 = spec_clamp_corner(c10.1);
    let z11 = spec_clamp_corner(c11.1);
    Aabb {
        minimum: Vec3 {
            x: spec_clamp_corner(rmin(rmin(rmin(x00, x01), x10), x11) - 2048) as i64,
            y: b.minimum.y,
            z: spec_clamp_corner(rmin(rmin(rmin(z00, z01), z10), z11) - 2048) as i64,
        },
        maximum: Vec3 {
            x: spec_clamp_corner(rmax(rmax(rmax(x00, x01), x10), x11) + 2048) as i64,
            y: b.maximum.y,
            z: spec_clamp_corner(rmax(rmax(rmax(z00, z01), z10), z11) + 2048) as i64,
        },
    }
}

impl RotateY {
    /// Builds the wrapper: the sine and cosine of the angle are
    /// fixed at construction, and the child's box corners are
    /// rotated to find the turned box.
    pub fn new(p: Option<Box<Object>>, angle: i64) -> (r: RotateY)
        requires
            -360 * SCALE <= angle <= 360 * SCALE,
            match p {
                Some(c) => obj_wf(*c),
                None => true,
            },
        ensures
            r.ptr == p,
            r.sin_theta == spec_sin(spec_degrees_to_radians(angle as int)),
            r.cos_theta == spec_cos(spec_degrees_to_radians(angle as int)),
            obj_wf(Object::RotateY(r)),
            r.hasbox == (match p {
                Some(c) => obj_box(*c) is Some,
                None => false,
            }),
            match p {
                Some(c) => (match obj_box(*c) {
                    Some(b) => r.bbox == spec_rot_box(r.cos_theta as int, r.sin_theta as int, b),
                    None => true,
                }),
                None => true,
            },
    {
        let radians = degrees_to_radians(angle);
        let sin_theta = sin_fx(radians);
        proof {
            assert(radians + 2 * QPI_FX <= crate::fixed::FXMAX);
        }
        let cos_theta = cos_fx(radians);
        let (hasbox, bbox): (bool, Aabb) = match &p {
            Some(c) => {
                proof {
                    lemma_obj_box_bounded(**c);
                }
                match c.boundingbox(0, SCALE) {
                    Some(b) => {
                        let r00 = rot_pair(cos_theta, sin_theta, b.minimum.x, b.minimum.z);
                        let r01 = rot_pair(cos_theta, sin_theta, b.minimum.x, b.maximum.z);
                        let r10 = rot_pair(cos_theta, sin_theta, b.maximum.x, b.minimum.z);
                        let r11 = rot_pair(cos_theta, sin_theta, b.maximum.x, b.maximum.z);
                        let x00 = clamp_corner(r00.0);
                        let x01 = clamp_corner(r01.0);
                        let x10 = clamp_corner(r10.0);
                        let x11 = clamp_corner(r11.0);
                        let z00 = clamp_corner(r00.1);
                        let z01 = clamp_corner(r01.1);
                        let z10 = clamp_corner(r10.1);
                        let z11 = clamp_corner(r11.1);
                        let minx = crate::func::fmin(
                            crate::func::fmin(crate::func::fmin(x00, x01), x10),
                            x11,
                        );
                        let minz = crate::func::fmin(
                            crate::func::fmin(crate::func::fmin(z00, z01), z10),
                            z11,
                        );
                        let maxx = crate::func::fmax(
                            crate::func::fmax(crate::func::fmax(x00, x01), x10),
                            x11,
                        );
                        let maxz = crate::func::fmax(
                            crate::func::fmax(crate::func::fmax(z00, z01), z10),
                            z11,
                        );
                        (
                            true,
                            Aabb {
                                minimum: Vec3 {
                                    x: clamp_corner(minx - 2048),
                                    y: b.minimum.y,
                                    z: clamp_corner(minz - 2048),
                                },
                                maximum: Vec3 {
                                    x: clamp_corner(maxx + 2048),
                                    y: b.maximum.y,
                                    z: clamp_corner(maxz + 2048),
                                },
                            },
                        )
                    },
                    None => (false, Aabb::default_new()),
                }
            },
            None => (false, Aabb::default_new()),
        };
        RotateY { ptr: p, sin_theta, cos_theta, hasbox, bbox }
    }

    pub fn copy(&self) -> (r: RotateY)
        ensures
            r.sin_theta == self.sin_theta,
            r.cos_theta == self.cos_theta,
            r.hasbox == self.hasbox,
            r.bbox == self.bbox,
    {
        RotateY {
            ptr: match &self.ptr {
                Some(c) => Some(Box::new(c.copy())),
                None => None,
            },
            sin_theta: self.sin_theta,
            cos_theta: self.cos_theta,
            hasbox: self.hasbox,
            bbox: self.bbox.copy(),
        }
    }
}

/// A turned corner clamped into the tree range.
fn clamp_corner(x: i64) -> (r: i64)
    ensures
        -BBMAX <= r <= BBMAX,
        r == spec_clamp_corner(x as int),
{
    if x > BBMAX {
        BBMAX
    } else if x < -BBMAX {
        -BBMAX
    } else {
        x
    }
}

/// Rotates a coordinate pair by the stored angle: the new first
/// coordinate from the cosine and sine rows, both floors.
pub open spec fn spec_rot(c: int, s: int, x: int, z: int) -> (int, int) {
    ((c * x + s * z) / (SCALE as int), ((-s) * x + c * z) / (SCALE as int))
}

/// Computes the rotation of a coordinate pair.
pub fn rot_pair(c: i64, s: i64, x: i64, z: i64) -> (r: (i64, i64))
    requires
        -SCALE <= c <= SCALE,
        -SCALE <= s <= SCALE,
        -0x8_0000_0000 <= x <= 0x8_0000_0000,
        -0x8_0000_0000 <= z <= 0x8_0000_0000,
    ensures
        r.0 == spec_rot(c as int, s as int, x as int, z as int).0,
        r.1 == spec_rot(c as int, s as int, x as int, z as int).1,
        -0x10_0000_0001 <= r.0 <= 0x10_0000_0000,
        -0x10_0000_0001 <= r.1 <= 0x10_0000_0000,
{
    proof {
        crate::vec3::lemma_mul_bound2(c as int, x as int, 65536, 0x8_0000_0000);
        crate::vec3::lemma_mul_bound2(s as int, z as int, 65536, 0x8_0000_0000);
        crate::vec3::lemma_mul_bound2(-(s as int), x as int, 65536, 0x8_0000_0000);
        crate::vec3::lemma_mul_bound2(c as int, z as int, 65536, 0x8_0000_0000);
    }
    let a = div_floor((c as i128) * (x as i128) + (s as i128) * (z as i128), 65536);
    let b = div_floor((-(s as i128)) * (x as i128) + (c as i128) * (z as i128), 65536);
    (a as i64, b as i64)
}

} // verus!
