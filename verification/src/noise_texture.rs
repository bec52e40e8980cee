//! The marble-like texture built on gradient noise.

use vstd::prelude::*;
use crate::fixed::{fx_ok, fmul, mul_fx, FXMAX, SCALE};
use crate::func::{sin_fx, spec_sin};
use crate::perlin::Perlin;
use crate::vec3::{Vec3, Color, Point3};

verus! {

pub struct Noisetexture {
    pub noise: Perlin,
    pub scale: i64,
}

/// A coordinate clamped into the turbulence domain.
pub open spec fn spec_turb_coord(x: int) -> int {
    if x > 0x40_0000_0000 {
        0x40_0000_0000
    } else if x < -0x40_0000_0000 {
        -0x40_0000_0000
    } else {
        x
    }
}

/// The sine argument, clamped into the sine's domain.
pub open spec fn spec_phase_clamp(x: int) -> int {
    if x > FXMAX {
        FXMAX as int
    } else if x < -FXMAX {
        -FXMAX as int
    } else {
        x
    }
}

impl Noisetexture {
    pub open spec fn wf(self) -> bool {
        self.noise.wf() && fx_ok(self.scale as int)
    }

    pub fn default_new() -> (r: Noisetexture)
        ensures
            r.wf(),
            r.scale == 0,
    {
        Noisetexture { noise: Perlin::default_new(), scale: 0 }
    }

    pub fn new(sc: i64) -> (r: Noisetexture)
        requires
            fx_ok(sc as int),
        ensures
            r.wf(),
            r.scale == sc,
    {
        Noisetexture { noise: Perlin::default_new(), scale: sc }
    }

    pub fn copy(&self) -> (r: Noisetexture)
        ensures
            r.noise.ranvec@ == self.noise.ranvec@,
            r.noise.perm_x@ == self.noise.perm_x@,
            r.noise.perm_y@ == self.noise.perm_y@,
            r.noise.perm_z@ == self.noise.perm_z@,
            r.scale == self.scale,
            self.wf() ==> r.wf(),
    {
        Noisetexture { noise: self.noise.copy(), scale: self.scale }
    }

    /// The point clamped into the turbulence domain.
    pub open spec fn spec_turb_point(p: Vec3) -> Vec3 {
        Vec3 {
            x: spec_turb_coord(p.x as int) as i64,
            y: spec_turb_coord(p.y as int) as i64,
            z: spec_turb_coord(p.z as int) as i64,
        }
    }

    /// The turbulence magnitude at the clamped point.
    pub open spec fn spec_turb_at(self, p: Vec3) -> int {
        let t = self.noise.spec_turb(Self::spec_turb_point(p), 7);
        if t >= 0 {
            t
        } else {
            -t
        }
    }

    /// The sampled gray level: half of one plus the sine of ten
    /// times the turbulence plus the scaled depth coordinate.
    pub open spec fn spec_gray(self, p: Vec3) -> int {
        let phase = spec_phase_clamp(
            10 * self.spec_turb_at(p) + fmul(self.scale as int, spec_turb_coord(p.z as int)),
        );
        ((SCALE as int) + spec_sin(phase)) / 2
    }

    /// The sampled color: the gray level on every channel.
    pub fn value(&self, u: i64, v: i64, p: &Point3) -> (r: Color)
        requires
            self.wf(),
        ensures
            r.x == self.spec_gray(*p),
            r.y == self.spec_gray(*p),
            r.z == self.spec_gray(*p),
            0 <= r.x <= SCALE,
    {
        let cp = Vec3 {
            x: turb_coord(p.x),
            y: turb_coord(p.y),
            z: turb_coord(p.z),
        };
        let t = self.noise.turb(&cp, 7);
        let zc = mul_fx(self.scale, cp.z);
        let raw = 10 * t + zc;
        let phase: i64 = if raw > FXMAX {
            FXMAX
        } else if raw < -FXMAX {
            -FXMAX
        } else {
            raw
        };
        let s = sin_fx(phase);
        let g = crate::fixed::div_floor((SCALE as i128) + (s as i128), 2) as i64;
        Vec3 { x: g, y: g, z: g }
    }
}

/// Clamps a coordinate into the turbulence domain.
fn turb_coord(x: i64) -> (r: i64)
    ensures
        r == spec_turb_coord(x as int),
        -0x40_0000_0000 <= r <= 0x40_0000_0000,
{
    if x > 0x40_0000_0000 {
        0x40_0000_0000
    } else if x < -0x40_0000_0000 {
        -0x40_0000_0000
    } else {
        x
    }
}

} // verus!
