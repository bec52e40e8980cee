//! The reflective material.

use vstd::prelude::*;
use crate::fixed::{fx_ok, fmul, div_floor, SCALE};
use crate::vec3::{Vec3, Color};
use crate::ray::Ray;
use crate::hittable::Hitrecord;

verus! {

pub struct Metal {
    pub albedo: Color,
    pub fuzz: i64,
}

/// The mirror reflection of `v` about the near-unit normal `n`:
/// `v` minus twice its normal component.
pub open spec fn spec_reflect(v: Vec3, n: Vec3) -> Vec3 {
    let f = (2 * Vec3::spec_dot(v, n)) / (SCALE as int);
    Vec3 {
        x: (v.x - fmul(f, n.x as int)) as i64,
        y: (v.y - fmul(f, n.y as int)) as i64,
        z: (v.z - fmul(f, n.z as int)) as i64,
    }
}

/// Computes the reflection of a ray direction about a normal.
pub fn reflect(v: &Vec3, n: &Vec3) -> (r: Vec3)
    requires
        -0x800_0000 <= v.x <= 0x800_0000,
        -0x800_0000 <= v.y <= 0x800_0000,
        -0x800_0000 <= v.z <= 0x800_0000,
        -0x4_0000 <= n.x <= 0x4_0000,
        -0x4_0000 <= n.y <= 0x4_0000,
        -0x4_0000 <= n.z <= 0x4_0000,
    ensures
        r == spec_reflect(*v, *n),
        -0x4_0000_0000 <= r.x <= 0x4_0000_0000,
        -0x4_0000_0000 <= r.y <= 0x4_0000_0000,
        -0x4_0000_0000 <= r.z <= 0x4_0000_0000,
{
    let d = Vec3::dot(v, n);
    proof {
        crate::vec3::lemma_mul_bound2(v.x as int, n.x as int, 0x800_0000, 0x4_0000);
        crate::vec3::lemma_mul_bound2(v.y as int, n.y as int, 0x800_0000, 0x4_0000);
        crate::vec3::lemma_mul_bound2(v.z as int, n.z as int, 0x800_0000, 0x4_0000);
        assert(-0x6000_0000_0000i128 <= d <= 0x6000_0000_0000i128);
    }
    let f0 = div_floor(2 * d, 65536);
    let f = f0 as i64;
    proof {
        assert(fx_ok(f as int));
    }
    proof {
        crate::fixed::lemma_fmul_range(f as int, n.x as int, 0xC000_0001, 0x4_0000, 0x3_0000_1000);
        crate::fixed::lemma_fmul_range(f as int, n.y as int, 0xC000_0001, 0x4_0000, 0x3_0000_1000);
        crate::fixed::lemma_fmul_range(f as int, n.z as int, 0xC000_0001, 0x4_0000, 0x3_0000_1000);
    }
    let rx = v.x - crate::fixed::mul_fx(f, n.x);
    let ry = v.y - crate::fixed::mul_fx(f, n.y);
    let rz = v.z - crate::fixed::mul_fx(f, n.z);
    Vec3 { x: rx, y: ry, z: rz }
}

impl Metal {
    pub open spec fn wf(self) -> bool {
        self.albedo.nonneg() && self.albedo.x <= 0x1_0000_0000 && self.albedo.y <= 0x1_0000_0000
            && self.albedo.z <= 0x1_0000_0000 && 0 <= self.fuzz <= SCALE
    }

    pub fn new(a: &Color, f: i64) -> (r: Metal)
        ensures
            r.albedo == *a,
            r.fuzz == f,
    {
        Metal { albedo: a.copy(), fuzz: f }
    }

    pub fn copy(&self) -> (r: Metal)
        ensures
            r == *self,
    {
        Metal { albedo: self.albedo.copy(), fuzz: self.fuzz }
    }

    /// Reflects the incoming ray, fuzzed by a random interior
    /// vector; scatters only while the result still leaves the
    /// surface.  With zero fuzz the outcome is exactly the mirror
    /// reflection.
    pub fn scatter(&self, r_in: &Ray, rec: &Hitrecord) -> (res: Option<(Color, Ray)>)
        requires
            self.wf(),
            rec.bounded(),
            -0x800_0000 <= r_in.dir.x <= 0x800_0000,
            -0x800_0000 <= r_in.dir.y <= 0x800_0000,
            -0x800_0000 <= r_in.dir.z <= 0x800_0000,
        ensures
            res matches Some((att, sc)) ==> att == self.albedo && sc.orig == rec.p && sc.tm
                == r_in.tm && Vec3::spec_dot(sc.dir, rec.normal) > 0 && -0x4_0100_0000 <= sc.dir.x
                <= 0x4_0100_0000 && -0x4_0100_0000 <= sc.dir.y <= 0x4_0100_0000 && -0x4_0100_0000
                <= sc.dir.z <= 0x4_0100_0000,
            self.fuzz == 0 ==> (res is Some <==> Vec3::spec_dot(
                spec_reflect(r_in.dir, rec.normal),
                rec.normal,
            ) > 0),
            self.fuzz == 0 ==> (res matches Some((att, sc)) ==> sc.dir == spec_reflect(
                r_in.dir,
                rec.normal,
            )),
    {
        let reflected = reflect(&r_in.direction(), &rec.normal);
        let sph = Vec3::random_in_unit_sphere();
        let fz = sph.scale(self.fuzz);
        proof {
            crate::fixed::lemma_fmul_le(sph.x as int, self.fuzz as int, 65536);
            crate::fixed::lemma_fmul_le(sph.y as int, self.fuzz as int, 65536);
            crate::fixed::lemma_fmul_le(sph.z as int, self.fuzz as int, 65536);
            if self.fuzz == 0 {
                assert((sph.x as int) * 0 == 0 && (sph.y as int) * 0 == 0 && (sph.z as int) * 0
                    == 0) by (nonlinear_arith);
                assert(fz.x == 0 && fz.y == 0 && fz.z == 0);
            }
        }
        let dir = reflected.add(&fz);
        let d = Vec3::dot(&dir, &rec.normal);
        if d > 0 {
            Some((self.albedo.copy(), Ray::new(&rec.p, &dir, r_in.tm)))
        } else {
            None
        }
    }
}

} // verus!
