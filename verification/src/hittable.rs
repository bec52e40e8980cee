//! The hit record: what an intersection reports.

use vstd::prelude::*;
use crate::vec3::{Vec3, Point3};
use crate::ray::Ray;
use crate::material::Material;

verus! {

/// Largest magnitude a hit point's components may have.
pub const PMAX: i64 = 0x3_0000_0000;

/// Largest magnitude a scene coordinate (center, corner, radius,
/// offset) may have.
pub const WMAX: i64 = 0x1_0000_0000;

/// The bounds a ray must obey before intersection: the origin within
/// four world units of scale, the direction much smaller, so every
/// quadratic term fits in 128 bits.
pub open spec fn ray_wf(r: crate::ray::Ray) -> bool {
    -0x2_0000_0000 <= r.orig.x <= 0x2_0000_0000 && -0x2_0000_0000 <= r.orig.y <= 0x2_0000_0000
        && -0x2_0000_0000 <= r.orig.z <= 0x2_0000_0000 && -0x800_0000 <= r.dir.x <= 0x800_0000
        && -0x800_0000 <= r.dir.y <= 0x800_0000 && -0x800_0000 <= r.dir.z <= 0x800_0000
        && -0x10_0000_0000 <= r.tm <= 0x10_0000_0000
}

/// The bounds a query interval must obey.
pub open spec fn t_range_ok(t0: int, t1: int) -> bool {
    0 <= t0 && t1 <= 0x40_0000_0000
}

/// Well-formedness of an optional material.
pub open spec fn opt_mat_wf(m: Option<Box<Material>>) -> bool {
    match m {
        Some(b) => b.wf(),
        None => true,
    }
}

/// Largest magnitude a surface normal's components may have.
pub const NMAX: i64 = 0x4_0000;

pub struct Hitrecord {
    pub p: Point3,
    pub normal: Vec3,
    pub mat_ptr: Option<Box<Material>>,
    pub t: i64,
    pub u: i64,
    pub v: i64,
    pub front_face: bool,
}

/// Two records that agree on every geometric field and whose
/// materials are equal at view level.
pub open spec fn rec_matches(a: Hitrecord, b: Hitrecord) -> bool {
    a.p == b.p && a.normal == b.normal && a.t == b.t && a.u == b.u && a.v == b.v && a.front_face
        == b.front_face && crate::material::opt_mat_eq(a.mat_ptr, b.mat_ptr)
}

impl Hitrecord {
    /// The bounds every reported hit obeys, so that scattering and
    /// texturing stay in range.
    pub open spec fn bounded(self) -> bool {
        -PMAX <= self.p.x <= PMAX && -PMAX <= self.p.y <= PMAX && -PMAX <= self.p.z <= PMAX
            && -NMAX <= self.normal.x <= NMAX && -NMAX <= self.normal.y <= NMAX && -NMAX
            <= self.normal.z <= NMAX && 0 <= self.u <= 2 * crate::fixed::SCALE && 0 <= self.v <= 2
            * crate::fixed::SCALE
    }

    pub fn default_new() -> (r: Hitrecord)
        ensures
            r.p == (Vec3 { x: 0, y: 0, z: 0 }),
            r.normal == (Vec3 { x: 0, y: 0, z: 0 }),
            r.mat_ptr is None,
            r.t == 0,
            r.u == 0,
            r.v == 0,
            r.front_face == false,
    {
        Hitrecord {
            p: Point3::default_new(),
            normal: Vec3::default_new(),
            mat_ptr: None,
            t: 0,
            u: 0,
            v: 0,
            front_face: false,
        }
    }

    pub fn copy_new(rhs: &Hitrecord) -> (r: Hitrecord)
        ensures
            rec_matches(r, *rhs),
    {
        Hitrecord {
            p: rhs.p.copy(),
            normal: rhs.normal.copy(),
            mat_ptr: crate::material::copy_opt_mat(&rhs.mat_ptr),
            t: rhs.t,
            u: rhs.u,
            v: rhs.v,
            front_face: rhs.front_face,
        }
    }

    pub fn copy(&self) -> (r: Hitrecord)
        ensures
            rec_matches(r, *self),
    {
        Hitrecord::copy_new(self)
    }

    /// What the face-orientation step computes: the stored normal
    /// always faces against the incoming ray.
    pub open spec fn spec_face(r: Ray, outward: Vec3) -> (bool, Vec3) {
        let ff = Vec3::spec_dot(r.dir, outward) < 0;
        (
            ff,
            if ff {
                outward
            } else {
                Vec3 { x: (-outward.x) as i64, y: (-outward.y) as i64, z: (-outward.z) as i64 }
            },
        )
    }

    /// Stores the orientation flag and the against-the-ray normal.
    pub fn set_face_normal(&mut self, r: &Ray, outward_normal: &Vec3)
        requires
            r.dir.lin_ok(),
            outward_normal.lin_ok(),
        ensures
            final(self).front_face == Hitrecord::spec_face(*r, *outward_normal).0,
            final(self).normal == Hitrecord::spec_face(*r, *outward_normal).1,
            final(self).p == old(self).p,
            final(self).mat_ptr == old(self).mat_ptr,
            final(self).t == old(self).t,
            final(self).u == old(self).u,
            final(self).v == old(self).v,
    {
        let d = Vec3::dot(&r.direction(), outward_normal);
        self.front_face = d < 0;
        self.normal = if self.front_face {
            outward_normal.copy()
        } else {
            outward_normal.neg()
        };
    }
}

} // verus!
