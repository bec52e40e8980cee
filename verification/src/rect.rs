//! Axis-aligned rectangles in the three orientations.
//!
//! Each rectangle solves for the plane crossing exactly and accepts
//! the hit only when the reached position lies inside the
//! rectangle's slightly padded box, which keeps every reported hit
//! inside its bounding volume.

use vstd::prelude::*;
use crate::fixed::{fx_ok, fmul, fdiv, div_fx, SCALE};
use crate::vec3::{Vec3, Point3};
use crate::ray::Ray;
use crate::aabb::{Aabb, lemma_slab_point};
use crate::hittable::{Hitrecord, rec_matches, ray_wf, t_range_ok, opt_mat_wf, WMAX};
use crate::material::Material;
use crate::sphere::spec_clamp_uv;

verus! {

/// Padding that keeps a primitive's box solid across the quantized
/// parameter grid: one step of the ray parameter moves the reached
/// position by at most `|d|/SCALE <= 0x800_0000/65536 == 2048`
/// units for an admissible direction, so a pad of one full step
/// keeps the quantized parameter of a true hit inside the box.  It
/// plays the role of the small epsilon a real-valued slab test
/// would use, sized for this model's parameter grid.
pub const RECT_PAD: i64 = 2048;

pub struct XYrect {
    pub mp: Option<Box<Material>>,
    pub x0: i64,
    pub x1: i64,
    pub y0: i64,
    pub y1: i64,
    pub k: i64,
}

pub struct XZrect {
    pub mp: Option<Box<Material>>,
    pub x0: i64,
    pub x1: i64,
    pub z0: i64,
    pub z1: i64,
    pub k: i64,
}

pub struct YZrect {
    pub mp: Option<Box<Material>>,
    pub y0: i64,
    pub y1: i64,
    pub z0: i64,
    pub z1: i64,
    pub k: i64,
}

/// The plane-crossing parameter, when the ray advances along the
/// constant axis.
pub open spec fn spec_plane_t(k: int, o: int, d: int) -> Option<i64> {
    if d == 0 {
        None
    } else {
        Some(fdiv(k - o, d) as i64)
    }
}

/// The interpolation coordinate across one extent.
pub open spec fn spec_extent_uv(p: int, lo: int, hi: int) -> int {
    if hi > lo {
        spec_clamp_uv(fdiv(p - lo, hi - lo))
    } else {
        0
    }
}

/// Computes the plane-crossing parameter.
fn plane_t(k: i64, o: i64, d: i64) -> (r: Option<i64>)
    requires
        -WMAX <= k <= WMAX,
        -0x2_0000_0000 <= o <= 0x2_0000_0000,
        -0x800_0000 <= d <= 0x800_0000,
    ensures
        r == spec_plane_t(k as int, o as int, d as int),
{
    if d == 0 {
        None
    } else {
        Some(div_fx(k - o, d))
    }
}

/// Computes the interpolation coordinate across one extent.
fn extent_uv(p: i64, lo: i64, hi: i64) -> (r: i64)
    requires
        -0x4_0000_0000 <= p <= 0x4_0000_0000,
        -WMAX <= lo <= WMAX,
        -WMAX <= hi <= WMAX,
    ensures
        r == spec_extent_uv(p as int, lo as int, hi as int),
        0 <= r <= SCALE,
{
    if hi > lo {
        let q = div_fx(p - lo, hi - lo);
        if q < 0 {
            0
        } else if q > SCALE {
            SCALE
        } else {
            q
        }
    } else {
        0
    }
}

/// View-level equality of two rectangles of the same orientation.
pub open spec fn xyrect_matches(a: XYrect, b: XYrect) -> bool {
    a.x0 == b.x0 && a.x1 == b.x1 && a.y0 == b.y0 && a.y1 == b.y1 && a.k == b.k
        && crate::material::opt_mat_eq(a.mp, b.mp)
}

/// View-level equality of two rectangles of the same orientation.
pub open spec fn xzrect_matches(a: XZrect, b: XZrect) -> bool {
    a.x0 == b.x0 && a.x1 == b.x1 && a.z0 == b.z0 && a.z1 == b.z1 && a.k == b.k
        && crate::material::opt_mat_eq(a.mp, b.mp)
}

/// View-level equality of two rectangles of the same orientation.
pub open spec fn yzrect_matches(a: YZrect, b: YZrect) -> bool {
    a.y0 == b.y0 && a.y1 == b.y1 && a.z0 == b.z0 && a.z1 == b.z1 && a.k == b.k
        && crate::material::opt_mat_eq(a.mp, b.mp)
}

impl XYrect {
    pub open spec fn wf(self) -> bool {
        -WMAX <= self.x0 <= WMAX && -WMAX <= self.x1 <= WMAX && -WMAX <= self.y0 <= WMAX && -WMAX
            <= self.y1 <= WMAX && -WMAX <= self.k <= WMAX && self.x0 <= self.x1 && self.y0
            <= self.y1 && opt_mat_wf(self.mp)
    }

    pub fn default_new() -> (r: XYrect)
        ensures
            r.mp is None,
            r.x0 == 0 && r.x1 == 0 && r.y0 == 0 && r.y1 == 0 && r.k == 0,
    {
        XYrect { mp: None, x0: 0, x1: 0, y0: 0, y1: 0, k: 0 }
    }

    pub fn new(mat: &Option<Box<Material>>, x0: i64, x1: i64, y0: i64, y1: i64, k: i64) -> (r:
        XYrect)
        ensures
            crate::material::opt_mat_eq(r.mp, *mat),
            r.x0 == x0 && r.x1 == x1 && r.y0 == y0 && r.y1 == y1 && r.k == k,
    {
        XYrect { mp: crate::material::copy_opt_mat(mat), x0, x1, y0, y1, k }
    }

    pub fn copy(&self) -> (r: XYrect)
        ensures
            crate::material::opt_mat_eq(r.mp, self.mp),
            r.x0 == self.x0 && r.x1 == self.x1 && r.y0 == self.y0 && r.y1 == self.y1 && r.k
                == self.k,
    {
        XYrect {
            mp: crate::material::copy_opt_mat(&self.mp),
            x0: self.x0,
            x1: self.x1,
            y0: self.y0,
            y1: self.y1,
            k: self.k,
        }
    }

    /// The rectangle's box, padded along its constant axis.
    pub open spec fn spec_bbox(self) -> Aabb {
        Aabb {
            minimum: Vec3 { x: self.x0, y: self.y0, z: (self.k - RECT_PAD) as i64 },
            maximum: Vec3 { x: self.x1, y: self.y1, z: (self.k + RECT_PAD) as i64 },
        }
    }

    pub fn boundingbox(&self, time0: i64, time1: i64) -> (r: Option<Aabb>)
        requires
            self.wf(),
        ensures
            r == Some(self.spec_bbox()),
    {
        Some(
            Aabb {
                minimum: Vec3 { x: self.x0, y: self.y0, z: self.k - RECT_PAD },
                maximum: Vec3 { x: self.x1, y: self.y1, z: self.k + RECT_PAD },
            },
        )
    }

    /// The full hit decision.
    pub open spec fn spec_hit(self, r: Ray, t0: int, t1: int) -> Option<Hitrecord> {
        match spec_plane_t(self.k as int, r.orig.z as int, r.dir.z as int) {
            None => None,
            Some(t) => if t0 <= t <= t1 && self.spec_bbox().hits_at(r, t as int) {
                let p = Vec3 {
                    x: (r.orig.x + fmul(t as int, r.dir.x as int)) as i64,
                    y: (r.orig.y + fmul(t as int, r.dir.y as int)) as i64,
                    z: (r.orig.z + fmul(t as int, r.dir.z as int)) as i64,
                };
                let outward = Vec3 { x: 0, y: 0, z: SCALE };
                let face = Hitrecord::spec_face(r, outward);
                Some(
                    Hitrecord {
                        p,
                        normal: face.1,
                        mat_ptr: self.mp,
                        t: t,
                        u: spec_extent_uv(p.x as int, self.x0 as int, self.x1 as int) as i64,
                        v: spec_extent_uv(p.y as int, self.y0 as int, self.y1 as int) as i64,
                        front_face: face.0,
                    },
                )
            } else {
                None
            },
        }
    }

    /// Intersects the ray with the rectangle over `[t_min, t_max]`.
    pub fn hit(&self, ray: &Ray, t_min: i64, t_max: i64) -> (res: Option<Hitrecord>)
        requires
            self.wf(),
            ray_wf(*ray),
            t_range_ok(t_min as int, t_max as int),
        ensures
            res is Some <==> self.spec_hit(*ray, t_min as int, t_max as int) is Some,
            res matches Some(rec) ==> (self.spec_hit(*ray, t_min as int, t_max as int)
                matches Some(m) && rec_matches(rec, m) && rec.bounded() && t_min <= rec.t <= t_max
                && self.spec_bbox().hits_at(*ray, rec.t as int) && opt_mat_wf(rec.mat_ptr)
                && crate::material::opt_mat_eq(rec.mat_ptr, self.mp)),
    {
        let t = match plane_t(self.k, ray.orig.z, ray.dir.z) {
            None => {
                return None;
            },
            Some(t) => t,
        };
        if t < t_min || t > t_max {
            return None;
        }
        let bb = Aabb {
            minimum: Vec3 { x: self.x0, y: self.y0, z: self.k - RECT_PAD },
            maximum: Vec3 { x: self.x1, y: self.y1, z: self.k + RECT_PAD },
        };
        if !bb.contains_at(ray, t) {
            return None;
        }
        let p = ray.at(t);
        proof {
            lemma_slab_point(
                bb.minimum.x as int,
                bb.maximum.x as int,
                ray.orig.x as int,
                ray.dir.x as int,
                t as int,
                p.x as int,
            );
            lemma_slab_point(
                bb.minimum.y as int,
                bb.maximum.y as int,
                ray.orig.y as int,
                ray.dir.y as int,
                t as int,
                p.y as int,
            );
            lemma_slab_point(
                bb.minimum.z as int,
                bb.maximum.z as int,
                ray.orig.z as int,
                ray.dir.z as int,
                t as int,
                p.z as int,
            );
        }
        let u = extent_uv(p.x, self.x0, self.x1);
        let v = extent_uv(p.y, self.y0, self.y1);
        let outward = Vec3 { x: 0, y: 0, z: SCALE };
        let d = Vec3::dot(&ray.direction(), &outward);
        let front_face = d < 0;
        let normal = if front_face {
            outward.copy()
        } else {
            outward.neg()
        };
        let mp = crate::material::copy_opt_mat(&self.mp);
        proof {
            crate::material::lemma_opt_mat_eq_wf(mp, self.mp);
        }
        Some(Hitrecord { p, normal, mat_ptr: mp, t, u, v, front_face })
    }
}

impl XZrect {
    pub open spec fn wf(self) -> bool {
        -WMAX <= self.x0 <= WMAX && -WMAX <= self.x1 <= WMAX && -WMAX <= self.z0 <= WMAX && -WMAX
            <= self.z1 <= WMAX && -WMAX <= self.k <= WMAX && self.x0 <= self.x1 && self.z0
            <= self.z1 && opt_mat_wf(self.mp)
    }

    pub fn default_new() -> (r: XZrect)
        ensures
            r.mp is None,
            r.x0 == 0 && r.x1 == 0 && r.z0 == 0 && r.z1 == 0 && r.k == 0,
    {
        XZrect { mp: None, x0: 0, x1: 0, z0: 0, z1: 0, k: 0 }
    }

    pub fn new(mat: &Option<Box<Material>>, x0: i64, x1: i64, z0: i64, z1: i64, k: i64) -> (r:
        XZrect)
        ensures
            crate::material::opt_mat_eq(r.mp, *mat),
            r.x0 == x0 && r.x1 == x1 && r.z0 == z0 && r.z1 == z1 && r.k == k,
    {
        XZrect { mp: crate::material::copy_opt_mat(mat), x0, x1, z0, z1, k }
    }

    pub fn copy(&self) -> (r: XZrect)
        ensures
            crate::material::opt_mat_eq(r.mp, self.mp),
            r.x0 == self.x0 && r.x1 == self.x1 && r.z0 == self.z0 && r.z1 == self.z1 && r.k
                == self.k,
    {
        XZrect {
            mp: crate::material::copy_opt_mat(&self.mp),
            x0: self.x0,
            x1: self.x1,
            z0: self.z0,
            z1: self.z1,
            k: self.k,
        }
    }

    /// The rectangle's box, padded along its constant axis.
    pub open spec fn spec_bbox(self) -> Aabb {
        Aabb {
            minimum: Vec3 { x: self.x0, y: (self.k - RECT_PAD) as i64, z: self.z0 },
            maximum: Vec3 { x: self.x1, y: (self.k + RECT_PAD) as i64, z: self.z1 },
        }
    }

    pub fn boundingbox(&self, time0: i64, time1: i64) -> (r: Option<Aabb>)
        requires
            self.wf(),
        ensures
            r == Some(self.spec_bbox()),
    {
        Some(
            Aabb {
                minimum: Vec3 { x: self.x0, y: self.k - RECT_PAD, z: self.z0 },
                maximum: Vec3 { x: self.x1, y: self.k + RECT_PAD, z: self.z1 },
            },
        )
    }

    /// The full hit decision.
    pub open spec fn spec_hit(self, r: Ray, t0: int, t1: int) -> Option<Hitrecord> {
        match spec_plane_t(self.k as int, r.orig.y as int, r.dir.y as int) {
            None => None,
            Some(t) => if t0 <= t <= t1 && self.spec_bbox().hits_at(r, t as int) {
                let p = Vec3 {
                    x: (r.orig.x + fmul(t as int, r.dir.x as int)) as i64,
                    y: (r.orig.y + fmul(t as int, r.dir.y as int)) as i64,
                    z: (r.orig.z + fmul(t as int, r.dir.z as int)) as i64,
                };
                let outward = Vec3 { x: 0, y: SCALE, z: 0 };
                let face = Hitrecord::spec_face(r, outward);
                Some(
                    Hitrecord {
                        p,
                        normal: face.1,
                        mat_ptr: self.mp,
                        t: t,
                        u: spec_extent_uv(p.x as int, self.x0 as int, self.x1 as int) as i64,
                        v: spec_extent_uv(p.z as int, self.z0 as int, self.z1 as int) as i64,
                        front_face: face.0,
                    },
                )
            } else {
                None
            },
        }
    }

    /// Intersects the ray with the rectangle over `[t_min, t_max]`.
    pub fn hit(&self, ray: &Ray, t_min: i64, t_max: i64) -> (res: Option<Hitrecord>)
        requires
            self.wf(),
            ray_wf(*ray),
            t_range_ok(t_min as int, t_max as int),
        ensures
            res is Some <==> self.spec_hit(*ray, t_min as int, t_max as int) is Some,
            res matches Some(rec) ==> (self.spec_hit(*ray, t_min as int, t_max as int)
                matches Some(m) && rec_matches(rec, m) && rec.bounded() && t_min <= rec.t <= t_max
                && self.spec_bbox().hits_at(*ray, rec.t as int) && opt_mat_wf(rec.mat_ptr)
                && crate::material::opt_mat_eq(rec.mat_ptr, self.mp)),
    {
        let t = match plane_t(self.k, ray.orig.y, ray.dir.y) {
            None => {
                return None;
            },
            Some(t) => t,
        };
        if t < t_min || t > t_max {
            return None;
        }
        let bb = Aabb {
            minimum: Vec3 { x: self.x0, y: self.k - RECT_PAD, z: self.z0 },
            maximum: Vec3 { x: self.x1, y: self.k + RECT_PAD, z: self.z1 },
        };
        if !bb.contains_at(ray, t) {
            return None;
        }
        let p = ray.at(t);
        proof {
            lemma_slab_point(
                bb.minimum.x as int,
                bb.maximum.x as int,
                ray.orig.x as int,
                ray.dir.x as int,
                t as int,
                p.x as int,
            );
            lemma_slab_point(
                bb.minimum.y as int,
                bb.maximum.y as int,
                ray.orig.y as int,
                ray.dir.y as int,
                t as int,
                p.y as int,
            );
            lemma_slab_point(
                bb.minimum.z as int,
                bb.maximum.z as int,
                ray.orig.z as int,
                ray.dir.z as int,
                t as int,
                p.z as int,
            );
        }
        let u = extent_uv(p.x, self.x0, self.x1);
        let v = extent_uv(p.z, self.z0, self.z1);
        let outward = Vec3 { x: 0, y: SCALE, z: 0 };
        let d = Vec3::dot(&ray.direction(), &outward);
        let front_face = d < 0;
        let normal = if front_face {
            outward.copy()
        } else {
            outward.neg()
        };
        let mp = crate::material::copy_opt_mat(&self.mp);
        proof {
            crate::material::lemma_opt_mat_eq_wf(mp, self.mp);
        }
        Some(Hitrecord { p, normal, mat_ptr: mp, t, u, v, front_face })
    }
}

impl YZrect {
    pub open spec fn wf(self) -> bool {
        -WMAX <= self.y0 <= WMAX && -WMAX <= self.y1 <= WMAX && -WMAX <= self.z0 <= WMAX && -WMAX
            <= self.z1 <= WMAX && -WMAX <= self.k <= WMAX && self.y0 <= self.y1 && self.z0
            <= self.z1 && opt_mat_wf(self.mp)
    }

    pub fn default_new() -> (r: YZrect)
        ensures
            r.mp is None,
            r.y0 == 0 && r.y1 == 0 && r.z0 == 0 && r.z1 == 0 && r.k == 0,
    {
        YZrect { mp: None, y0: 0, y1: 0, z0: 0, z1: 0, k: 0 }
    }

    pub fn new(mat: &Option<Box<Material>>, y0: i64, y1: i64, z0: i64, z1: i64, k: i64) -> (r:
        YZrect)
        ensures
            crate::material::opt_mat_eq(r.mp, *mat),
            r.y0 == y0 && r.y1 == y1 && r.z0 == z0 && r.z1 == z1 && r.k == k,
    {
        YZrect { mp: crate::material::copy_opt_mat(mat), y0, y1, z0, z1, k }
    }

    pub fn copy(&self) -> (r: YZrect)
        ensures
            crate::material::opt_mat_eq(r.mp, self.mp),
            r.y0 == self.y0 && r.y1 == self.y1 && r.z0 == self.z0 && r.z1 == self.z1 && r.k
                == self.k,
    {
        YZrect {
            mp: crate::material::copy_opt_mat(&self.mp),
            y0: self.y0,
            y1: self.y1,
            z0: self.z0,
            z1: self.z1,
            k: self.k,
        }
    }

    /// The rectangle's box, padded along its constant axis.
    pub open spec fn spec_bbox(self) -> Aabb {
        Aabb {
            minimum: Vec3 { x: (self.k - RECT_PAD) as i64, y: self.y0, z: self.z0 },
            maximum: Vec3 { x: (self.k + RECT_PAD) as i64, y: self.y1, z: self.z1 },
        }
    }

    pub fn boundingbox(&self, time0: i64, time1: i64) -> (r: Option<Aabb>)
        requires
            self.wf(),
        ensures
            r == Some(self.spec_bbox()),
    {
        Some(
            Aabb {
                minimum: Vec3 { x: self.k - RECT_PAD, y: self.y0, z: self.z0 },
                maximum: Vec3 { x: self.k + RECT_PAD, y: self.y1, z: self.z1 },
            },
        )
    }

    /// The full hit decision.
    pub open spec fn spec_hit(self, r: Ray, t0: int, t1: int) -> Option<Hitrecord> {
        match spec_plane_t(self.k as int, r.orig.x as int, r.dir.x as int) {
            None => None,
            Some(t) => if t0 <= t <= t1 && self.spec_bbox().hits_at(r, t as int) {
                let p = Vec3 {
                    x: (r.orig.x + fmul(t as int, r.dir.x as int)) as i64,
                    y: (r.orig.y + fmul(t as int, r.dir.y as int)) as i64,
                    z: (r.orig.z + fmul(t as int, r.dir.z as int)) as i64,
                };
                let outward = Vec3 { x: SCALE, y: 0, z: 0 };
                let face = Hitrecord::spec_face(r, outward);
                Some(
                    Hitrecord {
                        p,
                        normal: face.1,
                        mat_ptr: self.mp,
                        t: t,
                        u: spec_extent_uv(p.y as int, self.y0 as int, self.y1 as int) as i64,
                        v: spec_extent_uv(p.z as int, self.z0 as int, self.z1 as int) as i64,
                        front_face: face.0,
                    },
                )
            } else {
                None
            },
        }
    }

    /// Intersects the ray with the rectangle over `[t_min, t_max]`.
    pub fn hit(&self, ray: &Ray, t_min: i64, t_max: i64) -> (res: Option<Hitrecord>)
        requires
            self.wf(),
            ray_wf(*ray),
            t_range_ok(t_min as int, t_max as int),
        ensures
            res is Some <==> self.spec_hit(*ray, t_min as int, t_max as int) is Some,
            res matches Some(rec) ==> (self.spec_hit(*ray, t_min as int, t_max as int)
                matches Some(m) && rec_matches(rec, m) && rec.bounded() && t_min <= rec.t <= t_max
                && self.spec_bbox().hits_at(*ray, rec.t as int) && opt_mat_wf(rec.mat_ptr)
                && crate::material::opt_mat_eq(rec.mat_ptr, self.mp)),
    {
        let t = match plane_t(self.k, ray.orig.x, ray.dir.x) {
            None => {
                return None;
            },
            Some(t) => t,
        };
        if t < t_min || t > t_max {
            return None;
        }
        let bb = Aabb {
            minimum: Vec3 { x: self.k - RECT_PAD, y: self.y0, z: self.z0 },
            maximum: Vec3 { x: self.k + RECT_PAD, y: self.y1, z: self.z1 },
        };
        if !bb.contains_at(ray, t) {
            return None;
        }
        let p = ray.at(t);
        proof {
            lemma_slab_point(
                bb.minimum.x as int,
                bb.maximum.x as int,
                ray.orig.x as int,
                ray.dir.x as int,
                t as int,
                p.x as int,
            );
            lemma_slab_point(
                bb.minimum.y as int,
                bb.maximum.y as int,
                ray.orig.y as int,
                ray.dir.y as int,
                t as int,
                p.y as int,
            );
            lemma_slab_point(
                bb.minimum.z as int,
                bb.maximum.z as int,
                ray.orig.z as int,
                ray.dir.z as int,
                t as int,
                p.z as int,
            );
        }
        let u = extent_uv(p.y, self.y0, self.y1);
        let v = extent_uv(p.z, self.z0, self.z1);
        let outward = Vec3 { x: SCALE, y: 0, z: 0 };
        let d = Vec3::dot(&ray.direction(), &outward);
        let front_face = d < 0;
        let normal = if front_face {
            outward.copy()
        } else {
            outward.neg()
        };
        let mp = crate::material::copy_opt_mat(&self.mp);
        proof {
            crate::material::lemma_opt_mat_eq_wf(mp, self.mp);
        }
        Some(Hitrecord { p, normal, mat_ptr: mp, t, u, v, front_face })
    }
}

} // verus!
