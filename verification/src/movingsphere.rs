//! The moving sphere: a sphere whose center slides between two
//! points over a shutter interval.

use vstd::prelude::*;
use crate::fixed::{fx_ok, fmul, fdiv, sqrt_floor, div_floor, div_fx, isqrt, SCALE};
use crate::vec3::{Vec3, Point3};
use crate::ray::Ray;
use crate::aabb::{Aabb, lemma_slab_point};
use crate::hittable::{Hitrecord, rec_matches, ray_wf, t_range_ok, opt_mat_wf, WMAX};
use crate::material::Material;
use crate::sphere::spec_clamp_uv;

verus! {

pub struct Movingsphere {
    pub center0: Point3,
    pub center1: Point3,
    pub time0: i64,
    pub time1: i64,
    pub radius: i64,
    pub mat_ptr: Option<Box<Material>>,
}

/// The interpolation weight for a shutter time.  Inside the
/// interval this is exactly `(tm - t0) / (t1 - t0)`; outside it the
/// weight is held at the nearer endpoint, because an unbounded
/// weight times a world-sized center span does not fit the 128-bit
/// budget of the intersection quadratic.  Every camera draws its
/// shutter times inside the interval, where the formula is exact.
pub open spec fn spec_lerp(tm: int, t0: int, t1: int) -> int {
    let f = fdiv(tm - t0, t1 - t0);
    if f < 0 {
        0
    } else if f > SCALE {
        SCALE as int
    } else {
        f
    }
}

impl Movingsphere {
    pub open spec fn wf(self) -> bool {
        -WMAX <= self.center0.x <= WMAX && -WMAX <= self.center0.y <= WMAX && -WMAX
            <= self.center0.z <= WMAX && -WMAX <= self.center1.x <= WMAX && -WMAX
            <= self.center1.y <= WMAX && -WMAX <= self.center1.z <= WMAX && 0 <= self.radius
            <= WMAX && 0 <= self.time0 < self.time1 <= SCALE && opt_mat_wf(self.mat_ptr)
    }

    pub fn default_new() -> (r: Movingsphere)
        ensures
            r.radius == 0,
            r.mat_ptr is None,
            r.time0 == 0,
            r.time1 == SCALE,
    {
        Movingsphere {
            center0: Point3::default_new(),
            center1: Point3::default_new(),
            time0: 0,
            time1: SCALE,
            radius: 0,
            mat_ptr: None,
        }
    }

    pub fn new(
        cen0: &Point3,
        cen1: &Point3,
        time0: i64,
        time1: i64,
        r: i64,
        m: &Option<Box<Material>>,
    ) -> (s: Movingsphere)
        ensures
            s.center0 == *cen0,
            s.center1 == *cen1,
            s.time0 == time0,
            s.time1 == time1,
            s.radius == r,
            crate::material::opt_mat_eq(s.mat_ptr, *m),
    {
        Movingsphere {
            center0: cen0.copy(),
            center1: cen1.copy(),
            time0,
            time1,
            radius: r,
            mat_ptr: crate::material::copy_opt_mat(m),
        }
    }

    pub fn copy(&self) -> (s: Movingsphere)
        ensures
            s.center0 == self.center0,
            s.center1 == self.center1,
            s.time0 == self.time0,
            s.time1 == self.time1,
            s.radius == self.radius,
            crate::material::opt_mat_eq(s.mat_ptr, self.mat_ptr),
    {
        Movingsphere {
            center0: self.center0.copy(),
            center1: self.center1.copy(),
            time0: self.time0,
            time1: self.time1,
            radius: self.radius,
            mat_ptr: crate::material::copy_opt_mat(&self.mat_ptr),
        }
    }

    /// The interpolated center at a shutter time.
    pub open spec fn spec_center(self, tm: int) -> Vec3 {
        let f = spec_lerp(tm, self.time0 as int, self.time1 as int);
        Vec3 {
            x: (self.center0.x + fmul(f, self.center1.x - self.center0.x)) as i64,
            y: (self.center0.y + fmul(f, self.center1.y - self.center0.y)) as i64,
            z: (self.center0.z + fmul(f, self.center1.z - self.center0.z)) as i64,
        }
    }

    /// Computes the interpolated center.
    pub fn center(&self, time: i64) -> (r: Point3)
        requires
            self.wf(),
            -0x10_0000_0000 <= time <= 0x10_0000_0000,
        ensures
            r == self.spec_center(time as int),
            -0x1_0000_0001 <= r.x <= 0x1_0000_0001,
            -0x1_0000_0001 <= r.y <= 0x1_0000_0001,
            -0x1_0000_0001 <= r.z <= 0x1_0000_0001,
            self.time0 <= time <= self.time1 ==> r == (Vec3 {
                x: (self.center0.x + fmul(
                    fdiv(time - self.time0, self.time1 - self.time0),
                    self.center1.x - self.center0.x,
                )) as i64,
                y: (self.center0.y + fmul(
                    fdiv(time - self.time0, self.time1 - self.time0),
                    self.center1.y - self.center0.y,
                )) as i64,
                z: (self.center0.z + fmul(
                    fdiv(time - self.time0, self.time1 - self.time0),
                    self.center1.z - self.center0.z,
                )) as i64,
            }),
            time == self.time0 ==> r == self.center0,
            time == self.time1 ==> r == self.center1,
    {
        let f0 = div_fx(time - self.time0, self.time1 - self.time0);
        let f: i64 = if f0 < 0 {
            0
        } else if f0 > SCALE {
            SCALE
        } else {
            f0
        };
        let dx = self.center1.x - self.center0.x;
        let dy = self.center1.y - self.center0.y;
        let dz = self.center1.z - self.center0.z;
        proof {
            crate::fixed::lemma_fmul_range(f as int, dx as int, 65536, 0x2_0000_0000, 0x2_0000_0000);
            crate::fixed::lemma_fmul_range(f as int, dy as int, 65536, 0x2_0000_0000, 0x2_0000_0000);
            crate::fixed::lemma_fmul_range(f as int, dz as int, 65536, 0x2_0000_0000, 0x2_0000_0000);
            lemma_lerp_between(f as int, self.center0.x as int, self.center1.x as int);
            lemma_lerp_between(f as int, self.center0.y as int, self.center1.y as int);
            lemma_lerp_between(f as int, self.center0.z as int, self.center1.z as int);
            if self.time0 <= time <= self.time1 {
                crate::fixed::lemma_fdiv_frac(
                    time - self.time0,
                    self.time1 - self.time0,
                );
                assert(f == fdiv(time - self.time0, self.time1 - self.time0));
            }
            if time == self.time0 || time == self.time1 {
                crate::fixed::lemma_fdiv_frac(
                    time - self.time0,
                    self.time1 - self.time0,
                );
                crate::fixed::lemma_fmul_one(dx as int);
                crate::fixed::lemma_fmul_one(dy as int);
                crate::fixed::lemma_fmul_one(dz as int);
            }
        }
        Vec3 {
            x: self.center0.x + crate::fixed::mul_fx(f, dx),
            y: self.center0.y + crate::fixed::mul_fx(f, dy),
            z: self.center0.z + crate::fixed::mul_fx(f, dz),
        }
    }

    /// The box over the whole shutter interval: the union of the two
    /// end boxes, carrying the one-parameter-step pad plus one unit
    /// for the interpolation floor.
    pub open spec fn spec_bbox(self) -> Aabb {
        Aabb {
            minimum: Vec3 {
                x: (min2(self.center0.x as int, self.center1.x as int) - self.radius - 2049) as i64,
                y: (min2(self.center0.y as int, self.center1.y as int) - self.radius - 2049) as i64,
                z: (min2(self.center0.z as int, self.center1.z as int) - self.radius - 2049) as i64,
            },
            maximum: Vec3 {
                x: (max2(self.center0.x as int, self.center1.x as int) + self.radius + 2049) as i64,
                y: (max2(self.center0.y as int, self.center1.y as int) + self.radius + 2049) as i64,
                z: (max2(self.center0.z as int, self.center1.z as int) + self.radius + 2049) as i64,
            },
        }
    }

    /// The box of the sphere over its own shutter interval; the
    /// arguments are accepted for interface parity and the stored
    /// interval is what the box covers.
    pub fn boundingbox(&self, time0: i64, time1: i64) -> (r: Option<Aabb>)
        requires
            self.wf(),
        ensures
            r == Some(self.spec_bbox()),
    {
        let minx = crate::func::fmin(self.center0.x, self.center1.x) - self.radius - 2049;
        let miny = crate::func::fmin(self.center0.y, self.center1.y) - self.radius - 2049;
        let minz = crate::func::fmin(self.center0.z, self.center1.z) - self.radius - 2049;
        let maxx = crate::func::fmax(self.center0.x, self.center1.x) + self.radius + 2049;
        let maxy = crate::func::fmax(self.center0.y, self.center1.y) + self.radius + 2049;
        let maxz = crate::func::fmax(self.center0.z, self.center1.z) + self.radius + 2049;
        Some(
            Aabb {
                minimum: Vec3 { x: minx, y: miny, z: minz },
                maximum: Vec3 { x: maxx, y: maxy, z: maxz },
            },
        )
    }

    /// The root selected at the ray's shutter time.
    pub open spec fn spec_root(self, r: Ray, t0: int, t1: int) -> Option<int> {
        let cen = self.spec_center(r.tm as int);
        let ocx = r.orig.x - cen.x;
        let ocy = r.orig.y - cen.y;
        let ocz = r.orig.z - cen.z;
        let a = r.dir.x * r.dir.x + r.dir.y * r.dir.y + r.dir.z * r.dir.z;
        let hb = ocx * r.dir.x + ocy * r.dir.y + ocz * r.dir.z;
        let c = ocx * ocx + ocy * ocy + ocz * ocz - self.radius * self.radius;
        if a <= 0 {
            None
        } else {
            let disc = hb * hb - a * c;
            if disc < 0 {
                None
            } else {
                let sq = sqrt_floor(disc);
                let r1 = ((-hb - sq) * (SCALE as int)) / a;
                if t0 <= r1 <= t1 {
                    Some(r1)
                } else {
                    let r2 = ((-hb + sq) * (SCALE as int)) / a;
                    if t0 <= r2 <= t1 {
                        Some(r2)
                    } else {
                        None
                    }
                }
            }
        }
    }

    /// The record built for an accepted root.
    pub open spec fn spec_rec(self, r: Ray, root: int) -> Hitrecord {
        let cen = self.spec_center(r.tm as int);
        let p = Vec3 {
            x: (r.orig.x + fmul(root, r.dir.x as int)) as i64,
            y: (r.orig.y + fmul(root, r.dir.y as int)) as i64,
            z: (r.orig.z + fmul(root, r.dir.z as int)) as i64,
        };
        let outward = Vec3 {
            x: spec_clamp_norm(fdiv(p.x - cen.x, self.radius as int)) as i64,
            y: spec_clamp_norm(fdiv(p.y - cen.y, self.radius as int)) as i64,
            z: spec_clamp_norm(fdiv(p.z - cen.z, self.radius as int)) as i64,
        };
        let face = Hitrecord::spec_face(r, outward);
        Hitrecord {
            p,
            normal: face.1,
            mat_ptr: self.mat_ptr,
            t: root as i64,
            u: 0,
            v: 0,
            front_face: face.0,
        }
    }

    /// The full hit decision, accepted only inside the interval box.
    pub open spec fn spec_hit(self, r: Ray, t0: int, t1: int) -> Option<Hitrecord> {
        match self.spec_root(r, t0, t1) {
            None => None,
            Some(root) => if self.radius > 0 && self.spec_bbox().hits_at(r, root) {
                Some(self.spec_rec(r, root))
            } else {
                None
            },
        }
    }

    /// Intersects the ray with the sphere at its shutter time.
    pub fn hit(&self, ray: &Ray, t_min: i64, t_max: i64) -> (res: Option<Hitrecord>)
        requires
            self.wf(),
            ray_wf(*ray),
            t_range_ok(t_min as int, t_max as int),
        ensures
            res is Some <==> self.spec_hit(*ray, t_min as int, t_max as int) is Some,
            res matches Some(rec) ==> (self.spec_hit(*ray, t_min as int, t_max as int)
                matches Some(m) && rec_matches(rec, m) && rec.bounded() && t_min <= rec.t <= t_max
                && self.spec_bbox().hits_at(*ray, rec.t as int) && opt_mat_wf(rec.mat_ptr)
                && crate::material::opt_mat_eq(rec.mat_ptr, self.mat_ptr)),
    {
        let cen = self.center(ray.tm);
        let ocx = ray.orig.x - cen.x;
        let ocy = ray.orig.y - cen.y;
        let ocz = ray.orig.z - cen.z;
        proof {
            crate::vec3::lemma_mul_bound(ray.dir.x as int, ray.dir.x as int, 0x800_0000);
            crate::vec3::lemma_mul_bound(ray.dir.y as int, ray.dir.y as int, 0x800_0000);
            crate::vec3::lemma_mul_bound(ray.dir.z as int, ray.dir.z as int, 0x800_0000);
            crate::vec3::lemma_mul_bound2(ocx as int, ray.dir.x as int, 0x3_0000_0001, 0x800_0000);
            crate::vec3::lemma_mul_bound2(ocy as int, ray.dir.y as int, 0x3_0000_0001, 0x800_0000);
            crate::vec3::lemma_mul_bound2(ocz as int, ray.dir.z as int, 0x3_0000_0001, 0x800_0000);
            crate::vec3::lemma_mul_bound(ocx as int, ocx as int, 0x3_0000_0001);
            crate::vec3::lemma_mul_bound(ocy as int, ocy as int, 0x3_0000_0001);
            crate::vec3::lemma_mul_bound(ocz as int, ocz as int, 0x3_0000_0001);
            crate::vec3::lemma_mul_bound(self.radius as int, self.radius as int, 0x1_0000_0000);
        }
        let a: i128 = (ray.dir.x as i128) * (ray.dir.x as i128) + (ray.dir.y as i128) * (ray.dir.y
            as i128) + (ray.dir.z as i128) * (ray.dir.z as i128);
        let hb: i128 = (ocx as i128) * (ray.dir.x as i128) + (ocy as i128) * (ray.dir.y as i128)
            + (ocz as i128) * (ray.dir.z as i128);
        let c: i128 = (ocx as i128) * (ocx as i128) + (ocy as i128) * (ocy as i128) + (ocz
            as i128) * (ocz as i128) - (self.radius as i128) * (self.radius as i128);
        if a <= 0 {
            return None;
        }
        proof {
            crate::vec3::lemma_mul_bound(hb as int, hb as int, 0x4900_0000_0000_0000i128 as int);
            crate::vec3::lemma_mul_bound2(
                a as int,
                c as int,
                0xC0_0000_0000_0000i128 as int,
                0x1D_0000_0000_0000_0000i128 as int,
            );
        }
        let disc: i128 = hb * hb - a * c;
        if disc < 0 {
            return None;
        }
        let sq = isqrt(disc as u128) as i128;
        proof {
            assert(disc as u128 == disc);
        }
        let num1: i128 = -hb - sq;
        let root1 = div_floor(num1 * 65536, a);
        let root: i128 = if (t_min as i128) <= root1 && root1 <= (t_max as i128) {
            root1
        } else {
            let num2: i128 = -hb + sq;
            let root2 = div_floor(num2 * 65536, a);
            if (t_min as i128) <= root2 && root2 <= (t_max as i128) {
                root2
            } else {
                return None;
            }
        };
        if self.radius <= 0 {
            return None;
        }
        let minx = crate::func::fmin(self.center0.x, self.center1.x) - self.radius - 2049;
        let miny = crate::func::fmin(self.center0.y, self.center1.y) - self.radius - 2049;
        let minz = crate::func::fmin(self.center0.z, self.center1.z) - self.radius - 2049;
        let maxx = crate::func::fmax(self.center0.x, self.center1.x) + self.radius + 2049;
        let maxy = crate::func::fmax(self.center0.y, self.center1.y) + self.radius + 2049;
        let maxz = crate::func::fmax(self.center0.z, self.center1.z) + self.radius + 2049;
        let bb = Aabb {
            minimum: Vec3 { x: minx, y: miny, z: minz },
            maximum: Vec3 { x: maxx, y: maxy, z: maxz },
        };
        let rt = root as i64;
        if !bb.contains_at(ray, rt) {
            return None;
        }
        let p = ray.at(rt);
        proof {
            lemma_slab_point(
                bb.minimum.x as int,
                bb.maximum.x as int,
                ray.orig.x as int,
                ray.dir.x as int,
                rt as int,
                p.x as int,
            );
            lemma_slab_point(
                bb.minimum.y as int,
                bb.maximum.y as int,
                ray.orig.y as int,
                ray.dir.y as int,
                rt as int,
                p.y as int,
            );
            lemma_slab_point(
                bb.minimum.z as int,
                bb.maximum.z as int,
                ray.orig.z as int,
                ray.dir.z as int,
                rt as int,
                p.z as int,
            );
        }
        let pcx = p.x - cen.x;
        let pcy = p.y - cen.y;
        let pcz = p.z - cen.z;
        let outward = Vec3 {
            x: clamp_norm(div_fx(pcx, self.radius)),
            y: clamp_norm(div_fx(pcy, self.radius)),
            z: clamp_norm(div_fx(pcz, self.radius)),
        };
        let d = Vec3::dot(&ray.direction(), &outward);
        let front_face = d < 0;
        let normal = if front_face {
            outward.copy()
        } else {
            outward.neg()
        };
        let mp = crate::material::copy_opt_mat(&self.mat_ptr);
        proof {
            crate::material::lemma_opt_mat_eq_wf(mp, self.mat_ptr);
        }
        Some(Hitrecord { p, normal, mat_ptr: mp, t: rt, u: 0, v: 0, front_face })
    }
}

/// The smaller of two mathematical integers.
pub open spec fn min2(a: int, b: int) -> int {
    if a < b {
        a
    } else {
        b
    }
}

/// The larger of two mathematical integers.
pub open spec fn max2(a: int, b: int) -> int {
    if a > b {
        a
    } else {
        b
    }
}

/// An interpolated coordinate stays between the endpoints.
proof fn lemma_lerp_between(f: int, c0: int, c1: int)
    requires
        0 <= f <= 65536,
        -0x1_0000_0000 <= c0 <= 0x1_0000_0000,
        -0x1_0000_0000 <= c1 <= 0x1_0000_0000,
    ensures
        min2(c0, c1) - 1 <= c0 + fmul(f, c1 - c0) <= max2(c0, c1),
{
    let d = c1 - c0;
    let p = f * d;
    assert(0 <= f * d <= 65536 * d || 65536 * d <= f * d <= 0) by (nonlinear_arith)
        requires
            0 <= f <= 65536,
    ;
    vstd::arithmetic::div_mod::lemma_fundamental_div_mod(p, 65536);
    assert(fmul(f, d) == p / 65536);
}

/// A normal component clamped into the well-formed range.
pub open spec fn spec_clamp_norm(x: int) -> int {
    if x > 0x4_0000 {
        0x4_0000
    } else if x < -0x4_0000 {
        -0x4_0000
    } else {
        x
    }
}

/// Clamps a normal component into the well-formed range.
pub fn clamp_norm(x: i64) -> (r: i64)
    ensures
        r == spec_clamp_norm(x as int),
        -0x4_0000 <= r <= 0x4_0000,
{
    if x > 0x4_0000 {
        0x4_0000
    } else if x < -0x4_0000 {
        -0x4_0000
    } else {
        x
    }
}

} // verus!
