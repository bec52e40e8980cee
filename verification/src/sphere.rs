//! The sphere primitive: quadratic root selection, spherical
//! coordinates, and an exact in-box acceptance test.

use vstd::prelude::*;
use crate::fixed::{fx_ok, fmul, fdiv, sqrt_floor, div_floor, div_fx, isqrt, SCALE};
use crate::func::{acos_fx, atan2_fx, spec_acos, spec_atan2, PI_FX};
use crate::vec3::{Vec3, Point3};
use crate::ray::Ray;
use crate::aabb::{Aabb, lemma_slab_point};
use crate::hittable::{Hitrecord, rec_matches, ray_wf, t_range_ok, opt_mat_wf, WMAX};
use crate::material::Material;
use crate::movingsphere::{clamp_norm, spec_clamp_norm};
use crate::rect::RECT_PAD;

verus! {

pub struct Sphere {
    pub center: Point3,
    pub radius: i64,
    pub mat_ptr: Option<Box<Material>>,
}

/// Clamps a texture coordinate into `[0, SCALE]`.
pub open spec fn spec_clamp_uv(x: int) -> int {
    if x < 0 {
        0
    } else if x > SCALE {
        SCALE as int
    } else {
        x
    }
}

/// A cosine clamped into the arc functions' domain.
pub open spec fn spec_clamp_pm(x: int) -> int {
    if x > SCALE {
        SCALE as int
    } else if x < -SCALE {
        -SCALE as int
    } else {
        x
    }
}

/// Spherical texture coordinates of an outward normal.
pub open spec fn spec_sphere_uv(p: Vec3) -> (int, int) {
    let theta = spec_acos(spec_clamp_pm(-p.y as int));
    let phi = spec_atan2(-p.z as int, p.x as int) + PI_FX;
    (
        spec_clamp_uv((phi * (SCALE as int)) / (2 * (PI_FX as int))),
        spec_clamp_uv((theta * (SCALE as int)) / (PI_FX as int)),
    )
}

impl Sphere {
    pub open spec fn wf(self) -> bool {
        -WMAX <= self.center.x <= WMAX && -WMAX <= self.center.y <= WMAX && -WMAX <= self.center.z
            <= WMAX && 0 <= self.radius <= WMAX && opt_mat_wf(self.mat_ptr)
    }

    pub fn default_new() -> (r: Sphere)
        ensures
            r.center == (Vec3 { x: 0, y: 0, z: 0 }),
            r.radius == 0,
            r.mat_ptr is None,
    {
        Sphere { center: Point3::default_new(), radius: 0, mat_ptr: None }
    }

    pub fn new(cen: &Point3, r: i64, m: &Option<Box<Material>>) -> (s: Sphere)
        ensures
            s.center == *cen,
            s.radius == r,
            crate::material::opt_mat_eq(s.mat_ptr, *m),
    {
        Sphere { center: cen.copy(), radius: r, mat_ptr: crate::material::copy_opt_mat(m) }
    }

    pub fn copy(&self) -> (s: Sphere)
        ensures
            s.center == self.center,
            s.radius == self.radius,
            crate::material::opt_mat_eq(s.mat_ptr, self.mat_ptr),
    {
        Sphere {
            center: self.center.copy(),
            radius: self.radius,
            mat_ptr: crate::material::copy_opt_mat(&self.mat_ptr),
        }
    }

    /// Spherical coordinates of a point on the unit sphere.
    pub fn get_sphere_uv(p: &Point3, u: &mut i64, v: &mut i64)
        requires
            -0x4_0000 <= p.x <= 0x4_0000,
            -0x4_0000 <= p.y <= 0x4_0000,
            -0x4_0000 <= p.z <= 0x4_0000,
        ensures
            *final(u) == spec_sphere_uv(*p).0,
            *final(v) == spec_sphere_uv(*p).1,
            0 <= *final(u) <= SCALE,
            0 <= *final(v) <= SCALE,
    {
        let my = -p.y;
        let cy: i64 = if my > SCALE {
            SCALE
        } else if my < -SCALE {
            -SCALE
        } else {
            my
        };
        let theta = acos_fx(cy);
        let phi = atan2_fx(-p.z, p.x) + PI_FX;
        let u0 = div_floor((phi as i128) * 65536, 2 * (PI_FX as i128));
        let v0 = div_floor((theta as i128) * 65536, PI_FX as i128);
        *u = clamp_uv(u0 as i64);
        *v = clamp_uv(v0 as i64);
    }

    /// The box around the sphere.  A real-valued model would use the
    /// tight `center +/- radius` box; here the corners carry the
    /// one-parameter-step pad (`RECT_PAD`) because the quantized
    /// root of a grazing ray can place the reached position up to
    /// one step outside the tight box, and the hit is accepted only
    /// inside this box.
    pub open spec fn spec_bbox(self) -> Aabb {
        Aabb {
            minimum: Vec3 {
                x: (self.center.x - self.radius - RECT_PAD) as i64,
                y: (self.center.y - self.radius - RECT_PAD) as i64,
                z: (self.center.z - self.radius - RECT_PAD) as i64,
            },
            maximum: Vec3 {
                x: (self.center.x + self.radius + RECT_PAD) as i64,
                y: (self.center.y + self.radius + RECT_PAD) as i64,
                z: (self.center.z + self.radius + RECT_PAD) as i64,
            },
        }
    }

    pub fn boundingbox(&self, time0: i64, time1: i64) -> (r: Option<Aabb>)
        requires
            self.wf(),
        ensures
            r == Some(self.spec_bbox()),
    {
        Some(
            Aabb {
                minimum: Vec3 {
                    x: self.center.x - self.radius - RECT_PAD,
                    y: self.center.y - self.radius - RECT_PAD,
                    z: self.center.z - self.radius - RECT_PAD,
                },
                maximum: Vec3 {
                    x: self.center.x + self.radius + RECT_PAD,
                    y: self.center.y + self.radius + RECT_PAD,
                    z: self.center.z + self.radius + RECT_PAD,
                },
            },
        )
    }

    /// The root the quadratic step selects, if any: the smaller one
    /// when it lies within the range, else the larger one.
    pub open spec fn spec_root(self, r: Ray, t0: int, t1: int) -> Option<int> {
        let ocx = r.orig.x - self.center.x;
        let ocy = r.orig.y - self.center.y;
        let ocz = r.orig.z - self.center.z;
        let a = r.dir.x * r.dir.x + r.dir.y * r.dir.y + r.dir.z * r.dir.z;
        let hb = ocx * r.dir.x + ocy * r.dir.y + ocz * r.dir.z;
        let c = ocx * ocx + ocy * ocy + ocz * ocz - self.radius * self.radius;
        if a <= 0 {
            None
        } else {
            let disc = hb * hb - a * c;
            if disc < 0 {
                None
            } else {
                let sq = sqrt_floor(disc);
                let r1 = ((-hb - sq) * (SCALE as int)) / a;
                if t0 <= r1 <= t1 {
                    Some(r1)
                } else {
                    let r2 = ((-hb + sq) * (SCALE as int)) / a;
                    if t0 <= r2 <= t1 {
                        Some(r2)
                    } else {
                        None
                    }
                }
            }
        }
    }

    /// The record built for an accepted root.
    pub open spec fn spec_rec(self, r: Ray, root: int) -> Hitrecord {
        let p = Vec3 {
            x: (r.orig.x + fmul(root, r.dir.x as int)) as i64,
            y: (r.orig.y + fmul(root, r.dir.y as int)) as i64,
            z: (r.orig.z + fmul(root, r.dir.z as int)) as i64,
        };
        let outward = Vec3 {
            x: spec_clamp_norm(fdiv(p.x - self.center.x, self.radius as int)) as i64,
            y: spec_clamp_norm(fdiv(p.y - self.center.y, self.radius as int)) as i64,
            z: spec_clamp_norm(fdiv(p.z - self.center.z, self.radius as int)) as i64,
        };
        let face = Hitrecord::spec_face(r, outward);
        let uv = spec_sphere_uv(outward);
        Hitrecord {
            p,
            normal: face.1,
            mat_ptr: self.mat_ptr,
            t: root as i64,
            u: uv.0 as i64,
            v: uv.1 as i64,
            front_face: face.0,
        }
    }

    /// The full hit decision: a selected root is accepted only for a
    /// sphere of positive radius and only when the reached position
    /// is inside the sphere's own box.
    pub open spec fn spec_hit(self, r: Ray, t0: int, t1: int) -> Option<Hitrecord> {
        match self.spec_root(r, t0, t1) {
            None => None,
            Some(root) => if self.radius > 0 && self.spec_bbox().hits_at(r, root) {
                Some(self.spec_rec(r, root))
            } else {
                None
            },
        }
    }

    /// Intersects the ray with the sphere over `[t_min, t_max]`.
    pub fn hit(&self, ray: &Ray, t_min: i64, t_max: i64) -> (res: Option<Hitrecord>)
        requires
            self.wf(),
            ray_wf(*ray),
            t_range_ok(t_min as int, t_max as int),
        ensures
            res is Some <==> self.spec_hit(*ray, t_min as int, t_max as int) is Some,
            res matches Some(rec) ==> (self.spec_hit(*ray, t_min as int, t_max as int)
                matches Some(m) && rec_matches(rec, m) && rec.bounded() && t_min <= rec.t <= t_max
                && self.spec_bbox().hits_at(*ray, rec.t as int) && opt_mat_wf(rec.mat_ptr)
                && crate::material::opt_mat_eq(rec.mat_ptr, self.mat_ptr)),
    {
        let ocx = ray.orig.x - self.center.x;
        let ocy = ray.orig.y - self.center.y;
        let ocz = ray.orig.z - self.center.z;
        proof {
            crate::vec3::lemma_mul_bound(ray.dir.x as int, ray.dir.x as int, 0x800_0000);
            crate::vec3::lemma_mul_bound(ray.dir.y as int, ray.dir.y as int, 0x800_0000);
            crate::vec3::lemma_mul_bound(ray.dir.z as int, ray.dir.z as int, 0x800_0000);
            crate::vec3::lemma_mul_bound2(ocx as int, ray.dir.x as int, 0x3_0000_0000, 0x800_0000);
            crate::vec3::lemma_mul_bound2(ocy as int, ray.dir.y as int, 0x3_0000_0000, 0x800_0000);
            crate::vec3::lemma_mul_bound2(ocz as int, ray.dir.z as int, 0x3_0000_0000, 0x800_0000);
            crate::vec3::lemma_mul_bound(ocx as int, ocx as int, 0x3_0000_0000);
            crate::vec3::lemma_mul_bound(ocy as int, ocy as int, 0x3_0000_0000);
            crate::vec3::lemma_mul_bound(ocz as int, ocz as int, 0x3_0000_0000);
            crate::vec3::lemma_mul_bound(self.radius as int, self.radius as int, 0x1_0000_0000);
        }
        let a: i128 = (ray.dir.x as i128) * (ray.dir.x as i128) + (ray.dir.y as i128) * (ray.dir.y
            as i128) + (ray.dir.z as i128) * (ray.dir.z as i128);
        let hb: i128 = (ocx as i128) * (ray.dir.x as i128) + (ocy as i128) * (ray.dir.y as i128)
            + (ocz as i128) * (ray.dir.z as i128);
        let c: i128 = (ocx as i128) * (ocx as i128) + (ocy as i128) * (ocy as i128) + (ocz
            as i128) * (ocz as i128) - (self.radius as i128) * (self.radius as i128);
        if a <= 0 {
            return None;
        }
        proof {
            crate::vec3::lemma_mul_bound(hb as int, hb as int, 0x4800_0000_0000_0000i128 as int);
            crate::vec3::lemma_mul_bound2(
                a as int,
                c as int,
                0xC0_0000_0000_0000i128 as int,
                0x1C_0000_0000_0000_0000i128 as int,
            );
        }
        let disc: i128 = hb * hb - a * c;
        if disc < 0 {
            return None;
        }
        let sq = isqrt(disc as u128) as i128;
        proof {
            assert(disc as u128 == disc);
        }
        let num1: i128 = -hb - sq;
        let root1 = div_floor(num1 * 65536, a);
        let root: i128 = if (t_min as i128) <= root1 && root1 <= (t_max as i128) {
            root1
        } else {
            let num2: i128 = -hb + sq;
            let root2 = div_floor(num2 * 65536, a);
            if (t_min as i128) <= root2 && root2 <= (t_max as i128) {
                root2
            } else {
                return None;
            }
        };
        if self.radius <= 0 {
            return None;
        }
        let bb = Aabb {
            minimum: Vec3 {
                x: self.center.x - self.radius - RECT_PAD,
                y: self.center.y - self.radius - RECT_PAD,
                z: self.center.z - self.radius - RECT_PAD,
            },
            maximum: Vec3 {
                x: self.center.x + self.radius + RECT_PAD,
                y: self.center.y + self.radius + RECT_PAD,
                z: self.center.z + self.radius + RECT_PAD,
            },
        };
        let rt = root as i64;
        if !bb.contains_at(ray, rt) {
            return None;
        }
        let p = ray.at(rt);
        proof {
            lemma_slab_point(
                bb.minimum.x as int,
                bb.maximum.x as int,
                ray.orig.x as int,
                ray.dir.x as int,
                rt as int,
                p.x as int,
            );
            lemma_slab_point(
                bb.minimum.y as int,
                bb.maximum.y as int,
                ray.orig.y as int,
                ray.dir.y as int,
                rt as int,
                p.y as int,
            );
            lemma_slab_point(
                bb.minimum.z as int,
                bb.maximum.z as int,
                ray.orig.z as int,
                ray.dir.z as int,
                rt as int,
                p.z as int,
            );
        }
        let pcx = p.x - self.center.x;
        let pcy = p.y - self.center.y;
        let pcz = p.z - self.center.z;
        let outward = Vec3 {
            x: clamp_norm(div_fx(pcx, self.radius)),
            y: clamp_norm(div_fx(pcy, self.radius)),
            z: clamp_norm(div_fx(pcz, self.radius)),
        };
        let mut u: i64 = 0;
        let mut v: i64 = 0;
        Sphere::get_sphere_uv(&outward, &mut u, &mut v);
        let d = Vec3::dot(&ray.direction(), &outward);
        let front_face = d < 0;
        let normal = if front_face {
            outward.copy()
        } else {
            outward.neg()
        };
        let mp = crate::material::copy_opt_mat(&self.mat_ptr);
        proof {
            crate::material::lemma_opt_mat_eq_wf(mp, self.mat_ptr);
        }
        Some(Hitrecord { p, normal, mat_ptr: mp, t: rt, u, v, front_face })
    }
}

/// Clamps a texture coordinate into `[0, SCALE]`.
fn clamp_uv(x: i64) -> (r: i64)
    ensures
        r == spec_clamp_uv(x as int),
        0 <= r <= SCALE,
{
    if x < 0 {
        0
    } else if x > SCALE {
        SCALE
    } else {
        x
    }
}

} // verus!
