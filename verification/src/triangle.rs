//! The triangle primitive: plane crossing plus a barycentric
//! inside test against precomputed basis vectors.

use vstd::prelude::*;
use crate::fixed::{fx_ok, fmul, fdiv, sqrt_floor, div_floor, div_fx, isqrt, SCALE, FXMAX};
use crate::vec3::{Vec3, Point3};
use crate::ray::Ray;
use crate::aabb::{Aabb, lemma_slab_point};
use crate::hittable::{Hitrecord, rec_matches, ray_wf, t_range_ok, opt_mat_wf, WMAX};
use crate::material::Material;
use crate::movingsphere::{min2, max2};
use crate::rect::RECT_PAD;
use crate::sphere::spec_clamp_uv;

verus! {

pub struct Triangle {
    pub ver: [Point3; 3],
    pub normal: Vec3,
    pub mat: Option<Box<Material>>,
    pub cen: Point3,
    pub area: i64,
    pub v: Vec3,
    pub w: Vec3,
    pub ab: Vec3,
    pub ac: Vec3,
}

/// A barycentric basis component clamped into the scalar range.
pub open spec fn spec_clamp_basis(x: int) -> int {
    if x > FXMAX {
        FXMAX as int
    } else if x < -FXMAX {
        -FXMAX as int
    } else {
        x
    }
}

/// A wide intermediate clamped into the 64-bit range.
pub open spec fn spec_clamp128(x: int) -> int {
    if x > 0x7fff_ffff_ffff_ffff {
        0x7fff_ffff_ffff_ffff
    } else if x < -0x7fff_ffff_ffff_ffff {
        -0x7fff_ffff_ffff_ffff
    } else {
        x
    }
}

/// The fixed-point distance between two points.
pub open spec fn spec_side(a: Vec3, b: Vec3) -> int {
    crate::fixed::sqrt_floor(
        (Vec3 { x: (a.x - b.x) as i64, y: (a.y - b.y) as i64, z: (a.z - b.z) as i64 }).spec_len2(),
    )
}

/// Heron's area formula over the quantized side lengths, with the
/// two partial products rescaled so the radicand fits.
pub open spec fn spec_tri_area(v0: Vec3, v1: Vec3, v2: Vec3) -> int {
    let l0 = spec_side(v0, v1);
    let l1 = spec_side(v1, v2);
    let l2 = spec_side(v2, v0);
    let p = (l0 + l1 + l2) / 2;
    let f1 = (p * (p - l2)) / 65536;
    let f2 = ((p - l0) * (p - l1)) / 65536;
    let m = f1 * f2;
    if m < 0 {
        0
    } else {
        let s = crate::fixed::sqrt_floor(m);
        if s > 0x7fff_ffff_ffff_ffff {
            0x7fff_ffff_ffff_ffff
        } else {
            s
        }
    }
}

/// The scaled-down sum of the three corner cross products.
pub open spec fn spec_tri_nsum(v0: Vec3, v1: Vec3, v2: Vec3) -> Vec3 {
    let c01 = Vec3::spec_cross(v0, v1);
    let c12 = Vec3::spec_cross(v1, v2);
    let c20 = Vec3::spec_cross(v2, v0);
    Vec3 {
        x: ((c01.x + c12.x + c20.x) / 64) as i64,
        y: ((c01.y + c12.y + c20.y) / 64) as i64,
        z: ((c01.z + c12.z + c20.z) / 64) as i64,
    }
}

/// The face normal: the unit vector of the summed cross products,
/// or the vertical fallback when they cancel.
pub open spec fn spec_tri_normal(v0: Vec3, v1: Vec3, v2: Vec3) -> Vec3 {
    let ns = spec_tri_nsum(v0, v1, v2);
    if ns.x == 0 && ns.y == 0 && ns.z == 0 {
        Vec3 { x: 0, y: SCALE, z: 0 }
    } else {
        ns.spec_unit()
    }
}

/// The barycentric basis vector: the cross of the normal with one
/// edge, rescaled so its dot with the other edge is one, clamped
/// into the scalar range.
pub open spec fn spec_basis(normal: Vec3, edge: Vec3, other: Vec3) -> Vec3 {
    let c = Vec3::spec_cross(normal, edge);
    let d = Vec3::spec_dot(other, c);
    if d == 0 {
        Vec3 { x: 0, y: 0, z: 0 }
    } else {
        let sx = if d > 0 {
            c.x as int
        } else {
            -c.x as int
        };
        let sy = if d > 0 {
            c.y as int
        } else {
            -c.y as int
        };
        let sz = if d > 0 {
            c.z as int
        } else {
            -c.z as int
        };
        let dd = if d > 0 {
            d
        } else {
            -d
        };
        Vec3 {
            x: spec_clamp_basis(spec_clamp128((sx * 4294967296) / dd)) as i64,
            y: spec_clamp_basis(spec_clamp128((sy * 4294967296) / dd)) as i64,
            z: spec_clamp_basis(spec_clamp128((sz * 4294967296) / dd)) as i64,
        }
    }
}

/// Clamps a barycentric basis component.
fn clamp_basis(x: i64) -> (r: i64)
    ensures
        r == spec_clamp_basis(x as int),
        fx_ok(r as int),
{
    if x > FXMAX {
        FXMAX
    } else if x < -FXMAX {
        -FXMAX
    } else {
        x
    }
}

impl Triangle {
    /// The vertices in range, the derived vectors in the scalar
    /// range, and the material well-formed.
    pub open spec fn wf(self) -> bool {
        (forall|i: int|
            0 <= i < 3 ==> -WMAX <= (#[trigger] self.ver@[i]).x <= WMAX && -WMAX <= self.ver@[i].y
                <= WMAX && -WMAX <= self.ver@[i].z <= WMAX) && self.normal.ok() && -2 * SCALE
            <= self.normal.x <= 2 * SCALE && -2 * SCALE <= self.normal.y <= 2 * SCALE && -2
            * SCALE <= self.normal.z <= 2 * SCALE && -2 * WMAX <= self.cen.x <= 2 * WMAX && -2
            * WMAX <= self.cen.y <= 2 * WMAX && -2 * WMAX <= self.cen.z <= 2 * WMAX && self.v.ok()
            && self.w.ok() && opt_mat_wf(self.mat)
    }

    /// The triangle's box: the tight vertex extents, carrying the
    /// one-parameter-step pad (`RECT_PAD`) so the quantized plane
    /// crossing of a steep ray still lands inside it.
    pub open spec fn spec_bbox(self) -> Aabb {
        Aabb {
            minimum: Vec3 {
                x: (min2(min2(self.ver@[0].x as int, self.ver@[1].x as int), self.ver@[2].x as int)
                    - RECT_PAD) as i64,
                y: (min2(min2(self.ver@[0].y as int, self.ver@[1].y as int), self.ver@[2].y as int)
                    - RECT_PAD) as i64,
                z: (min2(min2(self.ver@[0].z as int, self.ver@[1].z as int), self.ver@[2].z as int)
                    - RECT_PAD) as i64,
            },
            maximum: Vec3 {
                x: (max2(max2(self.ver@[0].x as int, self.ver@[1].x as int), self.ver@[2].x as int)
                    + RECT_PAD) as i64,
                y: (max2(max2(self.ver@[0].y as int, self.ver@[1].y as int), self.ver@[2].y as int)
                    + RECT_PAD) as i64,
                z: (max2(max2(self.ver@[0].z as int, self.ver@[1].z as int), self.ver@[2].z as int)
                    + RECT_PAD) as i64,
            },
        }
    }

    pub fn boundingbox(&self, time0: i64, time1: i64) -> (r: Option<Aabb>)
        requires
            self.wf(),
        ensures
            r == Some(self.spec_bbox()),
    {
        let v0 = &self.ver[0];
        let v1 = &self.ver[1];
        let v2 = &self.ver[2];
        Some(
            Aabb {
                minimum: Vec3 {
                    x: crate::func::fmin(crate::func::fmin(v0.x, v1.x), v2.x) - RECT_PAD,
                    y: crate::func::fmin(crate::func::fmin(v0.y, v1.y), v2.y) - RECT_PAD,
                    z: crate::func::fmin(crate::func::fmin(v0.z, v1.z), v2.z) - RECT_PAD,
                },
                maximum: Vec3 {
                    x: crate::func::fmax(crate::func::fmax(v0.x, v1.x), v2.x) + RECT_PAD,
                    y: crate::func::fmax(crate::func::fmax(v0.y, v1.y), v2.y) + RECT_PAD,
                    z: crate::func::fmax(crate::func::fmax(v0.z, v1.z), v2.z) + RECT_PAD,
                },
            },
        )
    }

    /// Builds the triangle and its derived quantities: the face
    /// normal from the cross products, the centroid, the area by
    /// Heron's formula, and the clamped barycentric basis.
    pub fn new(ver: &[Point3; 3], mat: &Option<Box<Material>>) -> (t: Triangle)
        requires
            forall|i: int|
                0 <= i < 3 ==> -WMAX <= (#[trigger] ver@[i]).x <= WMAX && -WMAX <= ver@[i].y
                    <= WMAX && -WMAX <= ver@[i].z <= WMAX,
        ensures
            t.ver@ == ver@,
            crate::material::opt_mat_eq(t.mat, *mat),
            t.wf() <==> opt_mat_wf(*mat),
            t.normal == spec_tri_normal(ver@[0], ver@[1], ver@[2]),
            t.cen == (Vec3 {
                x: fdiv((ver@[0].x + ver@[1].x + ver@[2].x) as int, 196608) as i64,
                y: fdiv((ver@[0].y + ver@[1].y + ver@[2].y) as int, 196608) as i64,
                z: fdiv((ver@[0].z + ver@[1].z + ver@[2].z) as int, 196608) as i64,
            }),
            t.ab == (Vec3 {
                x: (ver@[1].x - ver@[0].x) as i64,
                y: (ver@[1].y - ver@[0].y) as i64,
                z: (ver@[1].z - ver@[0].z) as i64,
            }),
            t.ac == (Vec3 {
                x: (ver@[2].x - ver@[0].x) as i64,
                y: (ver@[2].y - ver@[0].y) as i64,
                z: (ver@[2].z - ver@[0].z) as i64,
            }),
            t.v == spec_basis(t.normal, t.ab, t.ac),
            t.w == spec_basis(t.normal, t.ac, t.ab),
            t.area == spec_tri_area(ver@[0], ver@[1], ver@[2]),
    {
        let v0 = ver[0].copy();
        let v1 = ver[1].copy();
        let v2 = ver[2].copy();
        let c01 = Vec3::cross(&v0, &v1);
        let c12 = Vec3::cross(&v1, &v2);
        let c20 = Vec3::cross(&v2, &v0);
        proof {
            lemma_cross_bound(v0, v1, c01);
            lemma_cross_bound(v1, v2, c12);
            lemma_cross_bound(v2, v0, c20);
        }
        let nsum = Vec3 {
            x: div_floor((c01.x as i128) + (c12.x as i128) + (c20.x as i128), 64) as i64,
            y: div_floor((c01.y as i128) + (c12.y as i128) + (c20.y as i128), 64) as i64,
            z: div_floor((c01.z as i128) + (c12.z as i128) + (c20.z as i128), 64) as i64,
        };
        let normal: Vec3 = if nsum.x == 0 && nsum.y == 0 && nsum.z == 0 {
            Vec3 { x: 0, y: SCALE, z: 0 }
        } else {
            nsum.unit_vector()
        };
        let cen = Vec3 {
            x: div_fx(v0.x + v1.x + v2.x, 3 * SCALE),
            y: div_fx(v0.y + v1.y + v2.y, 3 * SCALE),
            z: div_fx(v0.z + v1.z + v2.z, 3 * SCALE),
        };
        let ab = Vec3 { x: v1.x - v0.x, y: v1.y - v0.y, z: v1.z - v0.z };
        let ac = Vec3 { x: v2.x - v0.x, y: v2.y - v0.y, z: v2.z - v0.z };
        proof {
            lemma_cen_bound((v0.x + v1.x + v2.x) as int, cen.x as int);
            lemma_cen_bound((v0.y + v1.y + v2.y) as int, cen.y as int);
            lemma_cen_bound((v0.z + v1.z + v2.z) as int, cen.z as int);
        }
        let area = triangle_area(&v0, &v1, &v2);
        let vv = basis(&normal, &ab, &ac);
        let ww = basis(&normal, &ac, &ab);
        let mp = crate::material::copy_opt_mat(mat);
        proof {
            crate::material::lemma_opt_mat_eq_wf(mp, *mat);
        }
        Triangle {
            ver: [v0, v1, v2],
            normal,
            mat: mp,
            cen,
            area,
            v: vv,
            w: ww,
            ab,
            ac,
        }
    }

    pub fn copy(&self) -> (t: Triangle)
        ensures
            t.ver@ == self.ver@,
            t.normal == self.normal,
            crate::material::opt_mat_eq(t.mat, self.mat),
            t.cen == self.cen,
            t.area == self.area,
            t.v == self.v,
            t.w == self.w,
            t.ab == self.ab,
            t.ac == self.ac,
    {
        let ver: [Point3; 3] = [self.ver[0].copy(), self.ver[1].copy(), self.ver[2].copy()];
        proof {
            assert(ver@ =~= self.ver@);
        }
        Triangle {
            ver,
            normal: self.normal.copy(),
            mat: crate::material::copy_opt_mat(&self.mat),
            cen: self.cen.copy(),
            area: self.area,
            v: self.v.copy(),
            w: self.w.copy(),
            ab: self.ab.copy(),
            ac: self.ac.copy(),
        }
    }

    /// The plane-crossing parameter, by the centroid and the normal.
    pub open spec fn spec_t(self, r: Ray) -> Option<int> {
        let num = (self.cen.x - r.orig.x) * self.normal.x + (self.cen.y - r.orig.y)
            * self.normal.y + (self.cen.z - r.orig.z) * self.normal.z;
        let den = r.dir.x * self.normal.x + r.dir.y * self.normal.y + r.dir.z * self.normal.z;
        if den == 0 {
            None
        } else if den > 0 {
            Some((num * (SCALE as int)) / den)
        } else {
            Some(-(((-num) * (SCALE as int)) / (-den)))
        }
    }

    /// The full hit decision: the plane parameter must lie in range
    /// and inside the padded box, and the barycentric coordinates
    /// must land inside the triangle.
    pub open spec fn spec_hit(self, r: Ray, t0: int, t1: int) -> Option<Hitrecord> {
        match self.spec_t(r) {
            None => None,
            Some(t) => if t0 <= t <= t1 && self.spec_bbox().hits_at(r, t) {
                let p = Vec3 {
                    x: (r.orig.x + fmul(t, r.dir.x as int)) as i64,
                    y: (r.orig.y + fmul(t, r.dir.y as int)) as i64,
                    z: (r.orig.z + fmul(t, r.dir.z as int)) as i64,
                };
                let apx = p.x - self.ver@[0].x;
                let apy = p.y - self.ver@[0].y;
                let apz = p.z - self.ver@[0].z;
                let gamma = (apx * self.v.x + apy * self.v.y + apz * self.v.z) / (SCALE as int);
                let beta = (apx * self.w.x + apy * self.w.y + apz * self.w.z) / (SCALE as int);
                let alpha = (SCALE as int) - gamma - beta;
                if 0 <= gamma < SCALE && 0 <= beta < SCALE && 0 <= alpha < SCALE {
                    let face = Hitrecord::spec_face(r, self.normal);
                    Some(
                        Hitrecord {
                            p,
                            normal: face.1,
                            mat_ptr: self.mat,
                            t: t as i64,
                            u: alpha as i64,
                            v: beta as i64,
                            front_face: face.0,
                        },
                    )
                } else {
                    None
                }
            } else {
                None
            },
        }
    }

    /// Intersects the ray with the triangle over `[t_min, t_max]`.
    #[verifier::rlimit(80)]
    pub fn hit(&self, ray: &Ray, t_min: i64, t_max: i64) -> (res: Option<Hitrecord>)
        requires
            self.wf(),
            ray_wf(*ray),
            t_range_ok(t_min as int, t_max as int),
        ensures
            res is Some <==> self.spec_hit(*ray, t_min as int, t_max as int) is Some,
            res matches Some(rec) ==> (self.spec_hit(*ray, t_min as int, t_max as int)
                matches Some(m) && rec_matches(rec, m) && rec.bounded() && t_min <= rec.t <= t_max
                && self.spec_bbox().hits_at(*ray, rec.t as int) && opt_mat_wf(rec.mat_ptr)
                && crate::material::opt_mat_eq(rec.mat_ptr, self.mat)),
    {
        proof {
            crate::vec3::lemma_mul_bound2(
                (self.cen.x - ray.orig.x) as int,
                self.normal.x as int,
                0x4_0000_0000,
                0x2_0000,
            );
            crate::vec3::lemma_mul_bound2(
                (self.cen.y - ray.orig.y) as int,
                self.normal.y as int,
                0x4_0000_0000,
                0x2_0000,
            );
            crate::vec3::lemma_mul_bound2(
                (self.cen.z - ray.orig.z) as int,
                self.normal.z as int,
                0x4_0000_0000,
                0x2_0000,
            );
            crate::vec3::lemma_mul_bound2(
                ray.dir.x as int,
                self.normal.x as int,
                0x800_0000,
                0x2_0000,
            );
            crate::vec3::lemma_mul_bound2(
                ray.dir.y as int,
                self.normal.y as int,
                0x800_0000,
                0x2_0000,
            );
            crate::vec3::lemma_mul_bound2(
                ray.dir.z as int,
                self.normal.z as int,
                0x800_0000,
                0x2_0000,
            );
        }
        let num: i128 = ((self.cen.x - ray.orig.x) as i128) * (self.normal.x as i128) + ((
        self.cen.y - ray.orig.y) as i128) * (self.normal.y as i128) + ((self.cen.z - ray.orig.z)
            as i128) * (self.normal.z as i128);
        let den: i128 = (ray.dir.x as i128) * (self.normal.x as i128) + (ray.dir.y as i128) * (
        self.normal.y as i128) + (ray.dir.z as i128) * (self.normal.z as i128);
        if den == 0 {
            return None;
        }
        let t128: i128 = if den > 0 {
            div_floor(num * 65536, den)
        } else {
            -div_floor(-num * 65536, -den)
        };
        if t128 < (t_min as i128) || t128 > (t_max as i128) {
            return None;
        }
        let t = t128 as i64;
        let v0 = &self.ver[0];
        let v1 = &self.ver[1];
        let v2 = &self.ver[2];
        let bb = Aabb {
            minimum: Vec3 {
                x: crate::func::fmin(crate::func::fmin(v0.x, v1.x), v2.x) - RECT_PAD,
                y: crate::func::fmin(crate::func::fmin(v0.y, v1.y), v2.y) - RECT_PAD,
                z: crate::func::fmin(crate::func::fmin(v0.z, v1.z), v2.z) - RECT_PAD,
            },
            maximum: Vec3 {
                x: crate::func::fmax(crate::func::fmax(v0.x, v1.x), v2.x) + RECT_PAD,
                y: crate::func::fmax(crate::func::fmax(v0.y, v1.y), v2.y) + RECT_PAD,
                z: crate::func::fmax(crate::func::fmax(v0.z, v1.z), v2.z) + RECT_PAD,
            },
        };
        if !bb.contains_at(ray, t) {
            return None;
        }
        let p = ray.at(t);
        proof {
            lemma_slab_point(
                bb.minimum.x as int,
                bb.maximum.x as int,
                ray.orig.x as int,
                ray.dir.x as int,
                t as int,
                p.x as int,
            );
            lemma_slab_point(
                bb.minimum.y as int,
                bb.maximum.y as int,
                ray.orig.y as int,
                ray.dir.y as int,
                t as int,
                p.y as int,
            );
            lemma_slab_point(
                bb.minimum.z as int,
                bb.maximum.z as int,
                ray.orig.z as int,
                ray.dir.z as int,
                t as int,
                p.z as int,
            );
        }
        let apx = p.x - v0.x;
        let apy = p.y - v0.y;
        let apz = p.z - v0.z;
        proof {
            crate::vec3::lemma_mul_bound2(apx as int, self.v.x as int, 0x4_0000_0000, FXMAX as int);
            crate::vec3::lemma_mul_bound2(apy as int, self.v.y as int, 0x4_0000_0000, FXMAX as int);
            crate::vec3::lemma_mul_bound2(apz as int, self.v.z as int, 0x4_0000_0000, FXMAX as int);
            crate::vec3::lemma_mul_bound2(apx as int, self.w.x as int, 0x4_0000_0000, FXMAX as int);
            crate::vec3::lemma_mul_bound2(apy as int, self.w.y as int, 0x4_0000_0000, FXMAX as int);
            crate::vec3::lemma_mul_bound2(apz as int, self.w.z as int, 0x4_0000_0000, FXMAX as int);
        }
        let gamma = div_floor(
            (apx as i128) * (self.v.x as i128) + (apy as i128) * (self.v.y as i128) + (apz
                as i128) * (self.v.z as i128),
            65536,
        );
        let beta = div_floor(
            (apx as i128) * (self.w.x as i128) + (apy as i128) * (self.w.y as i128) + (apz
                as i128) * (self.w.z as i128),
            65536,
        );
        let alpha: i128 = 65536 - gamma - beta;
        if !(0 <= gamma && gamma < 65536 && 0 <= beta && beta < 65536 && 0 <= alpha && alpha
            < 65536) {
            return None;
        }
        let d = Vec3::dot(&ray.direction(), &self.normal);
        let front_face = d < 0;
        let normal = if front_face {
            self.normal.copy()
        } else {
            self.normal.neg()
        };
        let mp = crate::material::copy_opt_mat(&self.mat);
        proof {
            crate::material::lemma_opt_mat_eq_wf(mp, self.mat);
        }
        Some(
            Hitrecord {
                p,
                normal,
                mat_ptr: mp,
                t,
                u: alpha as i64,
                v: beta as i64,
                front_face,
            },
        )
    }
}

/// Heron's area of the triangle, in fixed point.
fn triangle_area(v0: &Point3, v1: &Point3, v2: &Point3) -> (r: i64)
    requires
        v0.ok() && v1.ok() && v2.ok(),
        -WMAX <= v0.x <= WMAX && -WMAX <= v0.y <= WMAX && -WMAX <= v0.z <= WMAX,
        -WMAX <= v1.x <= WMAX && -WMAX <= v1.y <= WMAX && -WMAX <= v1.z <= WMAX,
        -WMAX <= v2.x <= WMAX && -WMAX <= v2.y <= WMAX && -WMAX <= v2.z <= WMAX,
    ensures
        r >= 0,
        r == spec_tri_area(*v0, *v1, *v2),
{
    let l0 = side_len(v0, v1);
    let l1 = side_len(v1, v2);
    let l2 = side_len(v2, v0);
    let p = div_floor((l0 as i128) + (l1 as i128) + (l2 as i128), 2) as i64;
    proof {
        crate::vec3::lemma_mul_bound(p as int, (p - l2) as int, 0xA_0000_0000i128 as int);
        crate::vec3::lemma_mul_bound((p - l0) as int, (p - l1) as int, 0xA_0000_0000i128 as int);
    }
    let f1 = div_floor((p as i128) * ((p as i128) - (l2 as i128)), 65536);
    let f2 = div_floor(((p as i128) - (l0 as i128)) * ((p as i128) - (l1 as i128)), 65536);
    proof {
        assert(-0x200_0000_0000_0000i128 <= f1 <= 0x200_0000_0000_0000i128);
        assert(-0x200_0000_0000_0000i128 <= f2 <= 0x200_0000_0000_0000i128);
        crate::vec3::lemma_mul_bound(f1 as int, f2 as int, 0x200_0000_0000_0000i128 as int);
    }
    let m: i128 = f1 * f2;
    if m < 0 {
        0
    } else {
        let s = isqrt(m as u128);
        proof {
            assert(m as u128 == m);
            assert(s <= 0x200_0000_0000_0000u128) by (nonlinear_arith)
                requires
                    s * s <= (m as u128),
                    (m as u128) <= 0x200_0000_0000_0000u128 * 0x200_0000_0000_0000u128,
            ;
        }
        if s > 0x7fff_ffff_ffff_ffff {
            0x7fff_ffff_ffff_ffff
        } else {
            s as i64
        }
    }
}

/// The fixed-point distance between two points.
fn side_len(a: &Point3, b: &Point3) -> (r: i64)
    requires
        -WMAX <= a.x <= WMAX && -WMAX <= a.y <= WMAX && -WMAX <= a.z <= WMAX,
        -WMAX <= b.x <= WMAX && -WMAX <= b.y <= WMAX && -WMAX <= b.z <= WMAX,
    ensures
        0 <= r <= 0x4_0000_0000,
        r == spec_side(*a, *b),
{
    let d = Vec3 { x: a.x - b.x, y: a.y - b.y, z: a.z - b.z };
    proof {
        crate::vec3::lemma_len2_nonneg(d);
        crate::vec3::lemma_mul_bound(d.x as int, d.x as int, 0x2_0000_0000);
        crate::vec3::lemma_mul_bound(d.y as int, d.y as int, 0x2_0000_0000);
        crate::vec3::lemma_mul_bound(d.z as int, d.z as int, 0x2_0000_0000);
    }
    let l = d.length();
    proof {
        crate::fixed::lemma_sqrt_floor(d.spec_len2());
        assert(l <= 0x4_0000_0000) by (nonlinear_arith)
            requires
                0 <= l,
                l * l <= d.spec_len2(),
                d.spec_len2() <= 0xC_0000_0000_0000_0000i128,
        ;
    }
    l
}

/// A barycentric basis vector: the cross of the normal with one
/// edge, rescaled so its dot with the other edge is one, clamped.
fn basis(normal: &Vec3, edge: &Vec3, other: &Vec3) -> (r: Vec3)
    requires
        normal.ok(),
        -2 * SCALE <= normal.x <= 2 * SCALE,
        -2 * SCALE <= normal.y <= 2 * SCALE,
        -2 * SCALE <= normal.z <= 2 * SCALE,
        -0x2_0000_0000 <= edge.x <= 0x2_0000_0000,
        -0x2_0000_0000 <= edge.y <= 0x2_0000_0000,
        -0x2_0000_0000 <= edge.z <= 0x2_0000_0000,
        -0x2_0000_0000 <= other.x <= 0x2_0000_0000,
        -0x2_0000_0000 <= other.y <= 0x2_0000_0000,
        -0x2_0000_0000 <= other.z <= 0x2_0000_0000,
    ensures
        r.ok(),
        r == spec_basis(*normal, *edge, *other),
{
    let c = Vec3::cross(normal, edge);
    proof {
        lemma_cross_bound2(*normal, *edge, c);
    }
    proof {
        crate::vec3::lemma_mul_bound2(other.x as int, c.x as int, 0x2_0000_0000, 0x8_0000_0000);
        crate::vec3::lemma_mul_bound2(other.y as int, c.y as int, 0x2_0000_0000, 0x8_0000_0000);
        crate::vec3::lemma_mul_bound2(other.z as int, c.z as int, 0x2_0000_0000, 0x8_0000_0000);
    }
    let d = Vec3::dot(other, &c);
    if d == 0 {
        return Vec3 { x: 0, y: 0, z: 0 };
    }
    let (sx, sy, sz, dd): (i128, i128, i128, i128) = if d > 0 {
        (c.x as i128, c.y as i128, c.z as i128, d)
    } else {
        (-(c.x as i128), -(c.y as i128), -(c.z as i128), -d)
    };
    proof {
        assert(-0x8_0000_0000 <= sx <= 0x8_0000_0000 && -0x8_0000_0000 <= sy <= 0x8_0000_0000
            && -0x8_0000_0000 <= sz <= 0x8_0000_0000 && 1 <= dd);
    }
    let bx = div_floor(sx * 4294967296, dd);
    let by = div_floor(sy * 4294967296, dd);
    let bz = div_floor(sz * 4294967296, dd);
    Vec3 { x: clamp_basis(clamp128(bx)), y: clamp_basis(clamp128(by)), z: clamp_basis(clamp128(bz)) }
}

/// Clamps a wide intermediate into the 64-bit range.
fn clamp128(x: i128) -> (r: i64)
    ensures
        -0x7fff_ffff_ffff_ffff <= r <= 0x7fff_ffff_ffff_ffff,
        r == spec_clamp128(x as int),
{
    if x > 0x7fff_ffff_ffff_ffff {
        0x7fff_ffff_ffff_ffff
    } else if x < -0x7fff_ffff_ffff_ffff {
        -0x7fff_ffff_ffff_ffff
    } else {
        x as i64
    }
}

/// A cross product of two world-scale vectors stays well inside the
/// wide linear range.
proof fn lemma_cross_bound(a: Vec3, b: Vec3, c: Vec3)
    requires
        -WMAX <= a.x <= WMAX && -WMAX <= a.y <= WMAX && -WMAX <= a.z <= WMAX,
        -WMAX <= b.x <= WMAX && -WMAX <= b.y <= WMAX && -WMAX <= b.z <= WMAX,
        c == Vec3::spec_cross(a, b),
    ensures
        -0x2_0000_0000_0000 <= c.x <= 0x2_0000_0000_0000,
        -0x2_0000_0000_0000 <= c.y <= 0x2_0000_0000_0000,
        -0x2_0000_0000_0000 <= c.z <= 0x2_0000_0000_0000,
{
    crate::vec3::lemma_mul_bound(a.x as int, b.y as int, WMAX as int);
    crate::vec3::lemma_mul_bound(a.y as int, b.x as int, WMAX as int);
    crate::vec3::lemma_mul_bound(a.y as int, b.z as int, WMAX as int);
    crate::vec3::lemma_mul_bound(a.z as int, b.y as int, WMAX as int);
    crate::vec3::lemma_mul_bound(a.z as int, b.x as int, WMAX as int);
    crate::vec3::lemma_mul_bound(a.x as int, b.z as int, WMAX as int);
    lemma_div_shrink(a.y * b.z - a.z * b.y);
    lemma_div_shrink(a.z * b.x - a.x * b.z);
    lemma_div_shrink(a.x * b.y - a.y * b.x);
}

/// Same for a near-unit vector against a world-scale edge.
proof fn lemma_cross_bound2(a: Vec3, b: Vec3, c: Vec3)
    requires
        -0x2_0000 <= a.x <= 0x2_0000 && -0x2_0000 <= a.y <= 0x2_0000 && -0x2_0000 <= a.z
            <= 0x2_0000,
        -0x2_0000_0000 <= b.x <= 0x2_0000_0000 && -0x2_0000_0000 <= b.y <= 0x2_0000_0000
            && -0x2_0000_0000 <= b.z <= 0x2_0000_0000,
        c == Vec3::spec_cross(a, b),
    ensures
        -0x8_0000_0000 <= c.x <= 0x8_0000_0000,
        -0x8_0000_0000 <= c.y <= 0x8_0000_0000,
        -0x8_0000_0000 <= c.z <= 0x8_0000_0000,
{
    crate::vec3::lemma_mul_bound2(a.x as int, b.y as int, 0x2_0000, 0x2_0000_0000);
    crate::vec3::lemma_mul_bound2(a.y as int, b.x as int, 0x2_0000, 0x2_0000_0000);
    crate::vec3::lemma_mul_bound2(a.y as int, b.z as int, 0x2_0000, 0x2_0000_0000);
    crate::vec3::lemma_mul_bound2(a.z as int, b.y as int, 0x2_0000, 0x2_0000_0000);
    crate::vec3::lemma_mul_bound2(a.z as int, b.x as int, 0x2_0000, 0x2_0000_0000);
    crate::vec3::lemma_mul_bound2(a.x as int, b.z as int, 0x2_0000, 0x2_0000_0000);
    lemma_div_shrink2(a.y * b.z - a.z * b.y);
    lemma_div_shrink2(a.z * b.x - a.x * b.z);
    lemma_div_shrink2(a.x * b.y - a.y * b.x);
}

/// The centroid's components stay within twice the world bound.
proof fn lemma_cen_bound(a: int, q: int)
    requires
        -0x3_0000_0000 <= a <= 0x3_0000_0000,
        q == fdiv(a, 196608),
    ensures
        -0x2_0000_0000 <= q <= 0x2_0000_0000,
{
    vstd::arithmetic::div_mod::lemma_fundamental_div_mod(a * 65536, 196608);
    assert(-0x2_0000_0000 <= q <= 0x2_0000_0000) by (nonlinear_arith)
        requires
            -0x3_0000_0000 <= a <= 0x3_0000_0000,
            a * 65536 == 196608 * q + (a * 65536) % 196608,
            0 <= (a * 65536) % 196608 < 196608,
    ;
}

/// Dividing by the scale shrinks a bounded value.
proof fn lemma_div_shrink(x: int)
    requires
        -0x2_0000_0000_0000_0000 <= x <= 0x2_0000_0000_0000_0000,
    ensures
        -0x2_0000_0000_0000 <= x / 65536 <= 0x2_0000_0000_0000,
{
    vstd::arithmetic::div_mod::lemma_fundamental_div_mod(x, 65536);
}

/// Dividing by the scale shrinks a bounded value.
proof fn lemma_div_shrink2(x: int)
    requires
        -0x8_0000_0000_0000 <= x <= 0x8_0000_0000_0000,
    ensures
        -0x8_0000_0000 <= x / 65536 <= 0x8_0000_0000,
{
    vstd::arithmetic::div_mod::lemma_fundamental_div_mod(x, 65536);
}

} // verus!
