//! Axis-aligned bounding boxes with an exact slab test.
//!
//! The slab test decides, by integer arithmetic alone, whether some
//! quantized ray parameter within the queried range puts the ray
//! inside the box — the contract states exactly that.

use vstd::prelude::*;
use crate::fixed::{div_floor, div_ceil, SCALE};
use crate::vec3::{Vec3, Point3, VMAX};
use crate::ray::Ray;
use crate::func;

verus! {

pub struct Aabb {
    pub minimum: Point3,
    pub maximum: Point3,
}

/// One slab constraint: at parameter `t` the ray's position along
/// one axis lies between the two planes; every term carries two
/// scale factors.
pub open spec fn slab_ok(lo: int, hi: int, o: int, d: int, t: int) -> bool {
    lo * (SCALE as int) <= o * (SCALE as int) + t * d && o * (SCALE as int) + t * d <= hi * (
    SCALE as int)
}

impl Aabb {
    /// Corners in the loose linear range.
    pub open spec fn ok(self) -> bool {
        self.minimum.lin_ok() && self.maximum.lin_ok()
    }

    /// The ray sits inside all three slabs at parameter `t`.
    pub open spec fn hits_at(self, r: Ray, t: int) -> bool {
        slab_ok(self.minimum.x as int, self.maximum.x as int, r.orig.x as int, r.dir.x as int, t)
            && slab_ok(
            self.minimum.y as int,
            self.maximum.y as int,
            r.orig.y as int,
            r.dir.y as int,
            t,
        ) && slab_ok(
            self.minimum.z as int,
            self.maximum.z as int,
            r.orig.z as int,
            r.dir.z as int,
            t,
        )
    }

    /// Some parameter within the queried range puts the ray inside
    /// the box.
    pub open spec fn spec_hit(self, r: Ray, t_min: int, t_max: int) -> bool {
        exists|t: int| t_min <= t <= t_max && #[trigger] self.hits_at(r, t)
    }

    /// `other` sits inside `self`, axis by axis.
    pub open spec fn contains_box(self, other: Aabb) -> bool {
        self.minimum.x <= other.minimum.x && other.maximum.x <= self.maximum.x
            && self.minimum.y <= other.minimum.y && other.maximum.y <= self.maximum.y
            && self.minimum.z <= other.minimum.z && other.maximum.z <= self.maximum.z
    }

    /// The componentwise minimum and maximum of two boxes.
    pub open spec fn spec_surrounding(box0: Aabb, box1: Aabb) -> Aabb {
        Aabb {
            minimum: Vec3 {
                x: if box0.minimum.x < box1.minimum.x { box0.minimum.x } else { box1.minimum.x },
                y: if box0.minimum.y < box1.minimum.y { box0.minimum.y } else { box1.minimum.y },
                z: if box0.minimum.z < box1.minimum.z { box0.minimum.z } else { box1.minimum.z },
            },
            maximum: Vec3 {
                x: if box0.maximum.x > box1.maximum.x { box0.maximum.x } else { box1.maximum.x },
                y: if box0.maximum.y > box1.maximum.y { box0.maximum.y } else { box1.maximum.y },
                z: if box0.maximum.z > box1.maximum.z { box0.maximum.z } else { box1.maximum.z },
            },
        }
    }

    pub fn default_new() -> (r: Aabb)
        ensures
            r.minimum == (Vec3 { x: 0, y: 0, z: 0 }),
            r.maximum == (Vec3 { x: 0, y: 0, z: 0 }),
    {
        Aabb { minimum: Point3::default_new(), maximum: Point3::default_new() }
    }

    pub fn new(a: &Point3, b: &Point3) -> (r: Aabb)
        ensures
            r.minimum == *a,
            r.maximum == *b,
    {
        Aabb { minimum: a.copy(), maximum: b.copy() }
    }

    pub fn copy(&self) -> (r: Aabb)
        ensures
            r == *self,
    {
        Aabb { minimum: self.minimum.copy(), maximum: self.maximum.copy() }
    }

    pub fn min(&self) -> (r: Point3)
        ensures
            r == self.minimum,
    {
        self.minimum.copy()
    }

    pub fn max(&self) -> (r: Point3)
        ensures
            r == self.maximum,
    {
        self.maximum.copy()
    }

    /// The smallest box containing both arguments.
    pub fn surrounding_box(box0: &Aabb, box1: &Aabb) -> (r: Aabb)
        ensures
            r == Aabb::spec_surrounding(*box0, *box1),
    {
        let small = Point3::new(
            func::fmin(box0.minimum.x, box1.minimum.x),
            func::fmin(box0.minimum.y, box1.minimum.y),
            func::fmin(box0.minimum.z, box1.minimum.z),
        );
        let big = Point3::new(
            func::fmax(box0.maximum.x, box1.maximum.x),
            func::fmax(box0.maximum.y, box1.maximum.y),
            func::fmax(box0.maximum.z, box1.maximum.z),
        );
        Aabb::new(&small, &big)
    }

    /// Decides membership at one exact parameter: whether the ray's
    /// position at `t` lies inside the box.
    pub fn contains_at(&self, ray: &Ray, t: i64) -> (res: bool)
        requires
            self.ok(),
            ray.ok(),
            -0x40_0000_0000 <= t <= 0x40_0000_0000,
        ensures
            res == self.hits_at(*ray, t as int),
    {
        proof {
            crate::vec3::lemma_mul_bound2(t as int, ray.dir.x as int, 0x40_0000_0000, VMAX as int);
            crate::vec3::lemma_mul_bound2(t as int, ray.dir.y as int, 0x40_0000_0000, VMAX as int);
            crate::vec3::lemma_mul_bound2(t as int, ray.dir.z as int, 0x40_0000_0000, VMAX as int);
        }
        let px: i128 = (ray.orig.x as i128) * 65536 + (t as i128) * (ray.dir.x as i128);
        let py: i128 = (ray.orig.y as i128) * 65536 + (t as i128) * (ray.dir.y as i128);
        let pz: i128 = (ray.orig.z as i128) * 65536 + (t as i128) * (ray.dir.z as i128);
        (self.minimum.x as i128) * 65536 <= px && px <= (self.maximum.x as i128) * 65536 && (
        self.minimum.y as i128) * 65536 <= py && py <= (self.maximum.y as i128) * 65536 && (
        self.minimum.z as i128) * 65536 <= pz && pz <= (self.maximum.z as i128) * 65536
    }

    /// The slab test: true exactly when some quantized parameter in
    /// `[t_min, t_max]` places the ray inside the box.
    pub fn hit(&self, ray: &Ray, t_min: i64, t_max: i64) -> (res: bool)
        requires
            self.ok(),
            ray.ok(),
        ensures
            res == self.spec_hit(*ray, t_min as int, t_max as int),
    {
        let (lo1, hi1) = slab_clip(
            t_min as i128,
            t_max as i128,
            self.minimum.x,
            self.maximum.x,
            ray.orig.x,
            ray.dir.x,
        );
        let (lo2, hi2) = slab_clip(lo1, hi1, self.minimum.y, self.maximum.y, ray.orig.y, ray.dir.y);
        let (lo3, hi3) = slab_clip(lo2, hi2, self.minimum.z, self.maximum.z, ray.orig.z, ray.dir.z);
        let res = lo3 <= hi3;
        proof {
            let rr = *ray;
            let s = *self;
            if res {
                let w = lo3 as int;
                assert(slab_ok(s.minimum.z as int, s.maximum.z as int, rr.orig.z as int, rr.dir.z as int, w));
                assert(slab_ok(s.minimum.y as int, s.maximum.y as int, rr.orig.y as int, rr.dir.y as int, w));
                assert(slab_ok(s.minimum.x as int, s.maximum.x as int, rr.orig.x as int, rr.dir.x as int, w));
                assert(t_min <= w <= t_max && s.hits_at(rr, w));
                assert(s.spec_hit(rr, t_min as int, t_max as int));
            } else {
                assert(!s.spec_hit(rr, t_min as int, t_max as int)) by {
                    if s.spec_hit(rr, t_min as int, t_max as int) {
                        let t = choose|t: int|
                            t_min <= t <= t_max && #[trigger] s.hits_at(rr, t);
                        assert(slab_ok(
                            s.minimum.x as int,
                            s.maximum.x as int,
                            rr.orig.x as int,
                            rr.dir.x as int,
                            t,
                        ));
                        assert(slab_ok(
                            s.minimum.y as int,
                            s.maximum.y as int,
                            rr.orig.y as int,
                            rr.dir.y as int,
                            t,
                        ));
                        assert(slab_ok(
                            s.minimum.z as int,
                            s.maximum.z as int,
                            rr.orig.z as int,
                            rr.dir.z as int,
                            t,
                        ));
                        assert(lo3 <= t <= hi3);
                        assert(false);
                    }
                }
            }
        }
        res
    }
}

/// A parameter within one slab keeps the reached point's rounded
/// coordinate between the planes.
pub proof fn lemma_slab_point(lo: int, hi: int, o: int, d: int, t: int, p: int)
    requires
        slab_ok(lo, hi, o, d, t),
        p == o + crate::fixed::fmul(t, d),
    ensures
        lo <= p <= hi,
{
    let x = t * d;
    vstd::arithmetic::div_mod::lemma_fundamental_div_mod(x, 65536);
    assert(crate::fixed::fmul(t, d) == x / 65536);
}

/// The surrounding box contains both of its arguments.
pub proof fn lemma_surrounding_contains(a: Aabb, b: Aabb)
    ensures
        Aabb::spec_surrounding(a, b).contains_box(a),
        Aabb::spec_surrounding(a, b).contains_box(b),
{
}

/// Surrounding a box with itself gives the box back.
pub proof fn lemma_surrounding_self(a: Aabb)
    ensures
        Aabb::spec_surrounding(a, a) == a,
{
}

/// A parameter inside an inner box is inside every box that
/// contains it.
pub proof fn lemma_contains_hits_at(outer: Aabb, inner: Aabb, r: Ray, t: int)
    requires
        outer.contains_box(inner),
        inner.hits_at(r, t),
    ensures
        outer.hits_at(r, t),
{
}

/// Clips the running parameter interval by one slab.  The returned
/// interval holds exactly the parameters that lay in the old one and
/// satisfy the slab constraint.
fn slab_clip(lo: i128, hi: i128, bmin: i64, bmax: i64, o: i64, d: i64) -> (nr: (i128, i128))
    requires
        -0x8000_0000_0000_0000 <= lo <= 0x8000_0000_0000_0000,
        -0x8000_0000_0000_0000 <= hi <= 0x8000_0000_0000_0000,
        -VMAX <= bmin <= VMAX,
        -VMAX <= bmax <= VMAX,
        -VMAX <= o <= VMAX,
        -VMAX <= d <= VMAX,
    ensures
        -0x8000_0000_0000_0000 <= nr.0 <= 0x8000_0000_0000_0000,
        -0x8000_0000_0000_0000 <= nr.1 <= 0x8000_0000_0000_0000,
        forall|t: int|
            (nr.0 <= t <= nr.1) <==> (lo <= t <= hi && #[trigger] slab_ok(
                bmin as int,
                bmax as int,
                o as int,
                d as int,
                t,
            )),
{
    if d == 0 {
        if bmin <= o && o <= bmax {
            proof {
                assert forall|t: int|
                    (lo <= t <= hi) <==> (lo <= t <= hi && #[trigger] slab_ok(
                        bmin as int,
                        bmax as int,
                        o as int,
                        d as int,
                        t,
                    )) by {
                    lemma_slab_const(bmin as int, bmax as int, o as int, t);
                }
            }
            (lo, hi)
        } else {
            proof {
                assert forall|t: int|
                    (1i128 <= t <= 0i128) <==> (lo <= t <= hi && #[trigger] slab_ok(
                        bmin as int,
                        bmax as int,
                        o as int,
                        d as int,
                        t,
                    )) by {
                    lemma_slab_const(bmin as int, bmax as int, o as int, t);
                }
            }
            (1, 0)
        }
    } else {
        let (dd, a, b): (i128, i128, i128) = if d > 0 {
            (
                d as i128,
                ((bmin as i128) - (o as i128)) * 65536,
                ((bmax as i128) - (o as i128)) * 65536,
            )
        } else {
            (
                (-d) as i128,
                ((o as i128) - (bmax as i128)) * 65536,
                ((o as i128) - (bmin as i128)) * 65536,
            )
        };
        let rlo = div_ceil(a, dd);
        let rhi = div_floor(b, dd);
        let nlo = if rlo > lo {
            rlo
        } else {
            lo
        };
        let nhi = if rhi < hi {
            rhi
        } else {
            hi
        };
        proof {
            assert forall|t: int|
                (nlo <= t <= nhi) <==> (lo <= t <= hi && #[trigger] slab_ok(
                    bmin as int,
                    bmax as int,
                    o as int,
                    d as int,
                    t,
                )) by {
                lemma_axis_iff(
                    bmin as int,
                    bmax as int,
                    o as int,
                    d as int,
                    dd as int,
                    a as int,
                    b as int,
                    rlo as int,
                    rhi as int,
                    t,
                );
            }
        }
        (nlo, nhi)
    }
}

/// A slab along an axis the ray does not advance in is a constant
/// condition on the origin.
proof fn lemma_slab_const(bmin: int, bmax: int, o: int, t: int)
    ensures
        slab_ok(bmin, bmax, o, 0, t) <==> (bmin <= o && o <= bmax),
{
    assert(t * 0 == 0) by (nonlinear_arith);
}

/// The integer parameters satisfying one slab constraint are exactly
/// those between the rounded quotients.
proof fn lemma_axis_iff(
    bmin: int,
    bmax: int,
    o: int,
    d: int,
    dd: int,
    a: int,
    b: int,
    rlo: int,
    rhi: int,
    t: int,
)
    requires
        d != 0,
        d > 0 ==> dd == d && a == (bmin - o) * 65536 && b == (bmax - o) * 65536,
        d < 0 ==> dd == -d && a == (o - bmax) * 65536 && b == (o - bmin) * 65536,
        dd * (rlo - 1) < a <= dd * rlo,
        dd * rhi <= b < dd * (rhi + 1),
    ensures
        (rlo <= t <= rhi) <==> slab_ok(bmin, bmax, o, d, t),
{
    assert((rlo <= t <= rhi) <==> (bmin * 65536 <= o * 65536 + t * d && o * 65536 + t * d <= bmax
        * 65536)) by (nonlinear_arith)
        requires
            d != 0,
            d > 0 ==> dd == d && a == (bmin - o) * 65536 && b == (bmax - o) * 65536,
            d < 0 ==> dd == -d && a == (o - bmax) * 65536 && b == (o - bmin) * 65536,
            dd * (rlo - 1) < a <= dd * rlo,
            dd * rhi <= b < dd * (rhi + 1),
    ;
}

} // verus!
