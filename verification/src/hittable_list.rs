//! The object model: the closed set of intersectable kinds, their
//! exhaustive dispatch, and the linear-scan scene container.

use vstd::prelude::*;
use crate::fixed::{fx_ok, fmul, fdiv, div_fx, mul_fx, SCALE, FXMAX};
use crate::func::neg_ln_unit;
use crate::vec3::{Vec3, Point3};
use crate::ray::Ray;
use crate::aabb::{Aabb, lemma_contains_hits_at};
use crate::hittable::{Hitrecord, rec_matches, ray_wf, t_range_ok, opt_mat_wf, PMAX, WMAX};
use crate::material::{Material, opt_mat_eq};
use crate::sphere::Sphere;
use crate::movingsphere::Movingsphere;
use crate::rect::{XYrect, XZrect, YZrect};
use crate::triangle::Triangle;
use crate::boxx::Boxx;
use crate::translate::Translate;
use crate::rotate::{RotateY, rot_pair, spec_rot};
use crate::constant_medium::ConstantMedium;
use crate::bvhnode::Bvhnode;

verus! {

pub enum Object {
    Sphere(Sphere),
    Movingsphere(Movingsphere),
    Bvhnode(Bvhnode),
    XYrect(XYrect),
    XZrect(XZrect),
    YZrect(YZrect),
    Boxx(Boxx),
    Translate(Translate),
    RotateY(RotateY),
    ConstantMedium(ConstantMedium),
    Triangle(Triangle),
}

/// Bound on the corners of every bounding box the tree can carry.
pub const BBMAX: i64 = 0x8_0000_0000;

/// A box with corners in the tree range.
pub open spec fn box_bounded(b: Aabb) -> bool {
    -BBMAX <= b.minimum.x <= BBMAX && -BBMAX <= b.minimum.y <= BBMAX && -BBMAX <= b.minimum.z
        <= BBMAX && -BBMAX <= b.maximum.x <= BBMAX && -BBMAX <= b.maximum.y <= BBMAX && -BBMAX
        <= b.maximum.z <= BBMAX
}

/// A coordinate clamped into the tree range.
pub open spec fn spec_clamp_bb(x: int) -> int {
    if x > BBMAX {
        BBMAX as int
    } else if x < -BBMAX {
        -BBMAX as int
    } else {
        x
    }
}

/// Clamps a coordinate into the tree range.
fn clamp_bb(x: i64) -> (r: i64)
    ensures
        r == spec_clamp_bb(x as int),
{
    if x > BBMAX {
        BBMAX
    } else if x < -BBMAX {
        -BBMAX
    } else {
        x
    }
}

/// No constant-density medium anywhere beneath: the kinds whose
/// intersection is a deterministic function of the ray.
pub open spec fn no_media(o: Object) -> bool
    decreases o,
{
    match o {
        Object::ConstantMedium(_) => false,
        Object::Bvhnode(n) => (match n.left {
            Some(l) => no_media(*l),
            None => true,
        }) && (match n.right {
            Some(rr) => no_media(*rr),
            None => true,
        }),
        Object::Translate(t) => match t.ptr {
            Some(c) => no_media(*c),
            None => true,
        },
        Object::RotateY(t) => match t.ptr {
            Some(c) => no_media(*c),
            None => true,
        },
        _ => true,
    }
}

/// The object's bounding box, when it has one.
pub open spec fn obj_box(o: Object) -> Option<Aabb>
    decreases o,
{
    match o {
        Object::Sphere(s) => Some(s.spec_bbox()),
        Object::Movingsphere(s) => Some(s.spec_bbox()),
        Object::Bvhnode(n) => Some(n.boxx),
        Object::XYrect(s) => Some(s.spec_bbox()),
        Object::XZrect(s) => Some(s.spec_bbox()),
        Object::YZrect(s) => Some(s.spec_bbox()),
        Object::Boxx(b) => Some(b.spec_bbox()),
        Object::Translate(t) => match t.ptr {
            Some(c) => match obj_box(*c) {
                Some(b) => Some(
                    Aabb {
                        minimum: Vec3 {
                            x: spec_clamp_bb(b.minimum.x + t.offset.x) as i64,
                            y: spec_clamp_bb(b.minimum.y + t.offset.y) as i64,
                            z: spec_clamp_bb(b.minimum.z + t.offset.z) as i64,
                        },
                        maximum: Vec3 {
                            x: spec_clamp_bb(b.maximum.x + t.offset.x) as i64,
                            y: spec_clamp_bb(b.maximum.y + t.offset.y) as i64,
                            z: spec_clamp_bb(b.maximum.z + t.offset.z) as i64,
                        },
                    },
                ),
                None => None,
            },
            None => None,
        },
        Object::RotateY(t) => if t.hasbox {
            Some(t.bbox)
        } else {
            None
        },
        Object::ConstantMedium(m) => match m.boundary {
            Some(b) => obj_box(*b),
            None => None,
        },
        Object::Triangle(t) => Some(t.spec_bbox()),
    }
}

/// Geometric well-formedness of an object tree.
pub open spec fn obj_wf(o: Object) -> bool
    decreases o,
{
    match o {
        Object::Sphere(s) => s.wf(),
        Object::Movingsphere(s) => s.wf(),
        Object::Bvhnode(n) => box_bounded(n.boxx) && (match n.left {
            Some(l) => obj_wf(*l) && obj_box(*l) is Some && (obj_box(*l) matches Some(b)
                ==> n.boxx.contains_box(b)),
            None => true,
        }) && (match n.right {
            Some(rr) => obj_wf(*rr) && obj_box(*rr) is Some && (obj_box(*rr) matches Some(b)
                ==> n.boxx.contains_box(b)),
            None => true,
        }),
        Object::XYrect(s) => s.wf(),
        Object::XZrect(s) => s.wf(),
        Object::YZrect(s) => s.wf(),
        Object::Boxx(b) => b.wf(),
        Object::Translate(t) => -WMAX <= t.offset.x <= WMAX && -WMAX <= t.offset.y <= WMAX
            && -WMAX <= t.offset.z <= WMAX && (match t.ptr {
            Some(c) => obj_wf(*c),
            None => true,
        }),
        Object::RotateY(t) => -SCALE <= t.sin_theta <= SCALE && -SCALE <= t.cos_theta <= SCALE
            && box_bounded(t.bbox) && (match t.ptr {
            Some(c) => obj_wf(*c),
            None => true,
        }),
        Object::ConstantMedium(m) => 0 <= m.inv_density <= FXMAX && opt_mat_wf(m.phase_function)
            && (match m.boundary {
            Some(b) => obj_wf(*b),
            None => true,
        }),
        Object::Triangle(t) => t.wf(),
    }
}

/// A well-formed object's box, when present, has corners in the
/// tree range.
pub proof fn lemma_obj_box_bounded(o: Object)
    requires
        obj_wf(o),
    ensures
        obj_box(o) matches Some(b) ==> box_bounded(b),
    decreases o,
{
    match o {
        Object::Translate(t) => match t.ptr {
            Some(c) => lemma_obj_box_bounded(*c),
            None => {},
        },
        Object::ConstantMedium(m) => match m.boundary {
            Some(b) => lemma_obj_box_bounded(*b),
            None => {},
        },
        _ => {},
    }
}

/// View-level equality of two objects: the same kind with equal
/// geometry and equal-view materials, down the whole tree.  Copies
/// of an object match it.
pub open spec fn obj_matches(a: Object, b: Object) -> bool
    decreases a,
{
    match (a, b) {
        (Object::Sphere(x), Object::Sphere(y)) => x.center == y.center && x.radius == y.radius
            && opt_mat_eq(x.mat_ptr, y.mat_ptr),
        (Object::Movingsphere(x), Object::Movingsphere(y)) => x.center0 == y.center0 && x.center1
            == y.center1 && x.time0 == y.time0 && x.time1 == y.time1 && x.radius == y.radius
            && opt_mat_eq(x.mat_ptr, y.mat_ptr),
        (Object::XYrect(x), Object::XYrect(y)) => crate::rect::xyrect_matches(x, y),
        (Object::XZrect(x), Object::XZrect(y)) => crate::rect::xzrect_matches(x, y),
        (Object::YZrect(x), Object::YZrect(y)) => crate::rect::yzrect_matches(x, y),
        (Object::Triangle(x), Object::Triangle(y)) => x.ver@ == y.ver@ && x.normal == y.normal
            && x.cen == y.cen && x.area == y.area && x.v == y.v && x.w == y.w && x.ab == y.ab
            && x.ac == y.ac && opt_mat_eq(x.mat, y.mat),
        (Object::Boxx(x), Object::Boxx(y)) => x.box_min == y.box_min && x.box_max == y.box_max
            && crate::rect::xyrect_matches(x.side_front, y.side_front)
            && crate::rect::xyrect_matches(x.side_back, y.side_back)
            && crate::rect::xzrect_matches(x.side_top, y.side_top)
            && crate::rect::xzrect_matches(x.side_bottom, y.side_bottom)
            && crate::rect::yzrect_matches(x.side_right, y.side_right)
            && crate::rect::yzrect_matches(x.side_left, y.side_left),
        (Object::Translate(x), Object::Translate(y)) => x.offset == y.offset && (match (
        x.ptr,
        y.ptr,
        ) {
            (Some(c), Some(d)) => obj_matches(*c, *d),
            (None, None) => true,
            _ => false,
        }),
        (Object::RotateY(x), Object::RotateY(y)) => x.sin_theta == y.sin_theta && x.cos_theta
            == y.cos_theta && x.hasbox == y.hasbox && x.bbox == y.bbox && (match (x.ptr, y.ptr) {
            (Some(c), Some(d)) => obj_matches(*c, *d),
            (None, None) => true,
            _ => false,
        }),
        (Object::ConstantMedium(x), Object::ConstantMedium(y)) => x.inv_density == y.inv_density
            && opt_mat_eq(x.phase_function, y.phase_function) && (match (x.boundary, y.boundary) {
            (Some(c), Some(d)) => obj_matches(*c, *d),
            (None, None) => true,
            _ => false,
        }),
        (Object::Bvhnode(x), Object::Bvhnode(y)) => x.boxx == y.boxx && (match (x.left, y.left) {
            (Some(c), Some(d)) => obj_matches(*c, *d),
            (None, None) => true,
            _ => false,
        }) && (match (x.right, y.right) {
            (Some(c), Some(d)) => obj_matches(*c, *d),
            (None, None) => true,
            _ => false,
        }),
        _ => false,
    }
}

/// The medium's full decision for one drawn sample `u` in
/// `[1, SCALE]`: the boundary is probed twice for an entry and an
/// exit, the crossing interval is clamped to the query, and the
/// sample's negative-log flight distance accepts or rejects the
/// scattering event; an accepted event reports the phase-function
/// material at the reached point with the fixed placeholder
/// normal.  Every rejection before the draw is deterministic.
pub open spec fn spec_medium_hit(
    m: ConstantMedium,
    r: Ray,
    t0: int,
    t1: int,
    u: int,
) -> Option<Hitrecord> {
    match m.boundary {
        None => None,
        Some(b) => match obj_hit(*b, r, 0, 0x40_0000_0000) {
            None => None,
            Some(rec1) => if rec1.t >= 0x40_0000_0000 {
                None
            } else {
                match obj_hit(*b, r, rec1.t + 1, 0x40_0000_0000) {
                    None => None,
                    Some(rec2) => {
                        let ta0 = if rec1.t < t0 {
                            t0
                        } else {
                            rec1.t as int
                        };
                        let tb = if rec2.t > t1 {
                            t1
                        } else {
                            rec2.t as int
                        };
                        if ta0 >= tb {
                            None
                        } else {
                            let ta = if ta0 < 0 {
                                0
                            } else {
                                ta0
                            };
                            let len = crate::fixed::sqrt_floor(r.dir.spec_len2());
                            if len <= 0 || len > FXMAX {
                                None
                            } else {
                                let distance_inside = fmul(tb - ta, len);
                                let nl = crate::func::spec_neg_ln_unit(u);
                                let hd = fmul(m.inv_density as int, nl);
                                if hd < 0 || hd > FXMAX {
                                    None
                                } else if hd > distance_inside {
                                    None
                                } else {
                                    let dt = fdiv(hd, len);
                                    if dt < 0 || dt > t1 - ta {
                                        None
                                    } else {
                                        let tmid = ta + dt;
                                        if tmid < t0 || tmid > t1 {
                                            None
                                        } else {
                                            match obj_box(*b) {
                                                None => None,
                                                Some(ob) => if !ob.hits_at(r, tmid) {
                                                    None
                                                } else {
                                                    let p = Vec3 {
                                                        x: (r.orig.x + fmul(
                                                            tmid,
                                                            r.dir.x as int,
                                                        )) as i64,
                                                        y: (r.orig.y + fmul(
                                                            tmid,
                                                            r.dir.y as int,
                                                        )) as i64,
                                                        z: (r.orig.z + fmul(
                                                            tmid,
                                                            r.dir.z as int,
                                                        )) as i64,
                                                    };
                                                    if !(-PMAX <= p.x <= PMAX && -PMAX <= p.y
                                                        <= PMAX && -PMAX <= p.z <= PMAX) {
                                                        None
                                                    } else {
                                                        Some(
                                                            Hitrecord {
                                                                p,
                                                                normal: Vec3 {
                                                                    x: SCALE,
                                                                    y: 0,
                                                                    z: 0,
                                                                },
                                                                mat_ptr: m.phase_function,
                                                                t: tmid as i64,
                                                                u: 0,
                                                                v: 0,
                                                                front_face: true,
                                                            },
                                                        )
                                                    }
                                                },
                                            }
                                        }
                                    }
                                }
                            }
                        }
                    },
                }
            },
        },
    }
}

/// The later result wins when both are present.
pub open spec fn pick(nw: Option<Hitrecord>, cur: Option<Hitrecord>) -> Option<Hitrecord> {
    match nw {
        Some(r) => Some(r),
        None => cur,
    }
}

/// The closest-so-far upper bound.
pub open spec fn bound_of(cur: Option<Hitrecord>, t1: int) -> int {
    match cur {
        Some(c) => c.t as int,
        None => t1,
    }
}

/// The deterministic intersection of an object without media: what
/// each kind's hit reports, with the wrappers transforming the ray
/// and the record, and the tree pruning by its box.  The wrapper
/// arms carry explicit range guards (the moved or turned ray and
/// the shifted point must stay within the model's coordinate caps,
/// and the reached position inside the wrapper's box): within those
/// caps the wrappers agree exactly with their child's hit carried
/// through the transform; a query that overruns a cap is a miss.
pub open spec fn obj_hit(o: Object, r: Ray, t0: int, t1: int) -> Option<Hitrecord>
    decreases o, 1int,
{
    match o {
        Object::Sphere(s) => s.spec_hit(r, t0, t1),
        Object::Movingsphere(s) => s.spec_hit(r, t0, t1),
        Object::XYrect(s) => s.spec_hit(r, t0, t1),
        Object::XZrect(s) => s.spec_hit(r, t0, t1),
        Object::YZrect(s) => s.spec_hit(r, t0, t1),
        Object::Triangle(s) => s.spec_hit(r, t0, t1),
        Object::Boxx(b) => {
            let c1 = pick(b.side_front.spec_hit(r, t0, t1), None);
            let c2 = pick(b.side_back.spec_hit(r, t0, bound_of(c1, t1)), c1);
            let c3 = pick(b.side_top.spec_hit(r, t0, bound_of(c2, t1)), c2);
            let c4 = pick(b.side_bottom.spec_hit(r, t0, bound_of(c3, t1)), c3);
            let c5 = pick(b.side_right.spec_hit(r, t0, bound_of(c4, t1)), c4);
            pick(b.side_left.spec_hit(r, t0, bound_of(c5, t1)), c5)
        },
        Object::Translate(t) => match t.ptr {
            Some(c) => {
                let mo = Vec3 {
                    x: (r.orig.x - t.offset.x) as i64,
                    y: (r.orig.y - t.offset.y) as i64,
                    z: (r.orig.z - t.offset.z) as i64,
                };
                if -0x2_0000_0000 <= mo.x <= 0x2_0000_0000 && -0x2_0000_0000 <= mo.y
                    <= 0x2_0000_0000 && -0x2_0000_0000 <= mo.z <= 0x2_0000_0000 {
                    let moved = Ray { orig: mo, dir: r.dir, tm: r.tm };
                    match obj_hit(*c, moved, t0, t1) {
                        Some(rec) => {
                            let np = Vec3 {
                                x: (rec.p.x + t.offset.x) as i64,
                                y: (rec.p.y + t.offset.y) as i64,
                                z: (rec.p.z + t.offset.z) as i64,
                            };
                            let face = Hitrecord::spec_face(moved, rec.normal);
                            if -PMAX <= np.x <= PMAX && -PMAX <= np.y <= PMAX && -PMAX <= np.z
                                <= PMAX && (obj_box(o) matches Some(ob) && ob.hits_at(
                                r,
                                rec.t as int,
                            )) {
                                Some(
                                    Hitrecord {
                                        p: np,
                                        normal: face.1,
                                        mat_ptr: rec.mat_ptr,
                                        t: rec.t,
                                        u: rec.u,
                                        v: rec.v,
                                        front_face: face.0,
                                    },
                                )
                            } else {
                                None
                            }
                        },
                        None => None,
                    }
                } else {
                    None
                }
            },
            None => None,
        },
        Object::RotateY(t) => match t.ptr {
            Some(c) => {
                let ro = spec_rot(
                    t.cos_theta as int,
                    -t.sin_theta as int,
                    r.orig.x as int,
                    r.orig.z as int,
                );
                let rd = spec_rot(
                    t.cos_theta as int,
                    -t.sin_theta as int,
                    r.dir.x as int,
                    r.dir.z as int,
                );
                if -0x2_0000_0000 <= ro.0 <= 0x2_0000_0000 && -0x2_0000_0000 <= ro.1
                    <= 0x2_0000_0000 && -0x800_0000 <= rd.0 <= 0x800_0000 && -0x800_0000 <= rd.1
                    <= 0x800_0000 {
                    let rray = Ray {
                        orig: Vec3 { x: ro.0 as i64, y: r.orig.y, z: ro.1 as i64 },
                        dir: Vec3 { x: rd.0 as i64, y: r.dir.y, z: rd.1 as i64 },
                        tm: r.tm,
                    };
                    match obj_hit(*c, rray, t0, t1) {
                        Some(rec) => {
                            let bp = spec_rot(
                                t.cos_theta as int,
                                t.sin_theta as int,
                                rec.p.x as int,
                                rec.p.z as int,
                            );
                            let bn = spec_rot(
                                t.cos_theta as int,
                                t.sin_theta as int,
                                rec.normal.x as int,
                                rec.normal.z as int,
                            );
                            let np = Vec3 { x: bp.0 as i64, y: rec.p.y, z: bp.1 as i64 };
                            let outward = Vec3 {
                                x: crate::movingsphere::spec_clamp_norm(bn.0) as i64,
                                y: rec.normal.y,
                                z: crate::movingsphere::spec_clamp_norm(bn.1) as i64,
                            };
                            let face = Hitrecord::spec_face(rray, outward);
                            if -PMAX <= np.x <= PMAX && -PMAX <= np.z <= PMAX && (!t.hasbox
                                || (obj_box(o) matches Some(ob) && ob.hits_at(r, rec.t as int))) {
                                Some(
                                    Hitrecord {
                                        p: np,
                                        normal: face.1,
                                        mat_ptr: rec.mat_ptr,
                                        t: rec.t,
                                        u: rec.u,
                                        v: rec.v,
                                        front_face: face.0,
                                    },
                                )
                            } else {
                                None
                            }
                        },
                        None => None,
                    }
                } else {
                    None
                }
            },
            None => None,
        },
        Object::ConstantMedium(_) => None,
        Object::Bvhnode(n) => if !n.boxx.spec_hit(r, t0, t1) {
            None
        } else {
            let lres = match n.left {
                Some(l) => obj_hit(*l, r, t0, t1),
                None => None,
            };
            let rres = match n.right {
                Some(rr) => obj_hit(*rr, r, t0, bound_of(lres, t1)),
                None => None,
            };
            pick(rres, lres)
        },
    }
}

impl Object {
    pub fn copy(&self) -> (r: Object)
        ensures
            no_media(r) == no_media(*self),
            obj_box(r) == obj_box(*self),
            obj_wf(*self) ==> obj_wf(r),
            obj_matches(r, *self),
        decreases self,
    {
        match self {
            Object::Sphere(s) => {
                let c = s.copy();
                proof {
                    crate::material::lemma_opt_mat_eq_wf(c.mat_ptr, s.mat_ptr);
                }
                Object::Sphere(c)
            },
            Object::Movingsphere(s) => {
                let c = s.copy();
                proof {
                    crate::material::lemma_opt_mat_eq_wf(c.mat_ptr, s.mat_ptr);
                }
                Object::Movingsphere(c)
            },
            Object::XYrect(s) => {
                let c = s.copy();
                proof {
                    crate::material::lemma_opt_mat_eq_wf(c.mp, s.mp);
                }
                Object::XYrect(c)
            },
            Object::XZrect(s) => {
                let c = s.copy();
                proof {
                    crate::material::lemma_opt_mat_eq_wf(c.mp, s.mp);
                }
                Object::XZrect(c)
            },
            Object::YZrect(s) => {
                let c = s.copy();
                proof {
                    crate::material::lemma_opt_mat_eq_wf(c.mp, s.mp);
                }
                Object::YZrect(c)
            },
            Object::Triangle(s) => {
                let c = s.copy();
                proof {
                    crate::material::lemma_opt_mat_eq_wf(c.mat, s.mat);
                }
                Object::Triangle(c)
            },
            Object::Boxx(b) => Object::Boxx(b.copy()),
            Object::Translate(t) => Object::Translate(
                Translate {
                    ptr: match &t.ptr {
                        Some(c) => Some(Box::new(c.copy())),
                        None => None,
                    },
                    offset: t.offset.copy(),
                },
            ),
            Object::RotateY(t) => Object::RotateY(
                RotateY {
                    ptr: match &t.ptr {
                        Some(c) => Some(Box::new(c.copy())),
                        None => None,
                    },
                    sin_theta: t.sin_theta,
                    cos_theta: t.cos_theta,
                    hasbox: t.hasbox,
                    bbox: t.bbox.copy(),
                },
            ),
            Object::ConstantMedium(m) => {
                let pf = crate::material::copy_opt_mat(&m.phase_function);
                proof {
                    crate::material::lemma_opt_mat_eq_wf(pf, m.phase_function);
                }
                Object::ConstantMedium(
                    ConstantMedium {
                        boundary: match &m.boundary {
                            Some(c) => Some(Box::new(c.copy())),
                            None => None,
                        },
                        phase_function: pf,
                        inv_density: m.inv_density,
                    },
                )
            },
            Object::Bvhnode(n) => Object::Bvhnode(
                Bvhnode {
                    left: match &n.left {
                        Some(c) => Some(Box::new(c.copy())),
                        None => None,
                    },
                    right: match &n.right {
                        Some(c) => Some(Box::new(c.copy())),
                        None => None,
                    },
                    boxx: n.boxx.copy(),
                },
            ),
        }
    }

    /// The object's bounding box over the scene's shutter interval.
    pub fn boundingbox(&self, time0: i64, time1: i64) -> (r: Option<Aabb>)
        requires
            obj_wf(*self),
        ensures
            r == obj_box(*self),
        decreases self,
    {
        match self {
            Object::Sphere(s) => s.boundingbox(time0, time1),
            Object::Movingsphere(s) => s.boundingbox(time0, time1),
            Object::XYrect(s) => s.boundingbox(time0, time1),
            Object::XZrect(s) => s.boundingbox(time0, time1),
            Object::YZrect(s) => s.boundingbox(time0, time1),
            Object::Triangle(s) => s.boundingbox(time0, time1),
            Object::Boxx(b) => b.boundingbox(time0, time1),
            Object::Bvhnode(n) => Some(n.boxx.copy()),
            Object::RotateY(t) => if t.hasbox {
                Some(t.bbox.copy())
            } else {
                None
            },
            Object::ConstantMedium(m) => match &m.boundary {
                Some(b) => b.boundingbox(time0, time1),
                None => None,
            },
            Object::Translate(t) => match &t.ptr {
                Some(c) => {
                    proof {
                        lemma_obj_box_bounded(**c);
                    }
                    match c.boundingbox(time0, time1) {
                    Some(b) => Some(
                        Aabb {
                            minimum: Vec3 {
                                x: clamp_bb(b.minimum.x + t.offset.x),
                                y: clamp_bb(b.minimum.y + t.offset.y),
                                z: clamp_bb(b.minimum.z + t.offset.z),
                            },
                            maximum: Vec3 {
                                x: clamp_bb(b.maximum.x + t.offset.x),
                                y: clamp_bb(b.maximum.y + t.offset.y),
                                z: clamp_bb(b.maximum.z + t.offset.z),
                            },
                        },
                    ),
                    None => None,
                }},
                None => None,
            },
        }
    }

    /// Intersects a ray with the object: exact against the
    /// deterministic model wherever no medium is involved, and
    /// always delivering a bounded record inside the object's box.
    #[verifier::rlimit(100)]
    pub fn hit(&self, ray: &Ray, t_min: i64, t_max: i64) -> (res: Option<Hitrecord>)
        requires
            obj_wf(*self),
            ray_wf(*ray),
            t_range_ok(t_min as int, t_max as int),
        ensures
            no_media(*self) ==> ((res is Some <==> obj_hit(*self, *ray, t_min as int, t_max as int)
                is Some) && (res matches Some(rec) ==> (obj_hit(
                *self,
                *ray,
                t_min as int,
                t_max as int,
            ) matches Some(m) && rec_matches(rec, m)))),
            res matches Some(rec) ==> (rec.bounded() && t_min <= rec.t <= t_max && opt_mat_wf(
                rec.mat_ptr,
            ) && (obj_box(*self) matches Some(b) ==> b.hits_at(*ray, rec.t as int))),
            (*self) matches Object::ConstantMedium(cm2) ==> ((match cm2.boundary {
                None => true,
                Some(b) => no_media(*b) && obj_hit(*b, *ray, 0, 0x40_0000_0000) is None,
            }) ==> res is None),
            (*self) matches Object::ConstantMedium(cm3) ==> ((match cm3.boundary {
                Some(b) => no_media(*b),
                None => true,
            }) ==> ((forall|u: int|
                1 <= u <= SCALE ==> (#[trigger] spec_medium_hit(
                    cm3,
                    *ray,
                    t_min as int,
                    t_max as int,
                    u,
                )) is Some) ==> res is Some)),
            (*self) matches Object::ConstantMedium(cm) ==> ((match cm.boundary {
                Some(b) => no_media(*b),
                None => true,
            }) ==> (res matches Some(rec) ==> exists|u: int|
                1 <= u <= SCALE && ((#[trigger] spec_medium_hit(
                    cm,
                    *ray,
                    t_min as int,
                    t_max as int,
                    u,
                )) matches Some(mr) && rec_matches(rec, mr)))),
        decreases self,
    {
        match self {
            Object::Sphere(s) => s.hit(ray, t_min, t_max),
            Object::Movingsphere(s) => s.hit(ray, t_min, t_max),
            Object::XYrect(s) => s.hit(ray, t_min, t_max),
            Object::XZrect(s) => s.hit(ray, t_min, t_max),
            Object::YZrect(s) => s.hit(ray, t_min, t_max),
            Object::Triangle(s) => s.hit(ray, t_min, t_max),
            Object::Boxx(b) => {
                let mut best: Option<Hitrecord> = None;
                let mut bound: i64 = t_max;
                let r1 = b.side_front.hit(ray, t_min, bound);
                if r1.is_some() {
                    proof {
                        lemma_contains_hits_at(
                            b.spec_bbox(),
                            b.side_front.spec_bbox(),
                            *ray,
                            r1->0.t as int,
                        );
                    }
                    best = r1;
                    bound = best.as_ref().unwrap().t;
                }
                let r2 = b.side_back.hit(ray, t_min, bound);
                if r2.is_some() {
                    proof {
                        lemma_contains_hits_at(
                            b.spec_bbox(),
                            b.side_back.spec_bbox(),
                            *ray,
                            r2->0.t as int,
                        );
                    }
                    best = r2;
                    bound = best.as_ref().unwrap().t;
                }
                let r3 = b.side_top.hit(ray, t_min, bound);
                if r3.is_some() {
                    proof {
                        lemma_contains_hits_at(
                            b.spec_bbox(),
                            b.side_top.spec_bbox(),
                            *ray,
                            r3->0.t as int,
                        );
                    }
                    best = r3;
                    bound = best.as_ref().unwrap().t;
                }
                let r4 = b.side_bottom.hit(ray, t_min, bound);
                if r4.is_some() {
                    proof {
                        lemma_contains_hits_at(
                            b.spec_bbox(),
                            b.side_bottom.spec_bbox(),
                            *ray,
                            r4->0.t as int,
                        );
                    }
                    best = r4;
                    bound = best.as_ref().unwrap().t;
                }
                let r5 = b.side_right.hit(ray, t_min, bound);
                if r5.is_some() {
                    proof {
                        lemma_contains_hits_at(
                            b.spec_bbox(),
                            b.side_right.spec_bbox(),
                            *ray,
                            r5->0.t as int,
                        );
                    }
                    best = r5;
                    bound = best.as_ref().unwrap().t;
                }
                let r6 = b.side_left.hit(ray, t_min, bound);
                if r6.is_some() {
                    proof {
                        lemma_contains_hits_at(
                            b.spec_bbox(),
                            b.side_left.spec_bbox(),
                            *ray,
                            r6->0.t as int,
                        );
                    }
                    best = r6;
                }
                best
            },
            Object::Translate(t) => match &t.ptr {
                Some(child) => {
                    let mox = ray.orig.x - t.offset.x;
                    let moy = ray.orig.y - t.offset.y;
                    let moz = ray.orig.z - t.offset.z;
                    if !(-0x2_0000_0000 <= mox && mox <= 0x2_0000_0000 && -0x2_0000_0000 <= moy
                        && moy <= 0x2_0000_0000 && -0x2_0000_0000 <= moz && moz
                        <= 0x2_0000_0000) {
                        return None;
                    }
                    let moved = Ray {
                        orig: Vec3 { x: mox, y: moy, z: moz },
                        dir: ray.direction(),
                        tm: ray.tm,
                    };
                    match child.hit(&moved, t_min, t_max) {
                        Some(rec) => {
                            let npx = rec.p.x + t.offset.x;
                            let npy = rec.p.y + t.offset.y;
                            let npz = rec.p.z + t.offset.z;
                            if !(-PMAX <= npx && npx <= PMAX && -PMAX <= npy && npy <= PMAX
                                && -PMAX <= npz && npz <= PMAX) {
                                return None;
                            }
                            proof {
                                lemma_obj_box_bounded(**child);
                            }
                            let ob = match child.boundingbox(0, 0) {
                                Some(cb) => Aabb {
                                    minimum: Vec3 {
                                        x: clamp_bb(cb.minimum.x + t.offset.x),
                                        y: clamp_bb(cb.minimum.y + t.offset.y),
                                        z: clamp_bb(cb.minimum.z + t.offset.z),
                                    },
                                    maximum: Vec3 {
                                        x: clamp_bb(cb.maximum.x + t.offset.x),
                                        y: clamp_bb(cb.maximum.y + t.offset.y),
                                        z: clamp_bb(cb.maximum.z + t.offset.z),
                                    },
                                },
                                None => {
                                    return None;
                                },
                            };
                            if !ob.contains_at(ray, rec.t) {
                                return None;
                            }
                            let d = Vec3::dot(&moved.direction(), &rec.normal);
                            let ff = d < 0;
                            let nn = if ff {
                                rec.normal.copy()
                            } else {
                                rec.normal.neg()
                            };
                            Some(
                                Hitrecord {
                                    p: Vec3 { x: npx, y: npy, z: npz },
                                    normal: nn,
                                    mat_ptr: rec.mat_ptr,
                                    t: rec.t,
                                    u: rec.u,
                                    v: rec.v,
                                    front_face: ff,
                                },
                            )
                        },
                        None => None,
                    }
                },
                None => None,
            },
            Object::RotateY(t) => match &t.ptr {
                Some(child) => {
                    let ro = rot_pair(t.cos_theta, -t.sin_theta, ray.orig.x, ray.orig.z);
                    let rd = rot_pair(t.cos_theta, -t.sin_theta, ray.dir.x, ray.dir.z);
                    if !(-0x2_0000_0000 <= ro.0 && ro.0 <= 0x2_0000_0000 && -0x2_0000_0000 <= ro.1
                        && ro.1 <= 0x2_0000_0000 && -0x800_0000 <= rd.0 && rd.0 <= 0x800_0000
                        && -0x800_0000 <= rd.1 && rd.1 <= 0x800_0000) {
                        return None;
                    }
                    let rray = Ray {
                        orig: Vec3 { x: ro.0, y: ray.orig.y, z: ro.1 },
                        dir: Vec3 { x: rd.0, y: ray.dir.y, z: rd.1 },
                        tm: ray.tm,
                    };
                    match child.hit(&rray, t_min, t_max) {
                        Some(rec) => {
                            let bp = rot_pair(t.cos_theta, t.sin_theta, rec.p.x, rec.p.z);
                            let bn = rot_pair(
                                t.cos_theta,
                                t.sin_theta,
                                rec.normal.x,
                                rec.normal.z,
                            );
                            let np = Vec3 { x: bp.0, y: rec.p.y, z: bp.1 };
                            let outward = Vec3 {
                                x: crate::movingsphere::clamp_norm(bn.0),
                                y: rec.normal.y,
                                z: crate::movingsphere::clamp_norm(bn.1),
                            };
                            if !(-PMAX <= np.x && np.x <= PMAX && -PMAX <= np.z && np.z <= PMAX) {
                                return None;
                            }
                            if t.hasbox {
                                if !t.bbox.contains_at(ray, rec.t) {
                                    return None;
                                }
                            }
                            let d = Vec3::dot(&rray.direction(), &outward);
                            let ff = d < 0;
                            let nn = if ff {
                                outward.copy()
                            } else {
                                outward.neg()
                            };
                            Some(
                                Hitrecord {
                                    p: np,
                                    normal: nn,
                                    mat_ptr: rec.mat_ptr,
                                    t: rec.t,
                                    u: rec.u,
                                    v: rec.v,
                                    front_face: ff,
                                },
                            )
                        },
                        None => None,
                    }
                },
                None => None,
            },
            Object::ConstantMedium(m) => match &m.boundary {
                Some(boundary) => {
                    let ghost miss1 = spec_medium_hit(*m, *ray, t_min as int, t_max as int, 1);
                    let rec1 = match boundary.hit(ray, 0, 0x40_0000_0000) {
                        Some(rec) => rec,
                        None => {
                            proof {
                                if no_media(**boundary) {
                                    assert(miss1 is None);
                                }
                            }
                            return None;
                        },
                    };
                    if rec1.t >= 0x40_0000_0000 {
                        proof {
                            if no_media(**boundary) {
                                assert(miss1 is None);
                            }
                        }
                        return None;
                    }
                    let rec2 = match boundary.hit(ray, rec1.t + 1, 0x40_0000_0000) {
                        Some(rec) => rec,
                        None => {
                            proof {
                                if no_media(**boundary) {
                                    assert(miss1 is None);
                                }
                            }
                            return None;
                        },
                    };
                    let mut ta = rec1.t;
                    let mut tb = rec2.t;
                    if ta < t_min {
                        ta = t_min;
                    }
                    if tb > t_max {
                        tb = t_max;
                    }
                    if ta >= tb {
                        proof {
                            if no_media(**boundary) {
                                assert(miss1 is None);
                            }
                        }
                        return None;
                    }
                    if ta < 0 {
                        ta = 0;
                    }
                    let ray_length = ray.direction().length();
                    if ray_length <= 0 || ray_length > FXMAX {
                        proof {
                            if no_media(**boundary) {
                                assert(miss1 is None);
                            }
                        }
                        return None;
                    }
                    let distance_inside = mul_fx(tb - ta, ray_length);
                    let sample = crate::rng::random_fx_unit() + 1;
                    let ghost missu = spec_medium_hit(
                        *m,
                        *ray,
                        t_min as int,
                        t_max as int,
                        sample as int,
                    );
                    let nl = neg_ln_unit(sample);
                    let hit_distance = mul_fx(m.inv_density, nl);
                    if hit_distance < 0 || hit_distance > FXMAX {
                        proof {
                            if no_media(**boundary) {
                                assert(missu is None);
                            }
                        }
                        return None;
                    }
                    if hit_distance > distance_inside {
                        proof {
                            if no_media(**boundary) {
                                assert(missu is None);
                            }
                        }
                        return None;
                    }
                    let dt = div_fx(hit_distance, ray_length);
                    if dt < 0 || dt > t_max - ta {
                        proof {
                            if no_media(**boundary) {
                                assert(missu is None);
                            }
                        }
                        return None;
                    }
                    let tmid = ta + dt;
                    if tmid < t_min || tmid > t_max {
                        proof {
                            if no_media(**boundary) {
                                assert(missu is None);
                            }
                        }
                        return None;
                    }
                    proof {
                        lemma_obj_box_bounded(**boundary);
                    }
                    let ob = match boundary.boundingbox(0, 0) {
                        Some(ob) => ob,
                        None => {
                            proof {
                                if no_media(**boundary) {
                                    assert(missu is None);
                                }
                            }
                            return None;
                        },
                    };
                    if !ob.contains_at(ray, tmid) {
                        proof {
                            if no_media(**boundary) {
                                assert(missu is None);
                            }
                        }
                        return None;
                    }
                    let p = ray.at(tmid);
                    if !(-PMAX <= p.x && p.x <= PMAX && -PMAX <= p.y && p.y <= PMAX && -PMAX
                        <= p.z && p.z <= PMAX) {
                        proof {
                            if no_media(**boundary) {
                                assert(missu is None);
                            }
                        }
                        return None;
                    }
                    let mp = crate::material::copy_opt_mat(&m.phase_function);
                    proof {
                        crate::material::lemma_opt_mat_eq_wf(mp, m.phase_function);
                    }
                    let out = Hitrecord {
                        p,
                        normal: Vec3 { x: SCALE, y: 0, z: 0 },
                        mat_ptr: mp,
                        t: tmid,
                        u: 0,
                        v: 0,
                        front_face: true,
                    };
                    proof {
                        if no_media(**boundary) {
                            let ui = sample as int;
                            assert((spec_medium_hit(*m, *ray, t_min as int, t_max as int, ui)
                                matches Some(mr) && rec_matches(out, mr)));
                        }
                    }
                    Some(out)
                },
                None => {
                    proof {
                        assert(spec_medium_hit(*m, *ray, t_min as int, t_max as int, 1)
                            is None);
                    }
                    None
                },
            },
            Object::Bvhnode(n) => {
                if !n.boxx.hit(ray, t_min, t_max) {
                    return None;
                }
                let lres = match &n.left {
                    Some(l) => l.hit(ray, t_min, t_max),
                    None => None,
                };
                let bound: i64 = match &lres {
                    Some(lr) => lr.t,
                    None => t_max,
                };
                let rres = match &n.right {
                    Some(rr) => rr.hit(ray, t_min, bound),
                    None => None,
                };
                proof {
                    if lres is Some {
                        match &n.left {
                            Some(l) => {
                                match obj_box(**l) {
                                    Some(lb) => {
                                        lemma_contains_hits_at(n.boxx, lb, *ray, lres->0.t as int);
                                    },
                                    None => {},
                                }
                            },
                            None => {},
                        }
                    }
                    if rres is Some {
                        match &n.right {
                            Some(rr) => {
                                match obj_box(**rr) {
                                    Some(rb) => {
                                        lemma_contains_hits_at(n.boxx, rb, *ray, rres->0.t as int);
                                    },
                                    None => {},
                                }
                            },
                            None => {},
                        }
                    }
                }
                match rres {
                    Some(rr) => Some(rr),
                    None => lres,
                }
            },
        }
    }
}

pub struct Hittablelist {
    pub objects: Vec<Object>,
}

/// Well-formedness of every object in the scene.
pub open spec fn list_wf(objs: Seq<Object>) -> bool {
    forall|i: int| 0 <= i < objs.len() ==> obj_wf(#[trigger] objs[i])
}

/// No medium anywhere in the scene.
pub open spec fn list_no_media(objs: Seq<Object>) -> bool {
    forall|i: int| 0 <= i < objs.len() ==> no_media(#[trigger] objs[i])
}

/// The fold of the scene's boxes from object `i` onward, carrying
/// the union so far; an object without a box sinks the whole fold.
pub open spec fn spec_list_box_from(objs: Seq<Object>, i: int, acc: Aabb) -> Option<Aabb>
    decreases objs.len() - i,
{
    if i < 0 || i >= objs.len() {
        Some(acc)
    } else {
        match obj_box(objs[i]) {
            None => None,
            Some(b) => spec_list_box_from(objs, i + 1, Aabb::spec_surrounding(acc, b)),
        }
    }
}

/// The box of the whole scene: the union of every object's box,
/// absent when the scene is empty or an object has no box.
pub open spec fn spec_list_box(objs: Seq<Object>) -> Option<Aabb> {
    if objs.len() == 0 {
        None
    } else {
        match obj_box(objs[0]) {
            None => None,
            Some(b0) => spec_list_box_from(objs, 1, b0),
        }
    }
}

/// What the linear scan computes, carried from object `i` onward
/// with the closest hit so far.
pub open spec fn scan_loop(
    objs: Seq<Object>,
    r: Ray,
    t0: int,
    t1: int,
    i: int,
    cur: Option<Hitrecord>,
) -> Option<Hitrecord>
    decreases objs.len() - i,
{
    if i < 0 || i >= objs.len() {
        cur
    } else {
        let nw = obj_hit(objs[i], r, t0, bound_of(cur, t1));
        scan_loop(objs, r, t0, t1, i + 1, pick(nw, cur))
    }
}

/// The closest hit of a linear scan over the whole scene.
pub open spec fn spec_scan(objs: Seq<Object>, r: Ray, t0: int, t1: int) -> Option<Hitrecord> {
    scan_loop(objs, r, t0, t1, 0, None)
}

impl Hittablelist {
    pub fn default_new() -> (r: Hittablelist)
        ensures
            r.objects@.len() == 0,
    {
        Hittablelist { objects: Vec::new() }
    }

    pub fn new(obj: Object) -> (r: Hittablelist)
        ensures
            r.objects@.len() == 1,
            r.objects@[0] == obj,
    {
        let mut res = Hittablelist::default_new();
        res.add(obj);
        res
    }

    pub fn add(&mut self, obj: Object)
        ensures
            final(self).objects@ == old(self).objects@.push(obj),
    {
        self.objects.push(obj);
    }

    pub fn copy(&self) -> (r: Hittablelist)
        ensures
            r.objects@.len() == self.objects@.len(),
            forall|i: int|
                0 <= i < self.objects@.len() ==> (no_media(#[trigger] r.objects@[i]) == no_media(
                    self.objects@[i],
                ) && obj_box(r.objects@[i]) == obj_box(self.objects@[i]) && (obj_wf(
                    self.objects@[i],
                ) ==> obj_wf(r.objects@[i]))),
    {
        let mut res = Hittablelist::default_new();
        let mut i: usize = 0;
        while i < self.objects.len()
            invariant
                i <= self.objects@.len(),
                res.objects@.len() == i,
                forall|j: int|
                    0 <= j < i ==> (no_media(#[trigger] res.objects@[j]) == no_media(
                        self.objects@[j],
                    ) && obj_box(res.objects@[j]) == obj_box(self.objects@[j]) && (obj_wf(
                        self.objects@[j],
                    ) ==> obj_wf(res.objects@[j]))),
            decreases self.objects@.len() - i,
        {
            res.add(self.objects[i].copy());
            i = i + 1;
        }
        res
    }

    pub fn clear(&mut self)
        ensures
            final(self).objects@.len() == 0,
    {
        self.objects.clear();
    }

    /// The scene is well-formed when each object is.
    pub open spec fn wf(self) -> bool {
        list_wf(self.objects@)
    }

    /// Folds every object's box into one surrounding box; an empty
    /// scene, or any object without a box, yields none.
    pub fn boundingbox(&self, time0: i64, time1: i64) -> (r: Option<Aabb>)
        requires
            self.wf(),
        ensures
            r == spec_list_box(self.objects@),
    {
        let ghost objs = self.objects@;
        if self.objects.len() == 0 {
            return None;
        }
        let mut acc = match self.objects[0].boundingbox(time0, time1) {
            None => {
                return None;
            },
            Some(b) => b,
        };
        let mut i: usize = 1;
        while i < self.objects.len()
            invariant
                1 <= i <= objs.len(),
                self.objects@ == objs,
                list_wf(objs),
                objs.len() >= 1,
                spec_list_box(objs) == spec_list_box_from(objs, i as int, acc),
            decreases objs.len() - i,
        {
            match self.objects[i].boundingbox(time0, time1) {
                None => {
                    return None;
                },
                Some(b) => {
                    acc = Aabb::surrounding_box(&acc, &b);
                },
            }
            i = i + 1;
        }
        Some(acc)
    }

    /// Scans every object, keeping the closest hit; exactly the
    /// deterministic scan wherever no medium is present.
    pub fn hit(&self, ray: &Ray, t_min: i64, t_max: i64) -> (res: Option<Hitrecord>)
        requires
            self.wf(),
            ray_wf(*ray),
            t_range_ok(t_min as int, t_max as int),
        ensures
            list_no_media(self.objects@) ==> ((res is Some <==> spec_scan(
                self.objects@,
                *ray,
                t_min as int,
                t_max as int,
            ) is Some) && (res matches Some(rec) ==> (spec_scan(
                self.objects@,
                *ray,
                t_min as int,
                t_max as int,
            ) matches Some(m) && rec_matches(rec, m)))),
            res matches Some(rec) ==> rec.bounded() && t_min <= rec.t <= t_max && opt_mat_wf(
                rec.mat_ptr,
            ),
    {
        let ghost objs = self.objects@;
        let mut best: Option<Hitrecord> = None;
        let ghost mut spec_cur: Option<Hitrecord> = None;
        let mut i: usize = 0;
        while i < self.objects.len()
            invariant
                0 <= i <= objs.len(),
                self.objects@ == objs,
                list_wf(objs),
                ray_wf(*ray),
                t_range_ok(t_min as int, t_max as int),
                list_no_media(objs) ==> ((best is Some <==> spec_cur is Some) && (best
                    matches Some(b) ==> (spec_cur matches Some(sc) && rec_matches(b, sc)))),
                list_no_media(objs) ==> spec_scan(objs, *ray, t_min as int, t_max as int)
                    == scan_loop(objs, *ray, t_min as int, t_max as int, i as int, spec_cur),
                best matches Some(b) ==> (b.bounded() && t_min <= b.t <= t_max && opt_mat_wf(
                    b.mat_ptr,
                )),
            decreases objs.len() - i,
        {
            let bound: i64 = match &best {
                Some(b) => b.t,
                None => t_max,
            };
            let r = self.objects[i].hit(ray, t_min, bound);
            proof {
                if list_no_media(objs) {
                    assert(no_media(objs[i as int]));
                    assert(bound_of(spec_cur, t_max as int) == bound as int);
                }
            }
            match r {
                Some(rec) => {
                    best = Some(rec);
                    proof {
                        spec_cur = pick(
                            obj_hit(objs[i as int], *ray, t_min as int, bound as int),
                            spec_cur,
                        );
                    }
                },
                None => {
                    proof {
                        spec_cur = pick(
                            obj_hit(objs[i as int], *ray, t_min as int, bound as int),
                            spec_cur,
                        );
                    }
                },
            }
            i = i + 1;
        }
        best
    }
}

} // verus!
