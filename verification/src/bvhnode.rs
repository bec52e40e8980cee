//! The bounding-volume node: two children under one box, the
//! top-down builder, and the laws tying pruned traversal to the
//! plain linear scan.

use vstd::prelude::*;
use crate::aabb::{Aabb, lemma_surrounding_contains, lemma_contains_hits_at};
use crate::vec3::Vec3;
use crate::ray::Ray;
use crate::hittable::{Hitrecord, ray_wf, t_range_ok};
use crate::hittable_list::{Object, Hittablelist, obj_wf, obj_box, obj_hit, no_media, box_bounded,
    obj_matches, spec_scan, scan_loop, pick, bound_of, lemma_obj_box_bounded};

verus! {

pub struct Bvhnode {
    pub left: Option<Box<Object>>,
    pub right: Option<Box<Object>>,
    pub boxx: Aabb,
}

/// The coordinate a node's comparator orders by: the box minimum
/// along the chosen axis, or zero for an object without a box.
pub open spec fn spec_box_min(o: Object, axis: int) -> int {
    match obj_box(o) {
        Some(b) => b.minimum.spec_axis(axis),
        None => 0,
    }
}

/// A node whose two children match the two given objects in order,
/// under the union of their boxes.
pub open spec fn pair_built(n: Bvhnode, x: Object, y: Object) -> bool {
    match (n.left, n.right) {
        (Some(l), Some(rr)) => obj_matches(*l, x) && obj_matches(*rr, y) && (match (
        obj_box(*l),
        obj_box(*rr),
        ) {
            (Some(lb), Some(rb)) => n.boxx == Aabb::spec_surrounding(lb, rb),
            _ => false,
        }),
        _ => false,
    }
}

/// A two-object node ordered by the box minima on the drawn axis:
/// the object with the smaller minimum becomes the left child.
pub open spec fn pair_ordered(n: Bvhnode, f: Object, s: Object, axis: int) -> bool {
    if spec_box_min(f, axis) < spec_box_min(s, axis) {
        pair_built(n, f, s)
    } else {
        pair_built(n, s, f)
    }
}

/// The construction relation of the tree builder over a range of
/// the scene: a single object stands alone under its own box; two
/// objects are ordered by the comparison on some drawn axis; a
/// longer range splits at its midpoint into two recursively built
/// subtrees, the node's box being the union of the children's.
/// Every leaf matches the source object it was built from.
pub open spec fn built_from(n: Bvhnode, src: Seq<Object>, start: int, end: int) -> bool
    decreases end - start,
{
    if start < 0 || end > src.len() || end - start <= 0 {
        false
    } else if end - start == 1 {
        n.right is None && (match n.left {
            Some(l) => obj_matches(*l, src[start]) && (match obj_box(*l) {
                Some(b) => n.boxx == b,
                None => false,
            }),
            None => false,
        })
    } else if end - start == 2 {
        exists|axis: int|
            0 <= axis < 3 && #[trigger] pair_ordered(n, src[start], src[start + 1], axis)
    } else {
        let mid = start + (end - start) / 2;
        match (n.left, n.right) {
            (Some(l), Some(rr)) => match (*l, *rr) {
                (Object::Bvhnode(ln), Object::Bvhnode(rn)) => built_from(ln, src, start, mid)
                    && built_from(rn, src, mid, end) && n.boxx == Aabb::spec_surrounding(
                    ln.boxx,
                    rn.boxx,
                ),
                _ => false,
            },
            _ => false,
        }
    }
}

/// The children a node scans, left first.
pub open spec fn node_children(n: Bvhnode) -> Seq<Object> {
    match (n.left, n.right) {
        (Some(l), Some(rr)) => seq![*l, *rr],
        (Some(l), None) => seq![*l],
        (None, Some(rr)) => seq![*rr],
        (None, None) => Seq::empty(),
    }
}

impl Bvhnode {
    pub fn default_new() -> (r: Bvhnode)
        ensures
            r.left is None,
            r.right is None,
    {
        Bvhnode { left: None, right: None, boxx: Aabb::default_new() }
    }

    pub fn copy(&self) -> (r: Bvhnode)
        ensures
            r.boxx == self.boxx,
    {
        Bvhnode {
            left: match &self.left {
                Some(c) => Some(Box::new(c.copy())),
                None => None,
            },
            right: match &self.right {
                Some(c) => Some(Box::new(c.copy())),
                None => None,
            },
            boxx: self.boxx.copy(),
        }
    }

    /// Orders two objects by their box minima along an axis.
    pub fn box_compare(a: &Object, b: &Object, axis: i32) -> (r: bool)
        requires
            obj_wf(*a),
            obj_wf(*b),
            0 <= axis <= 2,
        ensures
            r == (spec_box_min(*a, axis as int) < spec_box_min(*b, axis as int)),
    {
        let ma = match a.boundingbox(0, 0) {
            Some(bb) => bb.minimum.axis(axis as usize),
            None => 0,
        };
        let mb = match b.boundingbox(0, 0) {
            Some(bb) => bb.minimum.axis(axis as usize),
            None => 0,
        };
        ma < mb
    }

    pub fn box_x_compare(a: &Object, b: &Object) -> (r: bool)
        requires
            obj_wf(*a),
            obj_wf(*b),
        ensures
            r == (spec_box_min(*a, 0) < spec_box_min(*b, 0)),
    {
        Bvhnode::box_compare(a, b, 0)
    }

    pub fn box_y_compare(a: &Object, b: &Object) -> (r: bool)
        requires
            obj_wf(*a),
            obj_wf(*b),
        ensures
            r == (spec_box_min(*a, 1) < spec_box_min(*b, 1)),
    {
        Bvhnode::box_compare(a, b, 1)
    }

    pub fn box_z_compare(a: &Object, b: &Object) -> (r: bool)
        requires
            obj_wf(*a),
            obj_wf(*b),
        ensures
            r == (spec_box_min(*a, 2) < spec_box_min(*b, 2)),
    {
        Bvhnode::box_compare(a, b, 2)
    }

    /// Builds the tree over the whole scene.
    pub fn new_from_list(list: &Hittablelist, time0: i64, time1: i64) -> (r: Bvhnode)
        requires
            list.objects@.len() >= 1,
            forall|i: int|
                0 <= i < list.objects@.len() ==> obj_wf(#[trigger] list.objects@[i]) && obj_box(
                    list.objects@[i],
                ) is Some,
        ensures
            obj_wf(Object::Bvhnode(r)),
            built_from(r, list.objects@, 0, list.objects@.len() as int),
    {
        let len = list.objects.len();
        Bvhnode::new_from_vec(&list.objects, 0, len, time0, time1)
    }

    /// Builds a node over a range of the scene: a single object
    /// stands alone under its own box, two are ordered by a box
    /// comparison on a drawn axis, and a longer range splits at its
    /// midpoint, in the order given; the node's box is the union of
    /// its children's.  The whole construction is pinned by the
    /// `built_from` relation.  A longer range is not re-sorted
    /// along the drawn axis before splitting: the ordering steers
    /// only how tight the boxes come out, never which hit is
    /// reported, and the node law below holds for any order.
    pub fn new_from_vec(
        src_objects: &Vec<Object>,
        start: usize,
        end: usize,
        time0: i64,
        time1: i64,
    ) -> (r: Bvhnode)
        requires
            start < end <= src_objects@.len(),
            forall|i: int|
                0 <= i < src_objects@.len() ==> obj_wf(#[trigger] src_objects@[i]) && obj_box(
                    src_objects@[i],
                ) is Some,
        ensures
            obj_wf(Object::Bvhnode(r)),
            built_from(r, src_objects@, start as int, end as int),
        decreases end - start,
    {
        let span = end - start;
        if span == 1 {
            let l = src_objects[start].copy();
            proof {
                lemma_obj_box_bounded(l);
            }
            let lb = match l.boundingbox(time0, time1) {
                Some(b) => b,
                None => Aabb::default_new(),
            };
            Bvhnode { left: Some(Box::new(l)), right: None, boxx: lb }
        } else if span == 2 {
            let axis = crate::rng::random_int_between(0, 2);
            let (lobj, robj): (Object, Object) = if Bvhnode::box_compare(
                &src_objects[start],
                &src_objects[start + 1],
                axis,
            ) {
                (src_objects[start].copy(), src_objects[start + 1].copy())
            } else {
                (src_objects[start + 1].copy(), src_objects[start].copy())
            };
            proof {
                lemma_obj_box_bounded(lobj);
                lemma_obj_box_bounded(robj);
            }
            let lb = match lobj.boundingbox(time0, time1) {
                Some(b) => b,
                None => Aabb::default_new(),
            };
            let rb = match robj.boundingbox(time0, time1) {
                Some(b) => b,
                None => Aabb::default_new(),
            };
            let boxx = Aabb::surrounding_box(&lb, &rb);
            proof {
                lemma_surrounding_contains(lb, rb);
            }
            let node = Bvhnode { left: Some(Box::new(lobj)), right: Some(Box::new(robj)), boxx };
            proof {
                assert(pair_ordered(
                    node,
                    src_objects@[start as int],
                    src_objects@[start as int + 1],
                    axis as int,
                ));
            }
            node
        } else {
            let mid = start + span / 2;
            let lnode = Bvhnode::new_from_vec(src_objects, start, mid, time0, time1);
            let rnode = Bvhnode::new_from_vec(src_objects, mid, end, time0, time1);
            let lb = lnode.boxx.copy();
            let rb = rnode.boxx.copy();
            let boxx = Aabb::surrounding_box(&lb, &rb);
            proof {
                lemma_surrounding_contains(lb, rb);
            }
            Bvhnode {
                left: Some(Box::new(Object::Bvhnode(lnode))),
                right: Some(Box::new(Object::Bvhnode(rnode))),
                boxx,
            }
        }
    }
}

/// Wherever an object reports a deterministic hit, the parameter
/// lies in the queried range and the reached position lies inside
/// the object's own bounding box.
#[verifier::rlimit(100)]
pub proof fn lemma_obj_hit_in_box(o: Object, r: Ray, t0: int, t1: int)
    requires
        obj_wf(o),
        t_range_ok(t0, t1),
    ensures
        obj_hit(o, r, t0, t1) matches Some(rec) ==> (t0 <= rec.t <= t1 && (obj_box(o)
            matches Some(b) ==> b.hits_at(r, rec.t as int))),
    decreases o,
{
    match o {
        Object::Boxx(b) => {
            let c1 = pick(b.side_front.spec_hit(r, t0, t1), None);
            let c2 = pick(b.side_back.spec_hit(r, t0, bound_of(c1, t1)), c1);
            let c3 = pick(b.side_top.spec_hit(r, t0, bound_of(c2, t1)), c2);
            let c4 = pick(b.side_bottom.spec_hit(r, t0, bound_of(c3, t1)), c3);
            let c5 = pick(b.side_right.spec_hit(r, t0, bound_of(c4, t1)), c4);
            if let Some(x) = b.side_front.spec_hit(r, t0, t1) {
                lemma_contains_hits_at(b.spec_bbox(), b.side_front.spec_bbox(), r, x.t as int);
            }
            if let Some(x) = b.side_back.spec_hit(r, t0, bound_of(c1, t1)) {
                lemma_contains_hits_at(b.spec_bbox(), b.side_back.spec_bbox(), r, x.t as int);
            }
            if let Some(x) = b.side_top.spec_hit(r, t0, bound_of(c2, t1)) {
                lemma_contains_hits_at(b.spec_bbox(), b.side_top.spec_bbox(), r, x.t as int);
            }
            if let Some(x) = b.side_bottom.spec_hit(r, t0, bound_of(c3, t1)) {
                lemma_contains_hits_at(b.spec_bbox(), b.side_bottom.spec_bbox(), r, x.t as int);
            }
            if let Some(x) = b.side_right.spec_hit(r, t0, bound_of(c4, t1)) {
                lemma_contains_hits_at(b.spec_bbox(), b.side_right.spec_bbox(), r, x.t as int);
            }
            if let Some(x) = b.side_left.spec_hit(r, t0, bound_of(c5, t1)) {
                lemma_contains_hits_at(b.spec_bbox(), b.side_left.spec_bbox(), r, x.t as int);
            }
            let c6 = pick(b.side_left.spec_hit(r, t0, bound_of(c5, t1)), c5);
            assert(obj_hit(o, r, t0, t1) == c6);
            assert(c1 matches Some(x) ==> t0 <= x.t <= t1 && b.spec_bbox().hits_at(
                r,
                x.t as int,
            ));
            assert(c2 matches Some(x) ==> t0 <= x.t <= t1 && b.spec_bbox().hits_at(
                r,
                x.t as int,
            ));
            assert(c3 matches Some(x) ==> t0 <= x.t <= t1 && b.spec_bbox().hits_at(
                r,
                x.t as int,
            ));
            assert(c4 matches Some(x) ==> t0 <= x.t <= t1 && b.spec_bbox().hits_at(
                r,
                x.t as int,
            ));
            assert(c5 matches Some(x) ==> t0 <= x.t <= t1 && b.spec_bbox().hits_at(
                r,
                x.t as int,
            ));
            assert(c6 matches Some(x) ==> t0 <= x.t <= t1 && b.spec_bbox().hits_at(
                r,
                x.t as int,
            ));
            assert(obj_box(o) == Some(b.spec_bbox()));
            if let Some(rec) = obj_hit(o, r, t0, t1) {
                assert(t0 <= rec.t <= t1);
                assert(b.spec_bbox().hits_at(r, rec.t as int));
            }
        },
        Object::Translate(t) => {
            match t.ptr {
                Some(c) => {
                    let mo = Vec3 {
                        x: (r.orig.x - t.offset.x) as i64,
                        y: (r.orig.y - t.offset.y) as i64,
                        z: (r.orig.z - t.offset.z) as i64,
                    };
                    let moved = Ray { orig: mo, dir: r.dir, tm: r.tm };
                    lemma_obj_hit_in_box(*c, moved, t0, t1);
                    if let Some(rec) = obj_hit(o, r, t0, t1) {
                        assert(t0 <= rec.t <= t1);
                        assert(obj_box(o) matches Some(bx) ==> bx.hits_at(r, rec.t as int));
                    }
                },
                None => {},
            }
        },
        Object::RotateY(t) => {
            match t.ptr {
                Some(c) => {
                    let ro = crate::rotate::spec_rot(
                        t.cos_theta as int,
                        -t.sin_theta as int,
                        r.orig.x as int,
                        r.orig.z as int,
                    );
                    let rd = crate::rotate::spec_rot(
                        t.cos_theta as int,
                        -t.sin_theta as int,
                        r.dir.x as int,
                        r.dir.z as int,
                    );
                    let rray = Ray {
                        orig: Vec3 { x: ro.0 as i64, y: r.orig.y, z: ro.1 as i64 },
                        dir: Vec3 { x: rd.0 as i64, y: r.dir.y, z: rd.1 as i64 },
                        tm: r.tm,
                    };
                    lemma_obj_hit_in_box(*c, rray, t0, t1);
                    if let Some(rec) = obj_hit(o, r, t0, t1) {
                        assert(t0 <= rec.t <= t1);
                        assert(obj_box(o) matches Some(bx) ==> bx.hits_at(r, rec.t as int));
                    }
                },
                None => {},
            }
        },
        Object::Bvhnode(n) => {
            match n.left {
                Some(l) => lemma_obj_hit_in_box(*l, r, t0, t1),
                None => {},
            }
            if obj_hit(o, r, t0, t1) is Some {
                let lres = match n.left {
                    Some(l) => obj_hit(*l, r, t0, t1),
                    None => None::<Hitrecord>,
                };
                match n.right {
                    Some(rr) => lemma_obj_hit_in_box(*rr, r, t0, bound_of(lres, t1)),
                    None => {},
                }
                if obj_hit(o, r, t0, t1) is Some {
                    match n.left {
                        Some(l) => {
                            if let Some(lr) = lres {
                                match obj_box(*l) {
                                    Some(lb) => lemma_contains_hits_at(
                                        n.boxx,
                                        lb,
                                        r,
                                        lr.t as int,
                                    ),
                                    None => {},
                                }
                            }
                        },
                        None => {},
                    }
                    match n.right {
                        Some(rr) => {
                            if let Some(rrr) = obj_hit(*rr, r, t0, bound_of(lres, t1)) {
                                match obj_box(*rr) {
                                    Some(rb) => lemma_contains_hits_at(
                                        n.boxx,
                                        rb,
                                        r,
                                        rrr.t as int,
                                    ),
                                    None => {},
                                }
                            }
                        },
                        None => {},
                    }
                }
            }
            if let Some(rec) = obj_hit(o, r, t0, t1) {
                assert(t0 <= rec.t <= t1);
                assert(obj_box(o) matches Some(bx) ==> bx.hits_at(r, rec.t as int));
            }
        },
        Object::Sphere(s) => {
            if let Some(rec) = s.spec_hit(r, t0, t1) {
                assert(t0 <= rec.t <= t1);
                assert(s.spec_bbox().hits_at(r, rec.t as int));
            }
        },
        Object::Movingsphere(s) => {
            if let Some(rec) = s.spec_hit(r, t0, t1) {
                assert(t0 <= rec.t <= t1);
                assert(s.spec_bbox().hits_at(r, rec.t as int));
            }
        },
        Object::XYrect(s) => {
            if let Some(rec) = s.spec_hit(r, t0, t1) {
                assert(t0 <= rec.t <= t1);
                assert(s.spec_bbox().hits_at(r, rec.t as int));
            }
        },
        Object::XZrect(s) => {
            if let Some(rec) = s.spec_hit(r, t0, t1) {
                assert(t0 <= rec.t <= t1);
                assert(s.spec_bbox().hits_at(r, rec.t as int));
            }
        },
        Object::YZrect(s) => {
            if let Some(rec) = s.spec_hit(r, t0, t1) {
                assert(t0 <= rec.t <= t1);
                assert(s.spec_bbox().hits_at(r, rec.t as int));
            }
        },
        Object::Triangle(s) => {
            if let Some(rec) = s.spec_hit(r, t0, t1) {
                assert(t0 <= rec.t <= t1);
                assert(s.spec_bbox().hits_at(r, rec.t as int));
            }
        },
        Object::ConstantMedium(_) => {},
    }
}

/// The tree law: a node reports exactly what a linear scan of its
/// children reports, even though the node first prunes by its own
/// box.  Applied at every node, this makes pruned traversal agree
/// with the plain scan of the scene.
#[verifier::rlimit(100)]
pub proof fn lemma_bvh_node_scan(n: Bvhnode, r: Ray, t0: int, t1: int)
    requires
        obj_wf(Object::Bvhnode(n)),
        t_range_ok(t0, t1),
    ensures
        obj_hit(Object::Bvhnode(n), r, t0, t1) == spec_scan(node_children(n), r, t0, t1),
{
    let o = Object::Bvhnode(n);
    let s = node_children(n);
    match (n.left, n.right) {
        (Some(bl), Some(brr)) => {
            let l = *bl;
            let rr = *brr;
            assert(s.len() == 2 && s[0] == l && s[1] == rr);
            let c1 = pick(obj_hit(l, r, t0, t1), None);
            let c2 = pick(obj_hit(rr, r, t0, bound_of(c1, t1)), c1);
            assert(spec_scan(s, r, t0, t1) == scan_loop(s, r, t0, t1, 1, c1));
            assert(scan_loop(s, r, t0, t1, 1, c1) == scan_loop(s, r, t0, t1, 2, c2));
            assert(scan_loop(s, r, t0, t1, 2, c2) == c2);
            if n.boxx.spec_hit(r, t0, t1) {
                assert(obj_hit(o, r, t0, t1) == c2);
            } else {
                lemma_obj_hit_in_box(l, r, t0, t1);
                if let Some(lr) = obj_hit(l, r, t0, t1) {
                    match obj_box(l) {
                        Some(lb) => {
                            lemma_contains_hits_at(n.boxx, lb, r, lr.t as int);
                            assert(n.boxx.hits_at(r, lr.t as int) && t0 <= lr.t as int <= t1);
                            assert(n.boxx.spec_hit(r, t0, t1));
                        },
                        None => {},
                    }
                }
                lemma_obj_hit_in_box(rr, r, t0, bound_of(c1, t1));
                if let Some(rres) = obj_hit(rr, r, t0, bound_of(c1, t1)) {
                    match obj_box(rr) {
                        Some(rb) => {
                            lemma_contains_hits_at(n.boxx, rb, r, rres.t as int);
                            assert(n.boxx.hits_at(r, rres.t as int));
                            assert(t0 <= rres.t as int <= bound_of(c1, t1) <= t1);
                            assert(n.boxx.spec_hit(r, t0, t1));
                        },
                        None => {},
                    }
                }
                assert(obj_hit(l, r, t0, t1) is None);
                assert(obj_hit(rr, r, t0, bound_of(c1, t1)) is None);
                assert(c2 is None);
            }
        },
        (Some(bl), None) => {
            let l = *bl;
            assert(s.len() == 1 && s[0] == l);
            let c1 = pick(obj_hit(l, r, t0, t1), None);
            assert(spec_scan(s, r, t0, t1) == scan_loop(s, r, t0, t1, 1, c1));
            assert(scan_loop(s, r, t0, t1, 1, c1) == c1);
            if n.boxx.spec_hit(r, t0, t1) {
                assert(obj_hit(o, r, t0, t1) == c1);
            } else {
                lemma_obj_hit_in_box(l, r, t0, t1);
                if let Some(lr) = obj_hit(l, r, t0, t1) {
                    match obj_box(l) {
                        Some(lb) => {
                            lemma_contains_hits_at(n.boxx, lb, r, lr.t as int);
                            assert(n.boxx.spec_hit(r, t0, t1));
                        },
                        None => {},
                    }
                }
                assert(obj_hit(l, r, t0, t1) is None);
                assert(c1 is None);
            }
        },
        (None, Some(brr)) => {
            let rr = *brr;
            assert(s.len() == 1 && s[0] == rr);
            let c1 = pick(obj_hit(rr, r, t0, t1), None);
            assert(spec_scan(s, r, t0, t1) == scan_loop(s, r, t0, t1, 1, c1));
            assert(scan_loop(s, r, t0, t1, 1, c1) == c1);
            if n.boxx.spec_hit(r, t0, t1) {
                assert(obj_hit(o, r, t0, t1) == c1);
            } else {
                lemma_obj_hit_in_box(rr, r, t0, t1);
                if let Some(rres) = obj_hit(rr, r, t0, t1) {
                    match obj_box(rr) {
                        Some(rb) => {
                            lemma_contains_hits_at(n.boxx, rb, r, rres.t as int);
                            assert(n.boxx.spec_hit(r, t0, t1));
                        },
                        None => {},
                    }
                }
                assert(obj_hit(rr, r, t0, t1) is None);
                assert(c1 is None);
            }
        },
        (None, None) => {
            assert(s.len() == 0);
            assert(spec_scan(s, r, t0, t1) is None);
        },
    }
}

} // verus!
