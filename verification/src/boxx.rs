//! The box composite: six axis-aligned rectangles.

use vstd::prelude::*;
use crate::vec3::{Vec3, Point3};
use crate::aabb::Aabb;
use crate::hittable::{opt_mat_wf, WMAX};
use crate::material::Material;
use crate::rect::{XYrect, XZrect, YZrect, RECT_PAD};

verus! {

pub struct Boxx {
    pub box_min: Point3,
    pub box_max: Point3,
    pub side_front: XYrect,
    pub side_back: XYrect,
    pub side_top: XZrect,
    pub side_bottom: XZrect,
    pub side_right: YZrect,
    pub side_left: YZrect,
}

impl Boxx {
    /// The sides carry exactly the corner extents, so every side's
    /// padded box sits inside the box's own padded bounds.
    pub open spec fn wf(self) -> bool {
        -WMAX <= self.box_min.x <= WMAX && -WMAX <= self.box_min.y <= WMAX && -WMAX
            <= self.box_min.z <= WMAX && -WMAX <= self.box_max.x <= WMAX && -WMAX
            <= self.box_max.y <= WMAX && -WMAX <= self.box_max.z <= WMAX && self.box_min.x
            <= self.box_max.x && self.box_min.y <= self.box_max.y && self.box_min.z
            <= self.box_max.z && self.side_front.wf() && self.side_back.wf() && self.side_top.wf()
            && self.side_bottom.wf() && self.side_right.wf() && self.side_left.wf()
            && self.side_front == (XYrect {
            mp: self.side_front.mp,
            x0: self.box_min.x,
            x1: self.box_max.x,
            y0: self.box_min.y,
            y1: self.box_max.y,
            k: self.box_max.z,
        }) && self.side_back == (XYrect {
            mp: self.side_back.mp,
            x0: self.box_min.x,
            x1: self.box_max.x,
            y0: self.box_min.y,
            y1: self.box_max.y,
            k: self.box_min.z,
        }) && self.side_top == (XZrect {
            mp: self.side_top.mp,
            x0: self.box_min.x,
            x1: self.box_max.x,
            z0: self.box_min.z,
            z1: self.box_max.z,
            k: self.box_max.y,
        }) && self.side_bottom == (XZrect {
            mp: self.side_bottom.mp,
            x0: self.box_min.x,
            x1: self.box_max.x,
            z0: self.box_min.z,
            z1: self.box_max.z,
            k: self.box_min.y,
        }) && self.side_right == (YZrect {
            mp: self.side_right.mp,
            y0: self.box_min.y,
            y1: self.box_max.y,
            z0: self.box_min.z,
            z1: self.box_max.z,
            k: self.box_max.x,
        }) && self.side_left == (YZrect {
            mp: self.side_left.mp,
            y0: self.box_min.y,
            y1: self.box_max.y,
            z0: self.box_min.z,
            z1: self.box_max.z,
            k: self.box_min.x,
        })
    }

    /// The corner box.  The exact corners would be `box_min ..
    /// box_max`; the one-step pad (`RECT_PAD`) is carried so the box
    /// still contains its six padded sides.
    pub open spec fn spec_bbox(self) -> Aabb {
        Aabb {
            minimum: Vec3 {
                x: (self.box_min.x - RECT_PAD) as i64,
                y: (self.box_min.y - RECT_PAD) as i64,
                z: (self.box_min.z - RECT_PAD) as i64,
            },
            maximum: Vec3 {
                x: (self.box_max.x + RECT_PAD) as i64,
                y: (self.box_max.y + RECT_PAD) as i64,
                z: (self.box_max.z + RECT_PAD) as i64,
            },
        }
    }

    pub fn default_new() -> (r: Boxx)
        ensures
            r.wf(),
    {
        Boxx {
            box_min: Point3::default_new(),
            box_max: Point3::default_new(),
            side_front: XYrect::new(&None, 0, 0, 0, 0, 0),
            side_back: XYrect::new(&None, 0, 0, 0, 0, 0),
            side_top: XZrect::new(&None, 0, 0, 0, 0, 0),
            side_bottom: XZrect::new(&None, 0, 0, 0, 0, 0),
            side_right: YZrect::new(&None, 0, 0, 0, 0, 0),
            side_left: YZrect::new(&None, 0, 0, 0, 0, 0),
        }
    }

    /// Builds the six sides from the two corners, all sharing the
    /// material.
    pub fn new(p0: &Point3, p1: &Point3, ptr: &Option<Box<Material>>) -> (r: Boxx)
        requires
            -WMAX <= p0.x <= WMAX && -WMAX <= p0.y <= WMAX && -WMAX <= p0.z <= WMAX,
            -WMAX <= p1.x <= WMAX && -WMAX <= p1.y <= WMAX && -WMAX <= p1.z <= WMAX,
            p0.x <= p1.x && p0.y <= p1.y && p0.z <= p1.z,
            opt_mat_wf(*ptr),
        ensures
            r.wf(),
            r.box_min == *p0,
            r.box_max == *p1,
            crate::material::opt_mat_eq(r.side_front.mp, *ptr),
            crate::material::opt_mat_eq(r.side_back.mp, *ptr),
            crate::material::opt_mat_eq(r.side_top.mp, *ptr),
            crate::material::opt_mat_eq(r.side_bottom.mp, *ptr),
            crate::material::opt_mat_eq(r.side_right.mp, *ptr),
            crate::material::opt_mat_eq(r.side_left.mp, *ptr),
    {
        let side_front = XYrect::new(ptr, p0.x, p1.x, p0.y, p1.y, p1.z);
        let side_back = XYrect::new(ptr, p0.x, p1.x, p0.y, p1.y, p0.z);
        let side_top = XZrect::new(ptr, p0.x, p1.x, p0.z, p1.z, p1.y);
        let side_bottom = XZrect::new(ptr, p0.x, p1.x, p0.z, p1.z, p0.y);
        let side_right = YZrect::new(ptr, p0.y, p1.y, p0.z, p1.z, p1.x);
        let side_left = YZrect::new(ptr, p0.y, p1.y, p0.z, p1.z, p0.x);
        proof {
            crate::material::lemma_opt_mat_eq_wf(side_front.mp, *ptr);
            crate::material::lemma_opt_mat_eq_wf(side_back.mp, *ptr);
            crate::material::lemma_opt_mat_eq_wf(side_top.mp, *ptr);
            crate::material::lemma_opt_mat_eq_wf(side_bottom.mp, *ptr);
            crate::material::lemma_opt_mat_eq_wf(side_right.mp, *ptr);
            crate::material::lemma_opt_mat_eq_wf(side_left.mp, *ptr);
        }
        Boxx {
            box_min: p0.copy(),
            box_max: p1.copy(),
            side_front,
            side_back,
            side_top,
            side_bottom,
            side_right,
            side_left,
        }
    }

    pub fn copy(&self) -> (r: Boxx)
        ensures
            r.box_min == self.box_min,
            r.box_max == self.box_max,
            self.wf() ==> r.wf(),
            crate::rect::xyrect_matches(r.side_front, self.side_front),
            crate::rect::xyrect_matches(r.side_back, self.side_back),
            crate::rect::xzrect_matches(r.side_top, self.side_top),
            crate::rect::xzrect_matches(r.side_bottom, self.side_bottom),
            crate::rect::yzrect_matches(r.side_right, self.side_right),
            crate::rect::yzrect_matches(r.side_left, self.side_left),
    {
        let side_front = self.side_front.copy();
        let side_back = self.side_back.copy();
        let side_top = self.side_top.copy();
        let side_bottom = self.side_bottom.copy();
        let side_right = self.side_right.copy();
        let side_left = self.side_left.copy();
        proof {
            crate::material::lemma_opt_mat_eq_wf(side_front.mp, self.side_front.mp);
            crate::material::lemma_opt_mat_eq_wf(side_back.mp, self.side_back.mp);
            crate::material::lemma_opt_mat_eq_wf(side_top.mp, self.side_top.mp);
            crate::material::lemma_opt_mat_eq_wf(side_bottom.mp, self.side_bottom.mp);
            crate::material::lemma_opt_mat_eq_wf(side_right.mp, self.side_right.mp);
            crate::material::lemma_opt_mat_eq_wf(side_left.mp, self.side_left.mp);
        }
        Boxx {
            box_min: self.box_min.copy(),
            box_max: self.box_max.copy(),
            side_front,
            side_back,
            side_top,
            side_bottom,
            side_right,
            side_left,
        }
    }

    pub fn boundingbox(&self, time0: i64, time1: i64) -> (r: Option<Aabb>)
        requires
            self.wf(),
        ensures
            r == Some(self.spec_bbox()),
    {
        Some(
            Aabb {
                minimum: Vec3 {
                    x: self.box_min.x - RECT_PAD,
                    y: self.box_min.y - RECT_PAD,
                    z: self.box_min.z - RECT_PAD,
                },
                maximum: Vec3 {
                    x: self.box_max.x + RECT_PAD,
                    y: self.box_max.y + RECT_PAD,
                    z: self.box_max.z + RECT_PAD,
                },
            },
        )
    }
}

} // verus!
