//! Rays: an origin, a direction, and a shutter time for motion blur.

use vstd::prelude::*;
use crate::fixed::{fx_ok, fmul, SCALE, mul_fx};
use crate::vec3::{Vec3, Point3};

verus! {

pub struct Ray {
    pub orig: Point3,
    pub dir: Vec3,
    pub tm: i64,
}

impl Ray {
    /// Position along `axis` at parameter `t`, carried exactly with
    /// two scale factors: `SCALE * SCALE * (origin + (t/SCALE) * (dir/SCALE))`.
    pub open spec fn at_scaled(self, t: int, axis: int) -> int {
        self.orig.spec_axis(axis) * (SCALE as int) + t * self.dir.spec_axis(axis)
    }

    /// Origin and direction in the loose linear range, direction in
    /// the tight one, so every intersection term stays exact.
    pub open spec fn ok(self) -> bool {
        self.orig.lin_ok() && self.dir.ok()
    }

    pub fn default_new() -> (r: Ray)
        ensures
            r.orig == (Vec3 { x: 0, y: 0, z: 0 }),
            r.dir == (Vec3 { x: 0, y: 0, z: 0 }),
            r.tm == 0,
    {
        Ray { orig: Vec3::default_new(), dir: Vec3::default_new(), tm: 0 }
    }

    pub fn new(origin: &Vec3, direction: &Vec3, time: i64) -> (r: Ray)
        ensures
            r.orig == *origin,
            r.dir == *direction,
            r.tm == time,
    {
        Ray { orig: origin.copy(), dir: direction.copy(), tm: time }
    }

    pub fn copy(&self) -> (r: Ray)
        ensures
            r == *self,
    {
        Ray { orig: self.orig.copy(), dir: self.dir.copy(), tm: self.tm }
    }

    pub fn origin(&self) -> (r: Point3)
        ensures
            r == self.orig,
    {
        self.orig.copy()
    }

    pub fn direction(&self) -> (r: Vec3)
        ensures
            r == self.dir,
    {
        self.dir.copy()
    }

    pub fn time(&self) -> (r: i64)
        ensures
            r == self.tm,
    {
        self.tm
    }

    /// The point reached at parameter `t`, each component rounded
    /// toward minus infinity once.
    pub fn at(&self, t: i64) -> (r: Point3)
        requires
            self.ok(),
            fx_ok(t as int),
        ensures
            r.x == self.orig.x + fmul(t as int, self.dir.x as int),
            r.y == self.orig.y + fmul(t as int, self.dir.y as int),
            r.z == self.orig.z + fmul(t as int, self.dir.z as int),
    {
        Vec3 {
            x: self.orig.x + mul_fx(t, self.dir.x),
            y: self.orig.y + mul_fx(t, self.dir.y),
            z: self.orig.z + mul_fx(t, self.dir.z),
        }
    }
}

} // verus!
