//! The constant-color texture.

use vstd::prelude::*;
use crate::vec3::{Vec3, Color, Point3};

verus! {

pub struct Solidcolor {
    pub color_value: Color,
}

impl Solidcolor {
    /// Color components a well-formed texture may carry.
    pub open spec fn wf(self) -> bool {
        0 <= self.color_value.x <= 0x1_0000_0000 && 0 <= self.color_value.y <= 0x1_0000_0000 && 0
            <= self.color_value.z <= 0x1_0000_0000
    }

    pub fn default_new() -> (r: Solidcolor)
        ensures
            r.color_value == (Vec3 { x: 0, y: 0, z: 0 }),
            r.wf(),
    {
        Solidcolor { color_value: Color::default_new() }
    }

    pub fn new_from_color(c: &Color) -> (r: Solidcolor)
        ensures
            r.color_value == *c,
    {
        Solidcolor { color_value: c.copy() }
    }

    pub fn new_from_rgb(red: i64, green: i64, blue: i64) -> (r: Solidcolor)
        ensures
            r.color_value == (Vec3 { x: red, y: green, z: blue }),
    {
        Solidcolor { color_value: Color::new(red, green, blue) }
    }

    pub fn copy(&self) -> (r: Solidcolor)
        ensures
            r == *self,
    {
        Solidcolor { color_value: self.color_value.copy() }
    }

    /// A solid color ignores the coordinates.
    pub fn value(&self, u: i64, v: i64, p: &Point3) -> (r: Color)
        ensures
            r == self.color_value,
    {
        self.color_value.copy()
    }
}

} // verus!
