//! The translate wrapper: shifts a child object by a fixed offset.

use vstd::prelude::*;
use crate::vec3::{Vec3, Point3};
use crate::hittable::WMAX;
use crate::hittable_list::Object;

verus! {

pub struct Translate {
    pub ptr: Option<Box<Object>>,
    pub offset: Vec3,
}

impl Translate {
    pub fn default_new() -> (r: Translate)
        ensures
            r.ptr is None,
            r.offset == (Vec3 { x: 0, y: 0, z: 0 }),
    {
        Translate { ptr: None, offset: Vec3::default_new() }
    }

    pub fn new(p: Option<Box<Object>>, displacement: &Vec3) -> (r: Translate)
        ensures
            r.ptr == p,
            r.offset == *displacement,
    {
        Translate { ptr: p, offset: displacement.copy() }
    }

    pub fn copy(&self) -> (r: Translate)
        ensures
            r.offset == self.offset,
    {
        Translate {
            ptr: match &self.ptr {
                Some(c) => Some(Box::new(c.copy())),
                None => None,
            },
            offset: self.offset.copy(),
        }
    }
}

} // verus!
