//! The emissive material: never scatters, always emits.

use vstd::prelude::*;
use crate::vec3::{Vec3, Color, Point3};
use crate::ray::Ray;
use crate::hittable::Hitrecord;
use crate::texture::Texture;
use crate::solidcolor::Solidcolor;
use crate::checker_texture::copy_opt;

verus! {

pub struct Diffuselight {
    pub emit: Option<Box<Texture>>,
}

impl Diffuselight {
    pub open spec fn wf(self) -> bool {
        match self.emit {
            Some(b) => b.wf(),
            None => true,
        }
    }

    /// What the light emits: its texture's sample.
    pub open spec fn spec_emitted(self, u: int, v: int, p: Vec3) -> Color {
        match self.emit {
            Some(b) => b.spec_value(u, v, p),
            None => Vec3 { x: 0, y: 0, z: 0 },
        }
    }

    pub fn default_new() -> (r: Diffuselight)
        ensures
            r.emit is None,
    {
        Diffuselight { emit: None }
    }

    pub fn new(a: &Option<Box<Texture>>) -> (r: Diffuselight)
        ensures
            crate::texture::opt_box_tex_eq(r.emit, *a),
    {
        Diffuselight { emit: copy_opt(a) }
    }

    pub fn new_from_color(c: &Color) -> (r: Diffuselight)
        ensures
            r.emit == Some(Box::new(Texture::Solidcolor(Solidcolor { color_value: *c }))),
    {
        Diffuselight {
            emit: Some(Box::new(Texture::Solidcolor(Solidcolor::new_from_color(c)))),
        }
    }

    pub fn copy(&self) -> (r: Diffuselight)
        ensures
            crate::texture::opt_box_tex_eq(r.emit, self.emit),
    {
        Diffuselight { emit: copy_opt(&self.emit) }
    }

    /// A light never scatters.
    pub fn scatter(&self, r_in: &Ray, rec: &Hitrecord) -> (res: Option<(Color, Ray)>)
        ensures
            res is None,
    {
        None
    }

    /// Emits the texture's sample, unconditionally.
    pub fn emitted(&self, u: i64, v: i64, p: &Point3) -> (r: Color)
        requires
            self.wf(),
            -0x1000_0000_0000 <= p.x <= 0x1000_0000_0000,
            -0x1000_0000_0000 <= p.y <= 0x1000_0000_0000,
            -0x1000_0000_0000 <= p.z <= 0x1000_0000_0000,
        ensures
            r == self.spec_emitted(u as int, v as int, *p),
            r.nonneg(),
            r.x <= crate::texture::TEXMAX,
            r.y <= crate::texture::TEXMAX,
            r.z <= crate::texture::TEXMAX,
    {
        match &self.emit {
            Some(b) => b.value(u, v, p),
            None => Color::default_new(),
        }
    }
}

} // verus!
