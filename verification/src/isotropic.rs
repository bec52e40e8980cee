//! The volume phase function: scatters uniformly in all directions.

use vstd::prelude::*;
use crate::fixed::SCALE;
use crate::vec3::{Vec3, Color};
use crate::ray::Ray;
use crate::hittable::Hitrecord;
use crate::texture::Texture;
use crate::solidcolor::Solidcolor;
use crate::checker_texture::copy_opt;

verus! {

pub struct Isotropic {
    pub albedo: Option<Box<Texture>>,
}

impl Isotropic {
    pub open spec fn wf(self) -> bool {
        match self.albedo {
            Some(b) => b.wf(),
            None => true,
        }
    }

    pub open spec fn spec_attenuation(self, u: int, v: int, p: Vec3) -> Color {
        match self.albedo {
            Some(b) => b.spec_value(u, v, p),
            None => Vec3 { x: 0, y: 0, z: 0 },
        }
    }

    pub fn new_from_color(a: &Color) -> (r: Isotropic)
        ensures
            r.albedo == Some(Box::new(Texture::Solidcolor(Solidcolor { color_value: *a }))),
    {
        Isotropic { albedo: Some(Box::new(Texture::Solidcolor(Solidcolor::new_from_color(a)))) }
    }

    pub fn new_from_ptr(a: &Option<Box<Texture>>) -> (r: Isotropic)
        ensures
            crate::texture::opt_box_tex_eq(r.albedo, *a),
    {
        Isotropic { albedo: copy_opt(a) }
    }

    pub fn copy(&self) -> (r: Isotropic)
        ensures
            crate::texture::opt_box_tex_eq(r.albedo, self.albedo),
    {
        Isotropic { albedo: copy_opt(&self.albedo) }
    }

    /// Always scatters, into a uniformly random nonzero direction
    /// inside the unit ball, attenuated by the texture's sample at
    /// the hit point.
    pub fn scatter(&self, r_in: &Ray, rec: &Hitrecord) -> (res: Option<(Color, Ray)>)
        requires
            self.wf(),
            rec.bounded(),
        ensures
            res is Some,
            res matches Some((att, sc)) ==> att == self.spec_attenuation(
                rec.u as int,
                rec.v as int,
                rec.p,
            ) && att.nonneg() && att.x <= crate::texture::TEXMAX && att.y
                <= crate::texture::TEXMAX && att.z <= crate::texture::TEXMAX && sc.orig == rec.p && sc.tm == r_in.tm && -SCALE <= sc.dir.x <= SCALE && -SCALE
                <= sc.dir.y <= SCALE && -SCALE <= sc.dir.z <= SCALE && !(sc.dir.x == 0 && sc.dir.y
                == 0 && sc.dir.z == 0) && sc.dir.spec_len2() <= 0x1_0000_0000,
    {
        let dir = Vec3::random_in_unit_sphere();
        let attenuation = match &self.albedo {
            Some(b) => b.value(rec.u, rec.v, &rec.p),
            None => Color::default_new(),
        };
        Some((attenuation, Ray::new(&rec.p, &dir, r_in.tm)))
    }
}

} // verus!
