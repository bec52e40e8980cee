//! The diffuse material.

use vstd::prelude::*;
use crate::fixed::SCALE;
use crate::vec3::{Vec3, Color, Point3};
use crate::ray::Ray;
use crate::hittable::Hitrecord;
use crate::texture::Texture;
use crate::solidcolor::Solidcolor;
use crate::checker_texture::copy_opt;

verus! {

pub struct Lambertian {
    pub albedo: Option<Box<Texture>>,
}

/// The diffuse direction: the surface normal plus a drawn unit
/// vector, or the normal alone when the sum degenerates to zero.
pub open spec fn spec_lamb_dir(n: Vec3, u: Vec3) -> Vec3 {
    if n.x + u.x == 0 && n.y + u.y == 0 && n.z + u.z == 0 {
        n
    } else {
        Vec3 { x: (n.x + u.x) as i64, y: (n.y + u.y) as i64, z: (n.z + u.z) as i64 }
    }
}

impl Lambertian {
    pub open spec fn wf(self) -> bool {
        match self.albedo {
            Some(b) => b.wf(),
            None => true,
        }
    }

    /// What a diffuse surface attenuates by: its texture's sample.
    pub open spec fn spec_attenuation(self, u: int, v: int, p: Vec3) -> Color {
        match self.albedo {
            Some(b) => b.spec_value(u, v, p),
            None => Vec3 { x: 0, y: 0, z: 0 },
        }
    }

    pub fn new(a: &Color) -> (r: Lambertian)
        ensures
            r.albedo == Some(
                Box::new(Texture::Solidcolor(Solidcolor { color_value: *a })),
            ),
    {
        Lambertian { albedo: Some(Box::new(Texture::Solidcolor(Solidcolor::new_from_color(a)))) }
    }

    pub fn new_from_ptr(a: &Option<Box<Texture>>) -> (r: Lambertian)
        ensures
            crate::texture::opt_box_tex_eq(r.albedo, *a),
    {
        Lambertian { albedo: copy_opt(a) }
    }

    pub fn copy(&self) -> (r: Lambertian)
        ensures
            crate::texture::opt_box_tex_eq(r.albedo, self.albedo),
    {
        Lambertian { albedo: copy_opt(&self.albedo) }
    }

    /// Always scatters: the new ray leaves the hit point in the
    /// normal's hemisphere direction (the normal plus a random unit
    /// vector, or the normal itself when the sum degenerates), and
    /// the attenuation is the texture's sample at the hit.
    pub fn scatter(&self, r_in: &Ray, rec: &Hitrecord) -> (res: Option<(Color, Ray)>)
        requires
            self.wf(),
            rec.bounded(),
        ensures
            res is Some,
            res matches Some((att, sc)) ==> att == self.spec_attenuation(
                rec.u as int,
                rec.v as int,
                rec.p,
            ) && att.nonneg() && att.x <= crate::texture::TEXMAX && att.y
                <= crate::texture::TEXMAX && att.z <= crate::texture::TEXMAX && sc.orig == rec.p && sc.tm == r_in.tm && -5 * SCALE <= sc.dir.x <= 5 * SCALE && -5
                * SCALE <= sc.dir.y <= 5 * SCALE && -5 * SCALE <= sc.dir.z <= 5 * SCALE && (!(
            rec.normal.x == 0 && rec.normal.y == 0 && rec.normal.z == 0) ==> !(sc.dir.x == 0
                && sc.dir.y == 0 && sc.dir.z == 0)) && (exists|uvec: Vec3|
                -SCALE <= uvec.x <= SCALE && -SCALE <= uvec.y <= SCALE && -SCALE <= uvec.z
                    <= SCALE && sc.dir == #[trigger] spec_lamb_dir(rec.normal, uvec)),
    {
        let u = Vec3::random_unit_vector();
        let mut scatter_direction = rec.normal.add(&u);
        if scatter_direction.near_zero() {
            scatter_direction = rec.normal.copy();
        }
        proof {
            assert(scatter_direction == spec_lamb_dir(rec.normal, u));
        }
        let attenuation = match &self.albedo {
            Some(b) => b.value(rec.u, rec.v, &rec.p),
            None => Color::default_new(),
        };
        let scattered = Ray::new(&rec.p, &scatter_direction, r_in.tm);
        Some((attenuation, scattered))
    }
}

} // verus!
