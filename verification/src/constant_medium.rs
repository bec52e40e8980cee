//! The constant-density medium: a boundary shape filled with an
//! isotropic scattering volume.

use vstd::prelude::*;
use crate::fixed::{fx_ok, div_fx, SCALE};
use crate::vec3::{Vec3, Color};
use crate::texture::Texture;
use crate::material::Material;
use crate::isotropic::Isotropic;
use crate::hittable_list::Object;

verus! {

pub struct ConstantMedium {
    pub boundary: Option<Box<Object>>,
    pub phase_function: Option<Box<Material>>,
    pub inv_density: i64,
}

impl ConstantMedium {
    pub fn default_new() -> (r: ConstantMedium)
        ensures
            r.boundary is None,
            r.phase_function is None,
            r.inv_density == 0,
    {
        ConstantMedium { boundary: None, phase_function: None, inv_density: 0 }
    }

    /// A medium with a textured phase function; the density is
    /// stored as its reciprocal.
    pub fn new_from_ptr(b: Option<Box<Object>>, d: i64, a: &Option<Box<Texture>>) -> (r:
        ConstantMedium)
        requires
            1 <= d <= crate::fixed::FXMAX,
        ensures
            r.boundary == b,
            r.inv_density == crate::fixed::fdiv(SCALE as int, d as int),
            r.phase_function matches Some(m) && *m is Isotropic,
    {
        ConstantMedium {
            boundary: b,
            phase_function: Some(Box::new(Material::Isotropic(Isotropic::new_from_ptr(a)))),
            inv_density: div_fx(SCALE, d),
        }
    }

    /// A medium with a solid-color phase function.
    pub fn new_from_color(b: Option<Box<Object>>, d: i64, c: &Color) -> (r: ConstantMedium)
        requires
            1 <= d <= crate::fixed::FXMAX,
        ensures
            r.boundary == b,
            r.inv_density == crate::fixed::fdiv(SCALE as int, d as int),
            r.phase_function matches Some(m) && *m is Isotropic,
    {
        ConstantMedium {
            boundary: b,
            phase_function: Some(Box::new(Material::Isotropic(Isotropic::new_from_color(c)))),
            inv_density: div_fx(SCALE, d),
        }
    }

    pub fn copy(&self) -> (r: ConstantMedium)
        ensures
            r.inv_density == self.inv_density,
            crate::material::opt_mat_eq(r.phase_function, self.phase_function),
    {
        ConstantMedium {
            boundary: match &self.boundary {
                Some(c) => Some(Box::new(c.copy())),
                None => None,
            },
            phase_function: crate::material::copy_opt_mat(&self.phase_function),
            inv_density: self.inv_density,
        }
    }
}

} // verus!
