//! The closed set of material kinds: scattering and emission
//! dispatch over an exhaustive switch.

use vstd::prelude::*;
use crate::fixed::SCALE;
use crate::vec3::{Vec3, Color, Point3};
use crate::ray::Ray;
use crate::hittable::Hitrecord;
use crate::lambertian::Lambertian;
use crate::metal::{Metal, spec_reflect};
use crate::dielectric::{Dielectric, spec_refract};
use crate::diffuse_light::Diffuselight;
use crate::isotropic::Isotropic;

verus! {

pub enum Material {
    Lambertian(Lambertian),
    Metal(Metal),
    Dielectric(Dielectric),
    Diffuselight(Diffuselight),
    Isotropic(Isotropic),
}

/// What every scatter result obeys, kind by kind.
pub open spec fn scatter_post(m: Material, r_in: Ray, rec: Hitrecord, res: Option<(Color, Ray)>) -> bool {
    match m {
        Material::Lambertian(l) => res is Some && (res matches Some((att, sc)) ==> att
            == l.spec_attenuation(rec.u as int, rec.v as int, rec.p) && sc.orig == rec.p && sc.tm
            == r_in.tm && sc.dir.ok()),
        Material::Metal(mt) => (res matches Some((att, sc)) ==> att == mt.albedo && sc.orig
            == rec.p && sc.tm == r_in.tm && Vec3::spec_dot(sc.dir, rec.normal) > 0) && (mt.fuzz
            == 0 ==> (res is Some <==> Vec3::spec_dot(
            spec_reflect(r_in.dir, rec.normal),
            rec.normal,
        ) > 0)),
        Material::Dielectric(d) => (res is Some <==> !(r_in.dir.x == 0 && r_in.dir.y == 0
            && r_in.dir.z == 0)) && (res matches Some((att, sc)) ==> att == (Vec3 {
            x: SCALE,
            y: SCALE,
            z: SCALE,
        }) && sc.orig == rec.p && sc.tm == r_in.tm),
        Material::Diffuselight(_) => res is None,
        Material::Isotropic(i) => res is Some && (res matches Some((att, sc)) ==> att
            == i.spec_attenuation(rec.u as int, rec.v as int, rec.p) && sc.orig == rec.p && sc.tm
            == r_in.tm),
    }
}

/// View-level equality of materials: same kind, equal parameters,
/// equal texture contents.
pub open spec fn mat_eq(a: Material, b: Material) -> bool {
    match (a, b) {
        (Material::Lambertian(x), Material::Lambertian(y)) => crate::texture::opt_box_tex_eq(
            x.albedo,
            y.albedo,
        ),
        (Material::Metal(x), Material::Metal(y)) => x == y,
        (Material::Dielectric(x), Material::Dielectric(y)) => x == y,
        (Material::Diffuselight(x), Material::Diffuselight(y)) => crate::texture::opt_box_tex_eq(
            x.emit,
            y.emit,
        ),
        (Material::Isotropic(x), Material::Isotropic(y)) => crate::texture::opt_box_tex_eq(
            x.albedo,
            y.albedo,
        ),
        _ => false,
    }
}

/// View-level equality of optional boxed materials.
pub open spec fn opt_mat_eq(a: Option<Box<Material>>, b: Option<Box<Material>>) -> bool {
    match (a, b) {
        (Some(x), Some(y)) => mat_eq(*x, *y),
        (None, None) => true,
        _ => false,
    }
}

/// Equal-view materials have the same kind and agree on emission
/// and on the deterministic attenuation of the diffuse kinds.
pub proof fn lemma_mat_eq_sem(a: Material, b: Material, u: int, v: int, p: Vec3)
    requires
        mat_eq(a, b),
    ensures
        spec_emitted(a, u, v, p) == spec_emitted(b, u, v, p),
        match (a, b) {
            (Material::Lambertian(x), Material::Lambertian(y)) => x.spec_attenuation(u, v, p)
                == y.spec_attenuation(u, v, p),
            (Material::Isotropic(x), Material::Isotropic(y)) => x.spec_attenuation(u, v, p)
                == y.spec_attenuation(u, v, p),
            (Material::Metal(x), Material::Metal(y)) => x == y,
            (Material::Dielectric(x), Material::Dielectric(y)) => x == y,
            (Material::Diffuselight(_), Material::Diffuselight(_)) => true,
            _ => false,
        },
{
    match (a, b) {
        (Material::Lambertian(x), Material::Lambertian(y)) => {
            match (x.albedo, y.albedo) {
                (Some(i), Some(j)) => crate::texture::lemma_tex_eq_value(*i, *j, u, v, p),
                _ => {},
            }
        },
        (Material::Isotropic(x), Material::Isotropic(y)) => {
            match (x.albedo, y.albedo) {
                (Some(i), Some(j)) => crate::texture::lemma_tex_eq_value(*i, *j, u, v, p),
                _ => {},
            }
        },
        (Material::Diffuselight(x), Material::Diffuselight(y)) => {
            match (x.emit, y.emit) {
                (Some(i), Some(j)) => crate::texture::lemma_tex_eq_value(*i, *j, u, v, p),
                _ => {},
            }
        },
        _ => {},
    }
}

/// View-level material equality is reflexive.
pub proof fn lemma_mat_eq_refl(a: Material)
    ensures
        mat_eq(a, a),
{
    match a {
        Material::Lambertian(x) => crate::texture::lemma_opt_tex_eq_refl(x.albedo),
        Material::Diffuselight(x) => crate::texture::lemma_opt_tex_eq_refl(x.emit),
        Material::Isotropic(x) => crate::texture::lemma_opt_tex_eq_refl(x.albedo),
        _ => {},
    }
}

/// Equal-view materials are equally well-formed.
pub proof fn lemma_mat_eq_wf(a: Material, b: Material)
    requires
        mat_eq(a, b),
    ensures
        a.wf() == b.wf(),
{
    match (a, b) {
        (Material::Lambertian(x), Material::Lambertian(y)) => crate::texture::lemma_opt_tex_eq_wf(
            x.albedo,
            y.albedo,
        ),
        (Material::Diffuselight(x), Material::Diffuselight(y)) => {
            crate::texture::lemma_opt_tex_eq_wf(x.emit, y.emit);
        },
        (Material::Isotropic(x), Material::Isotropic(y)) => crate::texture::lemma_opt_tex_eq_wf(
            x.albedo,
            y.albedo,
        ),
        _ => {},
    }
}

/// Equal-view optional materials are equally well-formed.
pub proof fn lemma_opt_mat_eq_wf(a: Option<Box<Material>>, b: Option<Box<Material>>)
    requires
        opt_mat_eq(a, b),
    ensures
        crate::hittable::opt_mat_wf(a) == crate::hittable::opt_mat_wf(b),
{
    match (a, b) {
        (Some(x), Some(y)) => lemma_mat_eq_wf(*x, *y),
        _ => {},
    }
}

/// View-level optional material equality is reflexive.
pub proof fn lemma_opt_mat_eq_refl(a: Option<Box<Material>>)
    ensures
        opt_mat_eq(a, a),
{
    match a {
        Some(x) => lemma_mat_eq_refl(*x),
        None => {},
    }
}

/// What a material emits: lights sample their texture, everything
/// else is black.
pub open spec fn spec_emitted(m: Material, u: int, v: int, p: Vec3) -> Color {
    match m {
        Material::Diffuselight(l) => l.spec_emitted(u, v, p),
        _ => Vec3 { x: 0, y: 0, z: 0 },
    }
}

impl Material {
    pub open spec fn wf(self) -> bool {
        match self {
            Material::Lambertian(l) => l.wf(),
            Material::Metal(m) => m.wf(),
            Material::Dielectric(d) => d.wf(),
            Material::Diffuselight(l) => l.wf(),
            Material::Isotropic(i) => i.wf(),
        }
    }

    pub fn copy(&self) -> (r: Material)
        ensures
            mat_eq(r, *self),
    {
        match self {
            Material::Lambertian(l) => Material::Lambertian(l.copy()),
            Material::Metal(m) => Material::Metal(m.copy()),
            Material::Dielectric(d) => Material::Dielectric(d.copy()),
            Material::Diffuselight(l) => Material::Diffuselight(l.copy()),
            Material::Isotropic(i) => Material::Isotropic(i.copy()),
        }
    }

    /// Scatter dispatch: every outcome obeys its kind's clause, and
    /// any scattered ray leaves from the hit point with a bounded,
    /// nonzero-unless-degenerate direction.
    pub fn scatter(&self, r_in: &Ray, rec: &Hitrecord) -> (res: Option<(Color, Ray)>)
        requires
            self.wf(),
            rec.bounded(),
            -0x800_0000 <= r_in.dir.x <= 0x800_0000,
            -0x800_0000 <= r_in.dir.y <= 0x800_0000,
            -0x800_0000 <= r_in.dir.z <= 0x800_0000,
        ensures
            scatter_post(*self, *r_in, *rec, res),
            res matches Some((att, sc)) ==> att.nonneg() && att.x <= crate::texture::TEXMAX
                && att.y <= crate::texture::TEXMAX && att.z <= crate::texture::TEXMAX && sc.orig
                == rec.p && sc.tm == r_in.tm && -0x4_0100_0000 <= sc.dir.x <= 0x4_0100_0000
                && -0x4_0100_0000 <= sc.dir.y <= 0x4_0100_0000 && -0x4_0100_0000 <= sc.dir.z
                <= 0x4_0100_0000,
    {
        match self {
            Material::Lambertian(l) => l.scatter(r_in, rec),
            Material::Metal(m) => m.scatter(r_in, rec),
            Material::Dielectric(d) => d.scatter(r_in, rec),
            Material::Diffuselight(l) => l.scatter(r_in, rec),
            Material::Isotropic(i) => i.scatter(r_in, rec),
        }
    }

    /// Emission dispatch.
    pub fn emitted(&self, u: i64, v: i64, p: &Point3) -> (r: Color)
        requires
            self.wf(),
            -0x1000_0000_0000 <= p.x <= 0x1000_0000_0000,
            -0x1000_0000_0000 <= p.y <= 0x1000_0000_0000,
            -0x1000_0000_0000 <= p.z <= 0x1000_0000_0000,
        ensures
            r == spec_emitted(*self, u as int, v as int, *p),
            r.nonneg(),
            r.x <= crate::texture::TEXMAX,
            r.y <= crate::texture::TEXMAX,
            r.z <= crate::texture::TEXMAX,
    {
        match self {
            Material::Diffuselight(l) => l.emitted(u, v, p),
            _ => Color::default_new(),
        }
    }
}

/// Copies an optional boxed material.
pub fn copy_opt_mat(m: &Option<Box<Material>>) -> (r: Option<Box<Material>>)
    ensures
        opt_mat_eq(r, *m),
{
    match m {
        Some(b) => Some(Box::new(b.copy())),
        None => None,
    }
}

} // verus!
