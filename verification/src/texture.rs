//! The closed set of texture kinds and their sampling dispatch.

use vstd::prelude::*;
use crate::fixed::SCALE;
use crate::vec3::{Vec3, Color, Point3};
use crate::solidcolor::Solidcolor;
use crate::checker_texture::{Checkertexture, spec_sines, sine_arg_sin, copy_opt};
use crate::noise_texture::Noisetexture;
use crate::image_texture::Imagetexture;

verus! {

pub enum Texture {
    Solidcolor(Solidcolor),
    Checkertexture(Checkertexture),
    Noisetexture(Noisetexture),
    Imagetexture(Imagetexture),
}

/// Largest component a sampled color can have.
pub const TEXMAX: i64 = 0x1_0001_0000;

/// View-level equality of textures: equal structure and contents.
/// Copies of buffer-backed textures are equal in this sense.
pub open spec fn tex_eq(a: Texture, b: Texture) -> bool
    decreases a,
{
    match (a, b) {
        (Texture::Solidcolor(x), Texture::Solidcolor(y)) => x == y,
        (Texture::Checkertexture(x), Texture::Checkertexture(y)) => opt_box_tex_eq(x.odd, y.odd)
            && opt_box_tex_eq(x.even, y.even),
        (Texture::Noisetexture(x), Texture::Noisetexture(y)) => x.scale == y.scale
            && x.noise.ranvec@ == y.noise.ranvec@ && x.noise.perm_x@ == y.noise.perm_x@
            && x.noise.perm_y@ == y.noise.perm_y@ && x.noise.perm_z@ == y.noise.perm_z@,
        (Texture::Imagetexture(x), Texture::Imagetexture(y)) => x.data@ == y.data@ && x.width
            == y.width && x.height == y.height && x.bytes_per_scanline == y.bytes_per_scanline,
        _ => false,
    }
}

/// View-level equality of optional boxed textures.
pub open spec fn opt_box_tex_eq(a: Option<Box<Texture>>, b: Option<Box<Texture>>) -> bool
    decreases a,
{
    match (a, b) {
        (Some(x), Some(y)) => tex_eq(*x, *y),
        (None, None) => true,
        _ => false,
    }
}

/// View-level texture equality is reflexive.
pub proof fn lemma_tex_eq_refl(a: Texture)
    ensures
        tex_eq(a, a),
    decreases a,
{
    match a {
        Texture::Checkertexture(x) => {
            lemma_opt_tex_eq_refl(x.odd);
            lemma_opt_tex_eq_refl(x.even);
        },
        _ => {},
    }
}

/// View-level optional texture equality is reflexive.
pub proof fn lemma_opt_tex_eq_refl(a: Option<Box<Texture>>)
    ensures
        opt_box_tex_eq(a, a),
    decreases a,
{
    match a {
        Some(x) => lemma_tex_eq_refl(*x),
        None => {},
    }
}

/// Equal-view textures are equally well-formed and sample equally.
#[verifier::rlimit(60)]
pub proof fn lemma_tex_eq_value(a: Texture, b: Texture, u: int, v: int, p: Vec3)
    requires
        tex_eq(a, b),
    ensures
        a.wf() == b.wf(),
        a.spec_value(u, v, p) == b.spec_value(u, v, p),
    decreases a,
{
    match (a, b) {
        (Texture::Checkertexture(x), Texture::Checkertexture(y)) => {
            match (x.odd, y.odd) {
                (Some(i), Some(j)) => lemma_tex_eq_value(*i, *j, u, v, p),
                _ => {},
            }
            match (x.even, y.even) {
                (Some(i), Some(j)) => lemma_tex_eq_value(*i, *j, u, v, p),
                _ => {},
            }
        },
        (Texture::Noisetexture(x), Texture::Noisetexture(y)) => {
            crate::perlin::Perlin::lemma_turb_cong(
                x.noise,
                y.noise,
                Noisetexture::spec_turb_point(p),
                7,
            );
            assert(x.spec_turb_at(p) == y.spec_turb_at(p));
            assert(x.spec_gray(p) == y.spec_gray(p));
        },
        _ => {},
    }
}

/// Equal-view optional textures are equally well-formed.
pub proof fn lemma_opt_tex_eq_wf(a: Option<Box<Texture>>, b: Option<Box<Texture>>)
    requires
        opt_box_tex_eq(a, b),
    ensures
        (match a {
            Some(x) => x.wf(),
            None => true,
        }) == (match b {
            Some(x) => x.wf(),
            None => true,
        }),
{
    match (a, b) {
        (Some(x), Some(y)) => lemma_tex_eq_value(*x, *y, 0, 0, Vec3 { x: 0, y: 0, z: 0 }),
        _ => {},
    }
}

impl Texture {
    /// Well-formed textures carry bounded, non-negative colors and
    /// sound tables all the way down.
    pub open spec fn wf(self) -> bool
        decreases self,
    {
        match self {
            Texture::Solidcolor(t) => t.wf(),
            Texture::Checkertexture(t) => (match t.odd {
                Some(b) => b.wf(),
                None => true,
            }) && (match t.even {
                Some(b) => b.wf(),
                None => true,
            }),
            Texture::Noisetexture(t) => t.wf(),
            Texture::Imagetexture(t) => t.wf(),
        }
    }

    /// The sampled color, deterministically, for every kind.
    pub open spec fn spec_value(self, u: int, v: int, p: Vec3) -> Color
        decreases self,
    {
        match self {
            Texture::Solidcolor(t) => t.color_value,
            Texture::Checkertexture(t) => if spec_sines(p) < 0 {
                match t.odd {
                    Some(b) => b.spec_value(u, v, p),
                    None => Vec3 { x: 0, y: 0, z: 0 },
                }
            } else {
                match t.even {
                    Some(b) => b.spec_value(u, v, p),
                    None => Vec3 { x: 0, y: 0, z: 0 },
                }
            },
            Texture::Noisetexture(t) => Vec3 {
                x: t.spec_gray(p) as i64,
                y: t.spec_gray(p) as i64,
                z: t.spec_gray(p) as i64,
            },
            Texture::Imagetexture(t) => t.spec_value(u, v),
        }
    }

    pub fn copy(&self) -> (r: Texture)
        ensures
            tex_eq(r, *self),
        decreases self,
    {
        match self {
            Texture::Solidcolor(t) => Texture::Solidcolor(t.copy()),
            Texture::Checkertexture(t) => Texture::Checkertexture(
                crate::checker_texture::Checkertexture {
                    even: match &t.even {
                        Some(b) => Some(Box::new(b.copy())),
                        None => None,
                    },
                    odd: match &t.odd {
                        Some(b) => Some(Box::new(b.copy())),
                        None => None,
                    },
                },
            ),
            Texture::Noisetexture(t) => Texture::Noisetexture(t.copy()),
            Texture::Imagetexture(t) => Texture::Imagetexture(t.copy()),
        }
    }

    /// Samples the texture at the given coordinates and point.
    pub fn value(&self, u: i64, v: i64, p: &Point3) -> (r: Color)
        requires
            self.wf(),
            -0x1000_0000_0000 <= p.x <= 0x1000_0000_0000,
            -0x1000_0000_0000 <= p.y <= 0x1000_0000_0000,
            -0x1000_0000_0000 <= p.z <= 0x1000_0000_0000,
        ensures
            r == self.spec_value(u as int, v as int, *p),
            r.nonneg(),
            r.x <= TEXMAX,
            r.y <= TEXMAX,
            r.z <= TEXMAX,
        decreases self,
    {
        match self {
            Texture::Solidcolor(t) => t.value(u, v, p),
            Texture::Checkertexture(t) => {
                let sx = sine_arg_sin(p.x);
                let sy = sine_arg_sin(p.y);
                let sz = sine_arg_sin(p.z);
                proof {
                    crate::vec3::lemma_mul_bound(sx as int, sy as int, 65536);
                    crate::vec3::lemma_mul_bound(
                        (sx as int) * (sy as int),
                        sz as int,
                        0x1_0000_0000i128 as int,
                    );
                }
                let sines: i128 = (sx as i128) * (sy as i128) * (sz as i128);
                if sines < 0 {
                    match &t.odd {
                        Some(b) => b.value(u, v, p),
                        None => Color::default_new(),
                    }
                } else {
                    match &t.even {
                        Some(b) => b.value(u, v, p),
                        None => Color::default_new(),
                    }
                }
            },
            Texture::Noisetexture(t) => t.value(u, v, p),
            Texture::Imagetexture(t) => t.value(u, v, p),
        }
    }
}

} // verus!
