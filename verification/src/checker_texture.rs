//! The checker texture: two sub-textures chosen by the sign of a
//! product of sines of the scaled coordinates.

use vstd::prelude::*;
use crate::fixed::{fx_ok, FXMAX, SCALE};
use crate::func::{sin_fx, spec_sin};
use crate::vec3::{Vec3, Color, Point3};
use crate::texture::Texture;

verus! {

pub struct Checkertexture {
    pub odd: Option<Box<Texture>>,
    pub even: Option<Box<Texture>>,
}

/// A coordinate scaled by ten and clamped into the sine's domain.
pub open spec fn spec_sine_arg(x: int) -> int {
    if 10 * x > FXMAX {
        FXMAX as int
    } else if 10 * x < -FXMAX {
        -FXMAX as int
    } else {
        10 * x
    }
}

/// The sign carrier of the checker pattern at a point.
pub open spec fn spec_sines(p: Vec3) -> int {
    spec_sin(spec_sine_arg(p.x as int)) * spec_sin(spec_sine_arg(p.y as int)) * spec_sin(
        spec_sine_arg(p.z as int),
    )
}

impl Checkertexture {
    pub fn default_new() -> (r: Checkertexture)
        ensures
            r.odd is None,
            r.even is None,
    {
        Checkertexture { odd: None, even: None }
    }

    pub fn new_from_ptr(even: &Option<Box<Texture>>, odd: &Option<Box<Texture>>) -> (r:
        Checkertexture)
        ensures
            crate::texture::opt_box_tex_eq(r.even, *even),
            crate::texture::opt_box_tex_eq(r.odd, *odd),
    {
        Checkertexture { even: copy_opt(even), odd: copy_opt(odd) }
    }

    pub fn new_from_color(c1: &Color, c2: &Color) -> (r: Checkertexture)
        ensures
            r.even == Some(
                Box::new(Texture::Solidcolor(crate::solidcolor::Solidcolor { color_value: *c1 })),
            ),
            r.odd == Some(
                Box::new(Texture::Solidcolor(crate::solidcolor::Solidcolor { color_value: *c2 })),
            ),
    {
        Checkertexture {
            even: Some(
                Box::new(Texture::Solidcolor(crate::solidcolor::Solidcolor::new_from_color(c1))),
            ),
            odd: Some(
                Box::new(Texture::Solidcolor(crate::solidcolor::Solidcolor::new_from_color(c2))),
            ),
        }
    }

    pub fn copy(&self) -> (r: Checkertexture)
        ensures
            crate::texture::opt_box_tex_eq(r.even, self.even),
            crate::texture::opt_box_tex_eq(r.odd, self.odd),
    {
        Checkertexture { even: copy_opt(&self.even), odd: copy_opt(&self.odd) }
    }
}

/// Copies an optional boxed texture.
pub fn copy_opt(t: &Option<Box<Texture>>) -> (r: Option<Box<Texture>>)
    ensures
        crate::texture::opt_box_tex_eq(r, *t),
{
    match t {
        Some(b) => Some(Box::new(b.copy())),
        None => None,
    }
}

/// Computes the sine of a scaled, clamped coordinate.
pub fn sine_arg_sin(x: i64) -> (r: i64)
    requires
        -0x1000_0000_0000 <= x <= 0x1000_0000_0000,
    ensures
        r == spec_sin(spec_sine_arg(x as int)),
        -SCALE <= r <= SCALE,
{
    let a: i64 = if x > 0x6_6666_6666 {
        FXMAX
    } else if x < -0x6_6666_6666 {
        -FXMAX
    } else {
        10 * x
    };
    proof {
        assert(a == spec_sine_arg(x as int));
    }
    sin_fx(a)
}

} // verus!
