//! A texture sampled from a decoded raster.
//!
//! Decoding image files is outside work; the texture holds the
//! decoded byte buffer and its dimensions, and verified code does
//! the clamped nearest-pixel lookup.

use vstd::prelude::*;
use crate::fixed::{div_floor, SCALE};
use crate::vec3::{Vec3, Color, Point3};

verus! {

/// Bytes for one pixel.
pub const BYTES_PER_PIXEL: u32 = 3;

pub struct Imagetexture {
    pub data: Vec<u8>,
    pub width: u32,
    pub height: u32,
    pub bytes_per_scanline: u32,
}

impl Imagetexture {
    pub open spec fn wf(self) -> bool {
        1 <= self.width <= 0x1000 && 1 <= self.height <= 0x1000 && self.data@.len() == 3
            * self.width * self.height && self.bytes_per_scanline == 3 * self.width
    }

    /// Wraps a decoded raster: `data` holds rows of 3-byte pixels.
    pub fn new(width: u32, height: u32, data: Vec<u8>) -> (r: Imagetexture)
        requires
            1 <= width <= 0x1000,
            1 <= height <= 0x1000,
            data@.len() == 3 * width * height,
        ensures
            r.wf(),
            r.data@ == data@,
            r.width == width,
            r.height == height,
    {
        Imagetexture { data, width, height, bytes_per_scanline: 3 * width }
    }

    pub fn copy(&self) -> (r: Imagetexture)
        ensures
            r.data@ == self.data@,
            r.width == self.width,
            r.height == self.height,
            r.bytes_per_scanline == self.bytes_per_scanline,
            self.wf() ==> r.wf(),
    {
        let mut data: Vec<u8> = Vec::new();
        let mut i: usize = 0;
        while i < self.data.len()
            invariant
                i <= self.data@.len(),
                data@ == self.data@.subrange(0, i as int),
            decreases self.data@.len() - i,
        {
            data.push(self.data[i]);
            proof {
                assert(data@ =~= self.data@.subrange(0, i + 1));
            }
            i = i + 1;
        }
        proof {
            assert(data@ =~= self.data@);
        }
        Imagetexture {
            data,
            width: self.width,
            height: self.height,
            bytes_per_scanline: self.bytes_per_scanline,
        }
    }

    /// A coordinate clamped into `[0, SCALE]`.
    pub open spec fn spec_clamp_unit(x: int) -> int {
        if x < 0 {
            0
        } else if x > SCALE {
            SCALE as int
        } else {
            x
        }
    }

    /// The column index of a horizontal coordinate.
    pub open spec fn spec_col(self, u: int) -> int {
        let i = (Self::spec_clamp_unit(u) * self.width) / (SCALE as int);
        if i >= self.width {
            self.width - 1
        } else {
            i
        }
    }

    /// The row index of a vertical coordinate, flipped.
    pub open spec fn spec_row(self, v: int) -> int {
        let j = (((SCALE as int) - Self::spec_clamp_unit(v)) * self.height) / (SCALE as int);
        if j >= self.height {
            self.height - 1
        } else {
            j
        }
    }

    /// One byte rescaled into a fixed-point color component.
    pub open spec fn spec_byte_color(b: int) -> int {
        (b * (SCALE as int)) / 255
    }

    /// The sampled color at texture coordinates.
    pub open spec fn spec_value(self, u: int, v: int) -> Color {
        let idx = 3 * (self.spec_row(v) * self.width + self.spec_col(u));
        Vec3 {
            x: Self::spec_byte_color(self.data@[idx] as int) as i64,
            y: Self::spec_byte_color(self.data@[idx + 1] as int) as i64,
            z: Self::spec_byte_color(self.data@[idx + 2] as int) as i64,
        }
    }

    /// Nearest-pixel lookup with clamped coordinates.
    pub fn value(&self, u: i64, v: i64, p: &Point3) -> (r: Color)
        requires
            self.wf(),
        ensures
            r == self.spec_value(u as int, v as int),
            r.nonneg(),
            r.x <= 0x1_0000_0000,
            r.y <= 0x1_0000_0000,
            r.z <= 0x1_0000_0000,
    {
        let cu = clamp_unit(u);
        let cv = clamp_unit(v);
        proof {
            crate::vec3::lemma_mul_bound(cu as int, self.width as int, 65536);
            crate::vec3::lemma_mul_bound(65536 - cu as int, self.height as int, 65536);
            crate::vec3::lemma_mul_bound(65536 - cv as int, self.height as int, 65536);
        }
        let i0 = div_floor((cu as i128) * (self.width as i128), 65536);
        let j0 = div_floor(((65536 - cv) as i128) * (self.height as i128), 65536);
        proof {
            assert(0 <= i0 <= self.width) by (nonlinear_arith)
                requires
                    0 <= cu as i128 <= 65536,
                    1 <= self.width as i128 <= 0x1000,
                    65536 * i0 <= (cu as i128) * (self.width as i128) < 65536 * (i0 + 1),
            ;
            assert(0 <= j0 <= self.height) by (nonlinear_arith)
                requires
                    0 <= cv as i128 <= 65536,
                    1 <= self.height as i128 <= 0x1000,
                    65536 * j0 <= ((65536 - cv) as i128) * (self.height as i128) < 65536 * (j0
                        + 1),
            ;
        }
        let i: u32 = if i0 as u32 >= self.width {
            self.width - 1
        } else {
            i0 as u32
        };
        let j: u32 = if j0 as u32 >= self.height {
            self.height - 1
        } else {
            j0 as u32
        };
        proof {
            assert(j * self.width + i < 0x100_0000) by (nonlinear_arith)
                requires
                    0 <= i < self.width,
                    0 <= j < self.height,
                    self.width <= 0x1000,
                    self.height <= 0x1000,
            ;
        }
        let idx: usize = (3 * (j * self.width + i)) as usize;
        proof {
            assert(idx + 2 < self.data@.len()) by (nonlinear_arith)
                requires
                    idx == 3 * (j * self.width + i),
                    0 <= i < self.width,
                    0 <= j < self.height,
                    self.width <= 0x1000,
                    self.height <= 0x1000,
                    self.data@.len() == 3 * self.width * self.height,
            ;
        }
        let bx = self.data[idx];
        let by = self.data[idx + 1];
        let bz = self.data[idx + 2];
        Vec3 { x: byte_color(bx), y: byte_color(by), z: byte_color(bz) }
    }
}

/// Clamps a fixed-point coordinate into `[0, SCALE]`.
fn clamp_unit(x: i64) -> (r: i64)
    ensures
        r == Imagetexture::spec_clamp_unit(x as int),
        0 <= r <= SCALE,
{
    if x < 0 {
        0
    } else if x > SCALE {
        SCALE
    } else {
        x
    }
}

/// One byte as a fixed-point color component.
fn byte_color(b: u8) -> (r: i64)
    ensures
        r == Imagetexture::spec_byte_color(b as int),
        0 <= r <= 0x1_0004,
{
    let r = div_floor((b as i128) * 65536, 255);
    proof {
        assert(0 <= r <= 0x1_0004) by (nonlinear_arith)
            requires
                0 <= b as i128 <= 255,
                255 * r <= (b as i128) * 65536 < 255 * (r + 1),
        ;
    }
    r as i64
}

} // verus!
