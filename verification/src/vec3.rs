//! Three-component fixed-point vectors, points and colors.

use vstd::prelude::*;
use crate::fixed::{fx_ok, fmul, fdiv, sqrt_floor, mul_fx, div_fx, div_floor, isqrt, SCALE, FXMAX};

verus! {

/// Components of a vector handed to a linear operation stay below
/// this, which keeps every 128-bit intermediate in range.
pub const VMAX: i64 = 0x2000_0000_0000;

/// A vector of three fixed-point scalars; also used for points in
/// space and for colors.
#[derive(Clone, Copy, PartialEq, Eq, Structural, Debug)]
pub struct Vec3 {
    pub x: i64,
    pub y: i64,
    pub z: i64,
}

/// A point in space.
pub type Point3 = Vec3;

/// A color; well-formed colors have non-negative components.
pub type Color = Vec3;

impl Vec3 {
    /// All components within the tight scalar range.
    pub open spec fn ok(self) -> bool {
        fx_ok(self.x as int) && fx_ok(self.y as int) && fx_ok(self.z as int)
    }

    /// All components within the loose range linear operations accept.
    pub open spec fn lin_ok(self) -> bool {
        -VMAX <= self.x <= VMAX && -VMAX <= self.y <= VMAX && -VMAX <= self.z <= VMAX
    }

    /// All components non-negative: a well-formed color.
    pub open spec fn nonneg(self) -> bool {
        self.x >= 0 && self.y >= 0 && self.z >= 0
    }

    /// The component along `axis` (0, 1 or 2).
    pub open spec fn spec_axis(self, axis: int) -> int {
        if axis == 0 {
            self.x as int
        } else if axis == 1 {
            self.y as int
        } else {
            self.z as int
        }
    }

    pub fn default_new() -> (r: Vec3)
        ensures
            r == (Vec3 { x: 0, y: 0, z: 0 }),
    {
        Vec3 { x: 0, y: 0, z: 0 }
    }

    pub fn new(x: i64, y: i64, z: i64) -> (r: Vec3)
        ensures
            r == (Vec3 { x, y, z }),
    {
        Vec3 { x, y, z }
    }

    pub fn copy(&self) -> (r: Vec3)
        ensures
            r == *self,
    {
        Vec3 { x: self.x, y: self.y, z: self.z }
    }

    pub fn x(&self) -> (r: i64)
        ensures
            r == self.x,
    {
        self.x
    }

    pub fn y(&self) -> (r: i64)
        ensures
            r == self.y,
    {
        self.y
    }

    pub fn z(&self) -> (r: i64)
        ensures
            r == self.z,
    {
        self.z
    }

    /// The component along `axis`, for indexed access.
    pub fn axis(&self, axis: usize) -> (r: i64)
        requires
            axis < 3,
        ensures
            r == self.spec_axis(axis as int),
    {
        if axis == 0 {
            self.x
        } else if axis == 1 {
            self.y
        } else {
            self.z
        }
    }

    /// Componentwise sum, exact.
    pub fn add(&self, o: &Vec3) -> (r: Vec3)
        requires
            self.lin_ok(),
            o.lin_ok(),
        ensures
            r.x == self.x + o.x,
            r.y == self.y + o.y,
            r.z == self.z + o.z,
    {
        Vec3 { x: self.x + o.x, y: self.y + o.y, z: self.z + o.z }
    }

    /// Componentwise difference, exact.
    pub fn sub(&self, o: &Vec3) -> (r: Vec3)
        requires
            self.lin_ok(),
            o.lin_ok(),
        ensures
            r.x == self.x - o.x,
            r.y == self.y - o.y,
            r.z == self.z - o.z,
    {
        Vec3 { x: self.x - o.x, y: self.y - o.y, z: self.z - o.z }
    }

    /// Componentwise negation, exact.
    pub fn neg(&self) -> (r: Vec3)
        requires
            self.lin_ok(),
        ensures
            r.x == -self.x,
            r.y == -self.y,
            r.z == -self.z,
    {
        Vec3 { x: -self.x, y: -self.y, z: -self.z }
    }

    /// Each component scaled by the fixed-point factor `k`.
    pub fn scale(&self, k: i64) -> (r: Vec3)
        requires
            self.ok(),
            fx_ok(k as int),
        ensures
            r.x == fmul(self.x as int, k as int),
            r.y == fmul(self.y as int, k as int),
            r.z == fmul(self.z as int, k as int),
    {
        Vec3 { x: mul_fx(self.x, k), y: mul_fx(self.y, k), z: mul_fx(self.z, k) }
    }

    /// Each component divided by the fixed-point scalar `k`.
    pub fn div_scalar(&self, k: i64) -> (r: Vec3)
        requires
            self.ok(),
            fx_ok(k as int),
            k != 0,
        ensures
            r.x == fdiv(self.x as int, k as int),
            r.y == fdiv(self.y as int, k as int),
            r.z == fdiv(self.z as int, k as int),
    {
        Vec3 { x: div_fx(self.x, k), y: div_fx(self.y, k), z: div_fx(self.z, k) }
    }

    /// The exact inner product; the result carries two scale factors.
    pub open spec fn spec_dot(a: Vec3, b: Vec3) -> int {
        a.x * b.x + a.y * b.y + a.z * b.z
    }

    /// Inner product of two vectors, exact in 128 bits.
    pub fn dot(a: &Vec3, b: &Vec3) -> (r: i128)
        requires
            a.lin_ok(),
            b.lin_ok(),
        ensures
            r == Vec3::spec_dot(*a, *b),
    {
        proof {
            lemma_lin_products(*a, *b);
        }
        (a.x as i128) * (b.x as i128) + (a.y as i128) * (b.y as i128) + (a.z as i128) * (b.z
            as i128)
    }

    /// The exact squared length, carrying two scale factors.
    pub open spec fn spec_len2(self) -> int {
        Vec3::spec_dot(self, self)
    }

    pub fn length_squared(&self) -> (r: i128)
        requires
            self.lin_ok(),
        ensures
            r == self.spec_len2(),
            0 <= r <= 0xC00_0000_0000_0000_0000_0000,
    {
        let r = Vec3::dot(self, self);
        proof {
            lemma_len2_nonneg(*self);
            lemma_lin_products(*self, *self);
        }
        r
    }

    /// The fixed-point length: the square root of the squared length
    /// keeps a single scale factor.
    pub open spec fn spec_len(self) -> int {
        sqrt_floor(self.spec_len2())
    }

    pub fn length(&self) -> (r: i64)
        requires
            self.lin_ok(),
        ensures
            r == self.spec_len(),
            0 <= r <= 3 * VMAX,
    {
        let l2 = self.length_squared();
        proof {
            assert(l2 as u128 == l2);
        }
        let r = isqrt(l2 as u128);
        proof {
            let c: int = l2 as int;
            assert(r * r <= c);
            assert(r <= 0x6000_0000_0000u128) by (nonlinear_arith)
                requires
                    0 <= r,
                    r * r <= c,
                    c <= 0xC00_0000_0000_0000_0000_0000,
            ;
        }
        r as i64
    }

    /// What the unit-vector routine returns: each component is
    /// rescaled so the result has length near one.
    pub open spec fn spec_unit(self) -> Vec3 {
        let l = self.spec_len();
        Vec3 {
            x: ((self.x * (SCALE as int)) / l) as i64,
            y: ((self.y * (SCALE as int)) / l) as i64,
            z: ((self.z * (SCALE as int)) / l) as i64,
        }
    }

    /// Rescales the vector to length one, in fixed point.
    pub fn unit_vector(&self) -> (r: Vec3)
        requires
            self.lin_ok(),
            !(self.x == 0 && self.y == 0 && self.z == 0),
        ensures
            r == self.spec_unit(),
            r.ok(),
            -SCALE <= r.x <= SCALE,
            -SCALE <= r.y <= SCALE,
            -SCALE <= r.z <= SCALE,
    {
        let l2 = self.length_squared();
        proof {
            lemma_len2_component(*self);
            assert(l2 >= 1);
        }
        proof {
            assert(l2 as u128 == l2);
        }
        let l = isqrt(l2 as u128) as i128;
        proof {
            let c: int = l2 as int;
            assert(l * l <= c);
            assert(c < (l + 1) * (l + 1));
            assert(1 <= l <= 0x6000_0000_0000i128) by (nonlinear_arith)
                requires
                    0 <= l,
                    l * l <= c,
                    c < (l + 1) * (l + 1),
                    1 <= c <= 0xC00_0000_0000_0000_0000_0000,
            ;
        }
        let rx = div_floor((self.x as i128) * (SCALE as i128), l);
        let ry = div_floor((self.y as i128) * (SCALE as i128), l);
        let rz = div_floor((self.z as i128) * (SCALE as i128), l);
        proof {
            lemma_unit_component(self.x as int, l as int, l2 as int, rx as int);
            lemma_unit_component(self.y as int, l as int, l2 as int, ry as int);
            lemma_unit_component(self.z as int, l as int, l2 as int, rz as int);
        }
        Vec3 { x: rx as i64, y: ry as i64, z: rz as i64 }
    }

    /// The exact cross product, rescaled back to a single scale factor.
    pub open spec fn spec_cross(a: Vec3, b: Vec3) -> Vec3 {
        Vec3 {
            x: ((a.y * b.z - a.z * b.y) / (SCALE as int)) as i64,
            y: ((a.z * b.x - a.x * b.z) / (SCALE as int)) as i64,
            z: ((a.x * b.y - a.y * b.x) / (SCALE as int)) as i64,
        }
    }

    pub fn cross(a: &Vec3, b: &Vec3) -> (r: Vec3)
        requires
            a.ok(),
            b.ok(),
        ensures
            r == Vec3::spec_cross(*a, *b),
    {
        proof {
            lemma_ok_products(*a, *b);
        }
        let rx = div_floor(
            (a.y as i128) * (b.z as i128) - (a.z as i128) * (b.y as i128),
            SCALE as i128,
        );
        let ry = div_floor(
            (a.z as i128) * (b.x as i128) - (a.x as i128) * (b.z as i128),
            SCALE as i128,
        );
        let rz = div_floor(
            (a.x as i128) * (b.y as i128) - (a.y as i128) * (b.x as i128),
            SCALE as i128,
        );
        Vec3 { x: rx as i64, y: ry as i64, z: rz as i64 }
    }

    /// A vector with each component drawn uniformly from `[min, max]`.
    pub fn random_between(min: i64, max: i64) -> (r: Vec3)
        requires
            min <= max,
            -0x4000_0000_0000_0000 <= min,
            max <= 0x4000_0000_0000_0000,
        ensures
            min <= r.x <= max,
            min <= r.y <= max,
            min <= r.z <= max,
    {
        Vec3 {
            x: crate::rng::random_fx_between(min, max),
            y: crate::rng::random_fx_between(min, max),
            z: crate::rng::random_fx_between(min, max),
        }
    }

    /// A nonzero vector inside the unit ball, found by rejection;
    /// after a bounded number of tries a fixed interior vector is
    /// used instead.
    pub fn random_in_unit_sphere() -> (r: Vec3)
        ensures
            -SCALE <= r.x <= SCALE,
            -SCALE <= r.y <= SCALE,
            -SCALE <= r.z <= SCALE,
            r.spec_len2() <= 0x1_0000_0000,
            !(r.x == 0 && r.y == 0 && r.z == 0),
    {
        let mut i: u32 = 0;
        while i < 64
            invariant
                i <= 64,
            decreases 64 - i,
        {
            let p = Vec3::random_between(-SCALE, SCALE);
            let l2 = p.length_squared();
            if l2 <= 0x1_0000_0000 && !(p.x == 0 && p.y == 0 && p.z == 0) {
                return p;
            }
            i = i + 1;
        }
        Vec3 { x: 32768, y: 0, z: 0 }
    }

    /// A vector of length near one in a uniformly random direction.
    pub fn random_unit_vector() -> (r: Vec3)
        ensures
            -SCALE <= r.x <= SCALE,
            -SCALE <= r.y <= SCALE,
            -SCALE <= r.z <= SCALE,
            r.ok(),
    {
        let p = Vec3::random_in_unit_sphere();
        p.unit_vector()
    }

    /// A nonzero vector inside the unit disk of the xy-plane.
    pub fn random_in_unit_disk() -> (r: Vec3)
        ensures
            -SCALE <= r.x <= SCALE,
            -SCALE <= r.y <= SCALE,
            r.z == 0,
            r.spec_len2() <= 0x1_0000_0000,
    {
        let mut i: u32 = 0;
        while i < 64
            invariant
                i <= 64,
            decreases 64 - i,
        {
            let p = Vec3 {
                x: crate::rng::random_fx_between(-SCALE, SCALE),
                y: crate::rng::random_fx_between(-SCALE, SCALE),
                z: 0,
            };
            let l2 = p.length_squared();
            if l2 <= 0x1_0000_0000 {
                return p;
            }
            i = i + 1;
        }
        Vec3 { x: 32768, y: 0, z: 0 }
    }

    /// True exactly when every component is zero: with quantized
    /// coordinates a degenerate direction is an exact zero.
    pub fn near_zero(&self) -> (r: bool)
        ensures
            r == (self.x == 0 && self.y == 0 && self.z == 0),
    {
        self.x == 0 && self.y == 0 && self.z == 0
    }
}

/// Bound on a product of two bounded factors.
pub proof fn lemma_mul_bound(p: int, q: int, m: int)
    requires
        0 <= m,
        -m <= p <= m,
        -m <= q <= m,
    ensures
        -(m * m) <= p * q <= m * m,
{
    assert(-(m * m) <= p * q <= m * m) by (nonlinear_arith)
        requires
            0 <= m,
            -m <= p <= m,
            -m <= q <= m,
    ;
}

/// Bound on a product of two factors with separate bounds.
pub proof fn lemma_mul_bound2(p: int, q: int, bp: int, bq: int)
    requires
        0 <= bp,
        0 <= bq,
        -bp <= p <= bp,
        -bq <= q <= bq,
    ensures
        -(bp * bq) <= p * q <= bp * bq,
{
    assert(-(bp * bq) <= p * q <= bp * bq) by (nonlinear_arith)
        requires
            0 <= bp,
            0 <= bq,
            -bp <= p <= bp,
            -bq <= q <= bq,
    ;
}

/// Products of components of two loosely bounded vectors fit well
/// inside 128 bits.
proof fn lemma_lin_products(a: Vec3, b: Vec3)
    requires
        a.lin_ok(),
        b.lin_ok(),
    ensures
        -0x400_0000_0000_0000_0000_0000i128 <= a.x * b.x <= 0x400_0000_0000_0000_0000_0000i128,
        -0x400_0000_0000_0000_0000_0000i128 <= a.y * b.y <= 0x400_0000_0000_0000_0000_0000i128,
        -0x400_0000_0000_0000_0000_0000i128 <= a.z * b.z <= 0x400_0000_0000_0000_0000_0000i128,
        -0x400_0000_0000_0000_0000_0000i128 <= a.y * b.z <= 0x400_0000_0000_0000_0000_0000i128,
        -0x400_0000_0000_0000_0000_0000i128 <= a.z * b.y <= 0x400_0000_0000_0000_0000_0000i128,
        -0x400_0000_0000_0000_0000_0000i128 <= a.z * b.x <= 0x400_0000_0000_0000_0000_0000i128,
        -0x400_0000_0000_0000_0000_0000i128 <= a.x * b.z <= 0x400_0000_0000_0000_0000_0000i128,
        -0x400_0000_0000_0000_0000_0000i128 <= a.x * b.y <= 0x400_0000_0000_0000_0000_0000i128,
        -0x400_0000_0000_0000_0000_0000i128 <= a.y * b.x <= 0x400_0000_0000_0000_0000_0000i128,
{
    lemma_mul_bound(a.x as int, b.x as int, VMAX as int);
    lemma_mul_bound(a.y as int, b.y as int, VMAX as int);
    lemma_mul_bound(a.z as int, b.z as int, VMAX as int);
    lemma_mul_bound(a.y as int, b.z as int, VMAX as int);
    lemma_mul_bound(a.z as int, b.y as int, VMAX as int);
    lemma_mul_bound(a.z as int, b.x as int, VMAX as int);
    lemma_mul_bound(a.x as int, b.z as int, VMAX as int);
    lemma_mul_bound(a.x as int, b.y as int, VMAX as int);
    lemma_mul_bound(a.y as int, b.x as int, VMAX as int);
}

/// Same for the tight range.
proof fn lemma_ok_products(a: Vec3, b: Vec3)
    requires
        a.ok(),
        b.ok(),
    ensures
        -0x1000_0000_0000_0000_0000i128 <= a.y * b.z <= 0x1000_0000_0000_0000_0000i128,
        -0x1000_0000_0000_0000_0000i128 <= a.z * b.y <= 0x1000_0000_0000_0000_0000i128,
        -0x1000_0000_0000_0000_0000i128 <= a.z * b.x <= 0x1000_0000_0000_0000_0000i128,
        -0x1000_0000_0000_0000_0000i128 <= a.x * b.z <= 0x1000_0000_0000_0000_0000i128,
        -0x1000_0000_0000_0000_0000i128 <= a.x * b.y <= 0x1000_0000_0000_0000_0000i128,
        -0x1000_0000_0000_0000_0000i128 <= a.y * b.x <= 0x1000_0000_0000_0000_0000i128,
{
    lemma_mul_bound(a.y as int, b.z as int, FXMAX as int);
    lemma_mul_bound(a.z as int, b.y as int, FXMAX as int);
    lemma_mul_bound(a.z as int, b.x as int, FXMAX as int);
    lemma_mul_bound(a.x as int, b.z as int, FXMAX as int);
    lemma_mul_bound(a.x as int, b.y as int, FXMAX as int);
    lemma_mul_bound(a.y as int, b.x as int, FXMAX as int);
}

/// A squared length is never negative.
pub proof fn lemma_len2_nonneg(a: Vec3)
    ensures
        a.spec_len2() >= 0,
{
    assert(a.x * a.x + a.y * a.y + a.z * a.z >= 0) by (nonlinear_arith);
}

/// A squared length bounds each component's square, and a nonzero
/// vector has a positive squared length.
pub proof fn lemma_len2_component(a: Vec3)
    ensures
        a.x * a.x <= a.spec_len2(),
        a.y * a.y <= a.spec_len2(),
        a.z * a.z <= a.spec_len2(),
        !(a.x == 0 && a.y == 0 && a.z == 0) ==> a.spec_len2() >= 1,
{
    assert(a.x * a.x <= a.x * a.x + a.y * a.y + a.z * a.z && a.y * a.y <= a.x * a.x + a.y * a.y
        + a.z * a.z && a.z * a.z <= a.x * a.x + a.y * a.y + a.z * a.z && (!(a.x == 0 && a.y == 0
        && a.z == 0) ==> a.x * a.x + a.y * a.y + a.z * a.z >= 1)) by (nonlinear_arith);
}

/// A component rescaled by the length stays within one unit scale.
proof fn lemma_unit_component(c: int, l: int, l2: int, r: int)
    requires
        1 <= l,
        l * l <= l2,
        c * c <= l2,
        l2 < (l + 1) * (l + 1),
        l * r <= c * SCALE < l * (r + 1),
    ensures
        -SCALE <= r <= SCALE,
{
    assert(-l <= c <= l) by (nonlinear_arith)
        requires
            1 <= l,
            l * l <= l2 < (l + 1) * (l + 1),
            c * c <= l2,
    ;
    assert(-65536 <= r <= 65536) by (nonlinear_arith)
        requires
            1 <= l,
            -l <= c <= l,
            l * r <= c * 65536 < l * (r + 1),
    ;
}

} // verus!
