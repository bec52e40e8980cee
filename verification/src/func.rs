//! Scalar math helpers: min, max, angle conversion, and the
//! fixed-point approximations of sine, arctangent, arccosine and
//! the negative logarithm.
//!
//! Each approximation's contract states the exact integer formula it
//! computes; no claim is made that the formula equals the real
//! function beyond the bounds stated.

use vstd::prelude::*;
use crate::fixed::{fx_ok, div_floor, isqrt, sqrt_floor, SCALE, FXMAX};
use crate::vec3::lemma_mul_bound;

verus! {

/// The circle constant in fixed-point units.
pub const PI_FX: i64 = 205887;

/// A quarter of the circle constant.
pub const QPI_FX: i64 = 51472;

/// The natural logarithm of two in fixed-point units.
pub const LN2_FX: i64 = 45426;

/// The linear-correction coefficient of the arctangent approximation.
pub const ATAN_K: i64 = 17891;

/// The smaller of two scalars.
pub fn fmin(a: i64, b: i64) -> (r: i64)
    ensures
        r == if a < b { a as int } else { b as int },
{
    if a < b {
        a
    } else {
        b
    }
}

/// The larger of two scalars.
pub fn fmax(a: i64, b: i64) -> (r: i64)
    ensures
        r == if a > b { a as int } else { b as int },
{
    if a > b {
        a
    } else {
        b
    }
}

/// What converting degrees to radians computes.
pub open spec fn spec_degrees_to_radians(phi: int) -> int {
    if phi >= 0 {
        (phi * (PI_FX as int)) / (180 * (SCALE as int))
    } else {
        -(((-phi) * (PI_FX as int)) / (180 * (SCALE as int)))
    }
}

/// Converts a fixed-point angle in degrees to radians, rounding the
/// magnitude down.
pub fn degrees_to_radians(phi: i64) -> (r: i64)
    requires
        fx_ok(phi as int),
    ensures
        r == spec_degrees_to_radians(phi as int),
        fx_ok(r as int),
        -360 * SCALE <= phi <= 360 * SCALE ==> -411775 <= r <= 411775,
{
    let neg = phi < 0;
    let m: i128 = if neg {
        -(phi as i128)
    } else {
        phi as i128
    };
    let q = div_floor(m * (PI_FX as i128), 11796480);
    proof {
        assert(0 <= q <= 0x40_0000_0000i128) by (nonlinear_arith)
            requires
                0 <= m <= 0x40_0000_0000i128,
                11796480 * q <= m * 205887 < 11796480 * (q + 1),
        ;
        assert(m <= 23592960 ==> q <= 411775) by (nonlinear_arith)
            requires
                0 <= m,
                11796480 * q <= m * 205887,
        ;
    }
    if neg {
        -(q as i64)
    } else {
        q as i64
    }
}

/// The argument reduced into one period around zero.
pub open spec fn spec_reduce(x: int) -> int {
    x - 2 * (PI_FX as int) * ((x + PI_FX as int) / (2 * (PI_FX as int)))
}

/// The parabola-quotient approximation of sine on `[0, pi]`.
pub open spec fn spec_sin_half(r: int) -> int {
    let a = r * ((PI_FX as int) - r);
    (16 * a * (SCALE as int)) / (5 * (PI_FX as int) * (PI_FX as int) - 4 * a)
}

/// The sine approximation on a reduced argument in `[-pi, pi)`.
pub open spec fn spec_sin_reduced(r: int) -> int {
    if r >= 0 {
        spec_sin_half(r)
    } else {
        -spec_sin_half(-r)
    }
}

/// The full sine approximation: reduce, then approximate.
pub open spec fn spec_sin(x: int) -> int {
    spec_sin_reduced(spec_reduce(x))
}

/// Sine of a fixed-point angle in radians.
pub fn sin_fx(x: i64) -> (r: i64)
    requires
        fx_ok(x as int),
    ensures
        r == spec_sin(x as int),
        -SCALE <= r <= SCALE,
{
    let k = div_floor((x as i128) + (PI_FX as i128), 2 * (PI_FX as i128));
    let red = (x as i128) - 2 * (PI_FX as i128) * k;
    proof {
        assert(-(PI_FX as i128) <= red < (PI_FX as i128)) by (nonlinear_arith)
            requires
                red == (x as i128) - 2 * 205887 * k,
                2 * 205887 * k <= (x as i128) + 205887 < 2 * 205887 * (k + 1),
        ;
    }
    let rr = red as i64;
    if rr >= 0 {
        sin_half(rr)
    } else {
        let s = sin_half(-rr);
        -s
    }
}

/// Cosine, as sine shifted by a quarter period.
pub open spec fn spec_cos(x: int) -> int {
    spec_sin(x + 2 * (QPI_FX as int))
}

/// Cosine of a fixed-point angle in radians.
pub fn cos_fx(x: i64) -> (r: i64)
    requires
        fx_ok(x as int),
        x + 2 * QPI_FX <= FXMAX,
    ensures
        r == spec_cos(x as int),
        -SCALE <= r <= SCALE,
{
    sin_fx(x + 2 * QPI_FX)
}

/// The sine approximation on `[0, pi)`.
fn sin_half(r: i64) -> (s: i64)
    requires
        0 <= r <= PI_FX,
    ensures
        s == spec_sin_half(r as int),
        0 <= s <= SCALE,
{
    proof {
        lemma_mul_bound(r as int, (PI_FX - r) as int, 205887);
    }
    let a: i128 = (r as i128) * ((PI_FX as i128) - (r as i128));
    proof {
        assert(0 <= a && 4 * a <= 42389456769i128) by (nonlinear_arith)
            requires
                0 <= r as i128 <= 205887i128,
                a == (r as i128) * (205887i128 - (r as i128)),
        ;
    }
    let denom = 211947283845 - 4 * a;
    let s = div_floor(16 * a * 65536, denom);
    proof {
        assert(0 <= s <= 65536) by (nonlinear_arith)
            requires
                0 <= a,
                4 * a <= 42389456769i128,
                denom == 211947283845i128 - 4 * a,
                denom * s <= 16 * a * 65536 < denom * (s + 1),
        ;
        assert(5 * (205887int * 205887) == 211947283845int) by (nonlinear_arith);
    }
    s as i64
}

/// The first-octant arctangent approximation on `[0, 1]`:
/// a quarter turn scaled by the ratio, plus a parabolic correction.
pub open spec fn spec_atan_oct(z: int) -> int {
    (z * (QPI_FX as int) + (ATAN_K as int) * z * (((SCALE as int) - z)) / (SCALE as int)) / (
    SCALE as int)
}

/// Arctangent on the first octant, argument in `[0, SCALE]`.
fn atan_oct(z: i64) -> (r: i64)
    requires
        0 <= z <= SCALE,
    ensures
        r == spec_atan_oct(z as int),
        0 <= r <= QPI_FX,
{
    let p1: i128 = 17891 * (z as i128);
    proof {
        lemma_mul_bound(p1 as int, 65536 - z as int, 1172570112);
    }
    let p2: i128 = p1 * (65536 - (z as i128));
    let corr = div_floor(p2, 65536);
    let r = div_floor((z as i128) * 51472 + corr, 65536);
    proof {
        assert(0 <= p2 && 0 <= corr && 65536 * (51472 * z + corr) <= 65536 * (65536 * 51472))
            by (nonlinear_arith)
            requires
                0 <= z as i128 <= 65536,
                p1 == 17891 * (z as i128),
                p2 == p1 * (65536 - (z as i128)),
                65536 * corr <= p2 < 65536 * (corr + 1),
        ;
        assert(0 <= r <= 51472) by (nonlinear_arith)
            requires
                0 <= z as i128 <= 65536,
                0 <= corr,
                65536 * (51472 * z + corr) <= 65536 * (65536 * 51472),
                65536 * r <= (z as i128) * 51472 + corr < 65536 * (r + 1),
        ;
        assert(p2 == (ATAN_K as int) * (z as int) * ((SCALE as int) - z as int));
    }
    r as i64
}

/// The two-argument arctangent over the approximation above; the
/// result lies in `(-pi, pi]`.
pub open spec fn spec_atan2(y: int, x: int) -> int {
    let ay = if y >= 0 { y } else { -y };
    let ax = if x >= 0 { x } else { -x };
    let base = if ax == 0 && ay == 0 {
        0
    } else if ax >= ay {
        spec_atan_oct((ay * (SCALE as int)) / ax)
    } else {
        2 * (QPI_FX as int) - spec_atan_oct((ax * (SCALE as int)) / ay)
    };
    let mag = if x >= 0 {
        base
    } else {
        4 * (QPI_FX as int) - base
    };
    if y >= 0 {
        mag
    } else {
        -mag
    }
}

/// Two-argument arctangent of fixed-point coordinates.
pub fn atan2_fx(y: i64, x: i64) -> (r: i64)
    requires
        fx_ok(y as int),
        fx_ok(x as int),
    ensures
        r == spec_atan2(y as int, x as int),
        -4 * QPI_FX <= r <= 4 * QPI_FX,
        y >= 0 ==> r >= 0,
        y < 0 ==> r <= 0,
{
    let ay = if y >= 0 {
        y
    } else {
        -y
    };
    let ax = if x >= 0 {
        x
    } else {
        -x
    };
    let base: i64 = if ax == 0 && ay == 0 {
        0
    } else if ax >= ay {
        let q = div_floor((ay as i128) * (SCALE as i128), ax as i128);
        proof {
            assert(0 <= q <= 65536) by (nonlinear_arith)
                requires
                    0 < ax as i128,
                    0 <= ay as i128 <= ax as i128,
                    (ax as i128) * q <= (ay as i128) * 65536 < (ax as i128) * (q + 1),
            ;
        }
        atan_oct(q as i64)
    } else {
        let q = div_floor((ax as i128) * (SCALE as i128), ay as i128);
        proof {
            assert(0 <= q <= 65536) by (nonlinear_arith)
                requires
                    0 < ay as i128,
                    0 <= ax as i128 <= ay as i128,
                    (ay as i128) * q <= (ax as i128) * 65536 < (ay as i128) * (q + 1),
            ;
        }
        2 * QPI_FX - atan_oct(q as i64)
    };
    let mag = if x >= 0 {
        base
    } else {
        4 * QPI_FX - base
    };
    if y >= 0 {
        mag
    } else {
        -mag
    }
}

/// Arccosine via the arctangent: the angle whose cosine is `y/SCALE`.
pub open spec fn spec_acos(y: int) -> int {
    spec_atan2(sqrt_floor((SCALE as int) * (SCALE as int) - y * y), y)
}

/// Arccosine of a fixed-point value in `[-1, 1]`.
pub fn acos_fx(y: i64) -> (r: i64)
    requires
        -SCALE <= y <= SCALE,
    ensures
        r == spec_acos(y as int),
        0 <= r <= 4 * QPI_FX,
{
    proof {
        lemma_mul_bound(y as int, y as int, 65536);
    }
    let s2: i128 = 4294967296 - (y as i128) * (y as i128);
    proof {
        assert(0 <= s2 <= 4294967296i128 && s2 == (SCALE as int) * (SCALE as int) - (y as int) * (
        y as int)) by (nonlinear_arith)
            requires
                -65536 <= y as i128 <= 65536,
                s2 == 4294967296i128 - (y as i128) * (y as i128),
        ;
    }
    let s = isqrt(s2 as u128);
    proof {
        assert(s2 as u128 == s2);
        assert(s * s <= 4294967296);
        assert(s <= 65536u128) by (nonlinear_arith)
            requires
                s * s <= 4294967296,
        ;
    }
    let r = atan2_fx(s as i64, y);
    proof {
        assert(r >= 0);
    }
    r
}

/// How many doublings bring `m` up into `(SCALE/2, SCALE]`.
pub open spec fn spec_shifts(m: int) -> int
    decreases (SCALE as int) - m,
{
    if m <= 0 || m > (SCALE as int) / 2 {
        0
    } else {
        1 + spec_shifts(2 * m)
    }
}

/// The truncated series for `-ln(1 + z)` with `z = (m - SCALE)/SCALE`,
/// written over `w = SCALE - m` so every term is non-negative.
pub open spec fn spec_neg_ln_frac(m: int) -> int {
    let w = (SCALE as int) - m;
    w + (w * w) / (2 * (SCALE as int)) + (w * w * w) / (3 * (SCALE as int) * (SCALE as int))
}

/// The negative natural logarithm of `u/SCALE` for `u` in `(0, SCALE]`.
pub open spec fn spec_neg_ln_unit(u: int) -> int {
    let k = spec_shifts(u);
    let m = u * vstd::arithmetic::power2::pow2(k as nat);
    k * (LN2_FX as int) + spec_neg_ln_frac(m)
}

/// `-ln(u/SCALE)` in fixed point, by normalizing the argument into
/// the top half-interval and applying a three-term series.
pub fn neg_ln_unit(u: i64) -> (r: i64)
    requires
        1 <= u <= SCALE,
    ensures
        r == spec_neg_ln_unit(u as int),
        0 <= r <= 800000,
{
    let mut m: i64 = u;
    let mut k: i64 = 0;
    proof {
        vstd::arithmetic::power2::lemma2_to64();
        let p0 = vstd::arithmetic::power2::pow2(0) as int;
        assert(u as int == u as int * p0) by (nonlinear_arith)
            requires
                p0 == 1,
        ;
    }
    while m <= 32768
        invariant
            1 <= m <= SCALE,
            0 <= k <= 16,
            m == u * vstd::arithmetic::power2::pow2(k as nat),
            spec_shifts(u as int) == k + spec_shifts(m as int),
            u >= 1,
        decreases SCALE - m,
    {
        proof {
            let p = vstd::arithmetic::power2::pow2(k as nat) as int;
            vstd::arithmetic::power2::lemma_pow2_unfold((k + 1) as nat);
            assert(2 * m == u * (2 * p)) by (nonlinear_arith)
                requires
                    m == u * p,
            ;
            vstd::arithmetic::power2::lemma2_to64();
            if k == 16 {
                assert(p == 65536);
                assert(m >= 65536) by (nonlinear_arith)
                    requires
                        m == u * p,
                        u >= 1,
                        p == 65536,
                ;
            }
            assert(spec_shifts(m as int) == 1 + spec_shifts(2 * m as int));
        }
        m = m * 2;
        k = k + 1;
    }
    let w: i128 = (SCALE as i128) - (m as i128);
    proof {
        lemma_mul_bound(w as int, w as int, 32768);
        lemma_mul_bound((w * w) as int, w as int, 1073741824);
    }
    let ww: i128 = w * w;
    let www: i128 = ww * w;
    let t2 = div_floor(ww, 131072);
    let t3 = div_floor(www, 12884901888);
    proof {
        assert(0 <= t2 <= 16384 && 0 <= t3 <= 10923) by (nonlinear_arith)
            requires
                0 <= w < 32768,
                ww == w * w,
                www == ww * w,
                131072 * t2 <= ww < 131072 * (t2 + 1),
                12884901888 * t3 <= www < 12884901888 * (t3 + 1),
        ;
    }
    let r = k * LN2_FX + (w as i64) + (t2 as i64) + (t3 as i64);
    proof {
        assert(spec_shifts(m as int) == 0);
        assert(r == spec_neg_ln_unit(u as int));
    }
    r
}

} // verus!
