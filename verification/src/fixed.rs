//! Exact fixed-point scalar arithmetic.
//!
//! A scalar carries `SCALE` units per 1.0 and lives in an `i64`;
//! every product or quotient is computed in 128 bits and rounded
//! toward minus infinity, so each operation equals a single integer
//! expression that the contracts state.

use vstd::prelude::*;

verus! {

/// Number of fixed-point units per 1.0.
pub const SCALE: i64 = 65536;

/// Largest magnitude a well-formed scalar may have.
pub const FXMAX: i64 = 0x40_0000_0000;

/// A scalar within the range every geometric computation stays in.
pub open spec fn fx_ok(a: int) -> bool {
    -FXMAX <= a <= FXMAX
}

/// Floor division on wide integers, rounding toward minus infinity.
///
/// For a positive divisor this agrees with mathematical integer
/// division, so the result is exactly `a / b` of the specification
/// language.
pub fn div_floor(a: i128, b: i128) -> (r: i128)
    requires
        0 < b,
        -0x1000_0000_0000_0000_0000_0000_0000_0000 < a
            < 0x1000_0000_0000_0000_0000_0000_0000_0000,
        b < 0x1000_0000_0000_0000_0000_0000_0000_0000,
    ensures
        r == a / b,
        b * r <= a < b * (r + 1),
        a >= 0 ==> 0 <= r <= a,
        a < 0 ==> a <= r < 0,
{
    proof {
        lemma_quot_range_floor(a as int, b as int);
    }
    let bu = b as u128;
    if a >= 0 {
        let q = (a as u128) / bu;
        proof {
            vstd::arithmetic::div_mod::lemma_fundamental_div_mod(a as int, b as int);
            assert((a as u128) / bu == a as int / b as int);
            assert(b * (a / b) <= a < b * (a / b + 1)) by (nonlinear_arith)
                requires
                    b > 0,
                    a >= 0,
                    a == b * (a / b) + a % b,
                    0 <= a % b < b,
            ;
        }
        q as i128
    } else {
        let na = (-a) as u128;
        let q = (na + bu - 1) / bu;
        proof {
            let m = na as int + b as int - 1;
            let naq = m / b as int;
            vstd::arithmetic::div_mod::lemma_fundamental_div_mod(m, b as int);
            assert(b * (-naq) <= a < b * (-naq + 1)) by (nonlinear_arith)
                requires
                    b > 0,
                    a < 0,
                    na == -(a as int),
                    m == na as int + b as int - 1,
                    m == b * naq + m % (b as int),
                    0 <= m % (b as int) < b,
            ;
            vstd::arithmetic::div_mod::lemma_fundamental_div_mod(a as int, b as int);
            assert(-naq == a / b) by (nonlinear_arith)
                requires
                    b > 0,
                    b * (-naq) <= a < b * (-naq + 1),
                    a == b * (a / b) + a % b,
                    0 <= a % b < b,
            ;
        }
        -(q as i128)
    }
}

/// Ceiling division on wide integers for a positive divisor.
pub fn div_ceil(a: i128, b: i128) -> (r: i128)
    requires
        0 < b,
        -0x800_0000_0000_0000_0000_0000_0000_0000 < a
            < 0x800_0000_0000_0000_0000_0000_0000_0000,
        b < 0x800_0000_0000_0000_0000_0000_0000_0000,
    ensures
        b * (r - 1) < a <= b * r,
        a > 0 ==> 0 < r <= a,
        a <= 0 ==> a <= r <= 0,
{
    let r = div_floor(a + b - 1, b);
    proof {
        assert(b * (r - 1) < a <= b * r) by (nonlinear_arith)
            requires
                b > 0,
                b * r <= a + b - 1 < b * (r + 1),
        ;
        lemma_quot_range_ceil(a as int, b as int, r as int);
    }
    r
}

/// Floor quotients keep the sign and never grow in magnitude.
proof fn lemma_quot_range_floor(a: int, b: int)
    requires
        b >= 1,
    ensures
        a >= 0 ==> 0 <= a / b <= a,
        a < 0 ==> a <= a / b < 0,
{
    vstd::arithmetic::div_mod::lemma_fundamental_div_mod(a, b);
    assert((a >= 0 ==> 0 <= a / b <= a) && (a < 0 ==> a <= a / b < 0)) by (nonlinear_arith)
        requires
            b >= 1,
            a == b * (a / b) + a % b,
            0 <= a % b < b,
    ;
}

/// Ceiling quotients keep the sign and never grow in magnitude.
proof fn lemma_quot_range_ceil(a: int, b: int, r: int)
    requires
        b >= 1,
        b * (r - 1) < a <= b * r,
    ensures
        a > 0 ==> 0 < r <= a,
        a <= 0 ==> a <= r <= 0,
{
    assert((a > 0 ==> 0 < r <= a) && (a <= 0 ==> a <= r <= 0)) by (nonlinear_arith)
        requires
            b >= 1,
            b * (r - 1) < a <= b * r,
    ;
}

/// The integer square root, rounded down; zero below zero.
pub open spec fn sqrt_floor(x: int) -> int
    decreases x,
{
    if x <= 0 {
        0
    } else {
        let s = sqrt_floor(x - 1);
        if (s + 1) * (s + 1) <= x {
            s + 1
        } else {
            s
        }
    }
}

/// `sqrt_floor` is the unique value squeezed between the two squares.
pub proof fn lemma_sqrt_floor(x: int)
    requires
        x >= 0,
    ensures
        0 <= sqrt_floor(x),
        sqrt_floor(x) * sqrt_floor(x) <= x,
        x < (sqrt_floor(x) + 1) * (sqrt_floor(x) + 1),
    decreases x,
{
    if x > 0 {
        lemma_sqrt_floor(x - 1);
        let s = sqrt_floor(x - 1);
        if (s + 1) * (s + 1) <= x {
            assert(sqrt_floor(x) == s + 1);
            assert(x < (s + 1 + 1) * (s + 1 + 1)) by (nonlinear_arith)
                requires
                    0 <= s,
                    x - 1 < (s + 1) * (s + 1),
            ;
        } else {
            assert(sqrt_floor(x) == s);
        }
    }
}

/// Only one value sits between the squares, so the bounds pin it down.
pub proof fn lemma_sqrt_floor_unique(x: int, r: int)
    requires
        0 <= x,
        0 <= r,
        r * r <= x,
        x < (r + 1) * (r + 1),
    ensures
        r == sqrt_floor(x),
{
    lemma_sqrt_floor(x);
    let s = sqrt_floor(x);
    assert(r == s) by (nonlinear_arith)
        requires
            0 <= r,
            0 <= s,
            r * r <= x < (r + 1) * (r + 1),
            s * s <= x < (s + 1) * (s + 1),
    ;
}

/// Binary-search integer square root.
pub fn isqrt(x: u128) -> (r: u128)
    requires
        x < 0x4000_0000_0000_0000_0000_0000_0000_0000,
    ensures
        r == sqrt_floor(x as int),
        r * r <= x < (r + 1) * (r + 1),
        r <= 0x7fff_ffff_ffff_ffff,
{
    let mut lo: u128 = 0;
    let mut hi: u128 = 0x8000_0000_0000_0000;
    proof {
        assert(hi * hi > x) by (nonlinear_arith)
            requires
                hi == 0x8000_0000_0000_0000u128,
                x < 0x4000_0000_0000_0000_0000_0000_0000_0000,
        ;
    }
    while lo + 1 < hi
        invariant
            lo < hi <= 0x8000_0000_0000_0000,
            lo * lo <= x,
            x < hi * hi,
        decreases hi - lo,
    {
        let mid = lo + (hi - lo) / 2;
        proof {
            assert(mid * mid <= 0x4000_0000_0000_0000_0000_0000_0000_0000u128) by (nonlinear_arith)
                requires
                    0 <= mid <= 0x8000_0000_0000_0000u128,
            ;
        }
        if mid * mid <= x {
            lo = mid;
        } else {
            hi = mid;
        }
    }
    proof {
        lemma_sqrt_floor_unique(x as int, lo as int);
    }
    lo
}

/// The fixed-point product, rounded toward minus infinity.
pub open spec fn fmul(a: int, b: int) -> int {
    (a * b) / (SCALE as int)
}

/// Fixed-point multiplication of two in-range scalars.
pub fn mul_fx(a: i64, b: i64) -> (r: i64)
    requires
        fx_ok(a as int),
        fx_ok(b as int),
    ensures
        r == fmul(a as int, b as int),
        -0x1000_0000_0000_0000 <= r <= 0x1000_0000_0000_0000,
{
    proof {
        assert(
            -0x4000_0000_0000_0000_0000i128 <= (a as i128) * (b as i128)
                <= 0x4000_0000_0000_0000_0000i128
        ) by (nonlinear_arith)
            requires
                -0x40_0000_0000i128 <= a as i128 <= 0x40_0000_0000i128,
                -0x40_0000_0000i128 <= b as i128 <= 0x40_0000_0000i128,
        ;
    }
    let p = (a as i128) * (b as i128);
    let r = div_floor(p, SCALE as i128);
    proof {
        assert(-0x1000_0000_0000_0000 <= r <= 0x1000_0000_0000_0000) by (nonlinear_arith)
            requires
                -0x40_0000_0000i128 <= a as i128 <= 0x40_0000_0000i128,
                -0x40_0000_0000i128 <= b as i128 <= 0x40_0000_0000i128,
                p == (a as i128) * (b as i128),
                65536 * r <= p < 65536 * (r + 1),
        ;
    }
    r as i64
}

/// The fixed-point quotient `a / b`, rounded toward minus infinity.
pub open spec fn fdiv(a: int, b: int) -> int {
    if b > 0 {
        (a * (SCALE as int)) / b
    } else {
        ((-a) * (SCALE as int)) / (-b)
    }
}

/// Fixed-point division of in-range scalars by a nonzero divisor.
/// The quotient of two in-range scalars always fits an `i64`.
pub fn div_fx(a: i64, b: i64) -> (r: i64)
    requires
        b != 0,
        fx_ok(a as int),
        fx_ok(b as int),
    ensures
        r == fdiv(a as int, b as int),
        -0x40_0000_0000_0000 <= r <= 0x40_0000_0000_0000,
{
    let (na, nb): (i128, i128) = if b > 0 {
        (a as i128, b as i128)
    } else {
        (-(a as i128), -(b as i128))
    };
    proof {
        assert(-0x40_0000_0000_0000i128 <= na * 65536 <= 0x40_0000_0000_0000i128)
            by (nonlinear_arith)
            requires
                -0x40_0000_0000i128 <= na <= 0x40_0000_0000i128,
        ;
    }
    let q = div_floor(na * (SCALE as i128), nb);
    proof {
        assert(-0x40_0000_0000_0000 <= q <= 0x40_0000_0000_0000) by (nonlinear_arith)
            requires
                1 <= nb,
                -0x40_0000_0000_0000i128 <= na * 65536 <= 0x40_0000_0000_0000i128,
                nb * q <= na * 65536 < nb * (q + 1),
        ;
    }
    q as i64
}

/// Rescaled products against a unit-bounded factor stay within the
/// other factor's bound (up to the floor's one-off).
pub proof fn lemma_fmul_le(x: int, k: int, bx: int)
    requires
        0 <= bx,
        -bx <= x <= bx,
        -65536 <= k <= 65536,
    ensures
        -bx - 1 <= fmul(x, k) <= bx,
        -bx - 1 <= fmul(k, x) <= bx,
{
    lemma_fmul_range(x, k, bx, 65536, bx);
}

/// The general rescaled-product range: if the factor bounds keep
/// the product within `bound` scales, the rescaled product stays
/// within `bound` (up to the floor's one-off).
pub proof fn lemma_fmul_range(x: int, k: int, bx: int, bk: int, bound: int)
    requires
        0 <= bx,
        0 <= bk,
        -bx <= x <= bx,
        -bk <= k <= bk,
        bx * bk <= bound * 65536,
    ensures
        -bound - 1 <= fmul(x, k) <= bound,
        -bound - 1 <= fmul(k, x) <= bound,
{
    let p = x * k;
    assert(p == k * x && -(bx * bk) <= p <= bx * bk) by (nonlinear_arith)
        requires
            0 <= bx,
            0 <= bk,
            -bx <= x <= bx,
            -bk <= k <= bk,
            p == x * k,
    ;
    vstd::arithmetic::div_mod::lemma_fundamental_div_mod(p, 65536);
    assert(fmul(x, k) == (x * k) / (SCALE as int));
    assert(fmul(k, x) == (k * x) / (SCALE as int));
    assert((x * k) / (SCALE as int) == p / 65536);
    assert((k * x) / (SCALE as int) == p / 65536);
}

/// A quotient of a numerator within the denominator stays within
/// one unit scale.
pub proof fn lemma_fdiv_unit(a: int, b: int)
    requires
        1 <= b,
        -b <= a <= b,
    ensures
        -65536 <= fdiv(a, b) <= 65536,
{
    let q = fdiv(a, b);
    vstd::arithmetic::div_mod::lemma_fundamental_div_mod(a * 65536, b);
    assert(-65536 <= q <= 65536) by (nonlinear_arith)
        requires
            1 <= b,
            -b <= a <= b,
            a * 65536 == b * q + (a * 65536) % b,
            0 <= (a * 65536) % b < b,
    ;
}

/// A fraction of a non-negative numerator over a larger positive
/// denominator stays within one unit scale, exactly one at equality
/// and exactly zero at zero.
pub proof fn lemma_fdiv_frac(a: int, b: int)
    requires
        0 <= a <= b,
        1 <= b,
    ensures
        0 <= fdiv(a, b) <= SCALE,
        a == b ==> fdiv(a, b) == SCALE,
        a == 0 ==> fdiv(a, b) == 0,
{
    let q = fdiv(a, b);
    vstd::arithmetic::div_mod::lemma_fundamental_div_mod(a * 65536, b);
    assert(0 <= q <= 65536 && (a == b ==> q == 65536) && (a == 0 ==> q == 0))
        by (nonlinear_arith)
        requires
            0 <= a <= b,
            1 <= b,
            a * 65536 == b * q + (a * 65536) % b,
            0 <= (a * 65536) % b < b,
    ;
}

/// Scaling by exactly one is the identity.
pub proof fn lemma_fmul_one(d: int)
    ensures
        fmul(65536, d) == d,
        fmul(0, d) == 0,
{
    vstd::arithmetic::div_mod::lemma_fundamental_div_mod(65536 * d, 65536);
    assert(fmul(65536, d) == d && fmul(0, d) == 0) by (nonlinear_arith)
        requires
            65536 * d == 65536 * ((65536 * d) / 65536) + (65536 * d) % 65536,
            0 <= (65536 * d) % 65536 < 65536,
    ;
}

} // verus!
