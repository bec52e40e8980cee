//! The glass material: refraction with Schlick-weighted reflection.

use vstd::prelude::*;
use crate::fixed::{fx_ok, fmul, fdiv, sqrt_floor, mul_fx, div_fx, isqrt, SCALE};
use crate::vec3::{Vec3, Color};
use crate::ray::Ray;
use crate::hittable::Hitrecord;
use crate::metal::{reflect, spec_reflect};

verus! {

pub struct Dielectric {
    pub ir: i64,
}

/// The cosine of the angle between the reversed unit direction and
/// the normal, clamped into `[0, 1]`.
pub open spec fn spec_cos_theta(ud: Vec3, n: Vec3) -> int {
    let c = (-Vec3::spec_dot(ud, n)) / (SCALE as int);
    if c > SCALE {
        SCALE as int
    } else if c < 0 {
        0
    } else {
        c
    }
}

/// The refracted direction by Snell's law, with the perpendicular
/// part scaled by the index ratio and the parallel part sized to
/// keep the result near unit length.
pub open spec fn spec_refract(ud: Vec3, n: Vec3, ratio: int) -> Vec3 {
    let ct = spec_cos_theta(ud, n);
    let px = fmul(ratio, ud.x + fmul(ct, n.x as int));
    let py = fmul(ratio, ud.y + fmul(ct, n.y as int));
    let pz = fmul(ratio, ud.z + fmul(ct, n.z as int));
    let l2 = px * px + py * py + pz * pz;
    let k = (SCALE as int) * (SCALE as int) - l2;
    let par = if k >= 0 {
        sqrt_floor(k)
    } else {
        0
    };
    Vec3 {
        x: (px - fmul(par, n.x as int)) as i64,
        y: (py - fmul(par, n.y as int)) as i64,
        z: (pz - fmul(par, n.z as int)) as i64,
    }
}

/// Schlick's reflectance approximation.
pub open spec fn spec_reflectance(ct: int, ratio: int) -> int {
    let a = fdiv((SCALE as int) - ratio, (SCALE as int) + ratio);
    let r0 = fmul(a, a);
    let omc = (SCALE as int) - ct;
    let p2 = fmul(omc, omc);
    let p4 = fmul(p2, p2);
    let p5 = fmul(p4, omc);
    r0 + fmul((SCALE as int) - r0, p5)
}

impl Dielectric {
    pub open spec fn wf(self) -> bool {
        32768 <= self.ir <= 16 * SCALE
    }

    pub fn default_new() -> (r: Dielectric)
        ensures
            r.ir == SCALE,
    {
        Dielectric { ir: SCALE }
    }

    pub fn new(index_of_refraction: i64) -> (r: Dielectric)
        ensures
            r.ir == index_of_refraction,
    {
        Dielectric { ir: index_of_refraction }
    }

    pub fn copy(&self) -> (r: Dielectric)
        ensures
            r == *self,
    {
        Dielectric { ir: self.ir }
    }

    /// The index ratio used for the hit: inverted when entering.
    pub open spec fn spec_ratio(self, front_face: bool) -> int {
        if front_face {
            fdiv(SCALE as int, self.ir as int)
        } else {
            self.ir as int
        }
    }

    /// Always scatters (except for a degenerate zero direction):
    /// attenuation is white, and the outgoing direction is either
    /// the exact mirror reflection of the unit incoming direction or
    /// its Snell refraction, the choice driven by total internal
    /// reflection and a random Schlick draw.
    pub fn scatter(&self, r_in: &Ray, rec: &Hitrecord) -> (res: Option<(Color, Ray)>)
        requires
            self.wf(),
            rec.bounded(),
            -0x800_0000 <= r_in.dir.x <= 0x800_0000,
            -0x800_0000 <= r_in.dir.y <= 0x800_0000,
            -0x800_0000 <= r_in.dir.z <= 0x800_0000,
        ensures
            res is Some <==> !(r_in.dir.x == 0 && r_in.dir.y == 0 && r_in.dir.z == 0),
            res matches Some((att, sc)) ==> att == (Vec3 { x: SCALE, y: SCALE, z: SCALE })
                && sc.orig == rec.p && sc.tm == r_in.tm && -0x4_0100_0000 <= sc.dir.x
                <= 0x4_0100_0000 && -0x4_0100_0000 <= sc.dir.y <= 0x4_0100_0000 && -0x4_0100_0000
                <= sc.dir.z <= 0x4_0100_0000 && (sc.dir == spec_reflect(
                r_in.dir.spec_unit(),
                rec.normal,
            ) || sc.dir == spec_refract(
                r_in.dir.spec_unit(),
                rec.normal,
                self.spec_ratio(rec.front_face),
            )),
    {
        if r_in.dir.x == 0 && r_in.dir.y == 0 && r_in.dir.z == 0 {
            return None;
        }
        let ratio: i64 = if rec.front_face {
            div_fx(SCALE, self.ir)
        } else {
            self.ir
        };
        proof {
            if rec.front_face {
                assert(ratio == 0x1_0000_0000int / (self.ir as int));
                vstd::arithmetic::div_mod::lemma_fundamental_div_mod(
                    0x1_0000_0000,
                    self.ir as int,
                );
                assert(0 <= ratio <= 0x2_0000) by (nonlinear_arith)
                    requires
                        32768 <= self.ir <= 0x10_0000,
                        0x1_0000_0000int == (self.ir as int) * ratio + 0x1_0000_0000int % (
                        self.ir as int),
                        0 <= 0x1_0000_0000int % (self.ir as int) < self.ir,
                ;
            }
            assert(0 <= ratio <= 0x10_0000);
        }
        let ud = r_in.direction().unit_vector();
        let ct = cos_theta(&ud, &rec.normal);
        proof {
            crate::vec3::lemma_mul_bound(ct as int, ct as int, 65536);
            crate::vec3::lemma_mul_bound(ratio as int, ratio as int, 0x10_0000);
        }
        let sin2: i128 = 4294967296 - (ct as i128) * (ct as i128);
        let rr: i128 = (ratio as i128) * (ratio as i128);
        proof {
            crate::vec3::lemma_mul_bound(rr as int, sin2 as int, 0x1_0000_0000_0000i128 as int);
        }
        let cannot_refract = rr * sin2 > 0x1_0000_0000_0000_0000i128;
        let refl = reflectance(ct, ratio);
        let draw = crate::rng::random_fx_unit();
        let dir: Vec3 = if cannot_refract || refl > draw {
            reflect(&ud, &rec.normal)
        } else {
            refract(&ud, &rec.normal, ratio)
        };
        Some((Vec3::new(SCALE, SCALE, SCALE), Ray::new(&rec.p, &dir, r_in.tm)))
    }
}

/// The clamped cosine between the reversed unit direction and the
/// normal.
fn cos_theta(ud: &Vec3, n: &Vec3) -> (r: i64)
    requires
        -SCALE <= ud.x <= SCALE,
        -SCALE <= ud.y <= SCALE,
        -SCALE <= ud.z <= SCALE,
        -0x4_0000 <= n.x <= 0x4_0000,
        -0x4_0000 <= n.y <= 0x4_0000,
        -0x4_0000 <= n.z <= 0x4_0000,
    ensures
        r == spec_cos_theta(*ud, *n),
        0 <= r <= SCALE,
{
    let nu = ud.neg();
    let d = Vec3::dot(&nu, n);
    proof {
        crate::vec3::lemma_mul_bound(ud.x as int, n.x as int, 0x4_0000);
        crate::vec3::lemma_mul_bound(ud.y as int, n.y as int, 0x4_0000);
        crate::vec3::lemma_mul_bound(ud.z as int, n.z as int, 0x4_0000);
        crate::vec3::lemma_mul_bound(nu.x as int, n.x as int, 0x4_0000);
        crate::vec3::lemma_mul_bound(nu.y as int, n.y as int, 0x4_0000);
        crate::vec3::lemma_mul_bound(nu.z as int, n.z as int, 0x4_0000);
        assert((-(ud.x as int)) * (n.x as int) == -((ud.x as int) * (n.x as int))
            && (-(ud.y as int)) * (n.y as int) == -((ud.y as int) * (n.y as int))
            && (-(ud.z as int)) * (n.z as int) == -((ud.z as int) * (n.z as int)))
            by (nonlinear_arith);
        assert(d == -Vec3::spec_dot(*ud, *n));
    }
    let c0 = crate::fixed::div_floor(d, 65536);
    if c0 > SCALE as i128 {
        SCALE
    } else if c0 < 0 {
        0
    } else {
        c0 as i64
    }
}

/// Snell refraction of a unit direction about a normal.
fn refract(ud: &Vec3, n: &Vec3, ratio: i64) -> (r: Vec3)
    requires
        -SCALE <= ud.x <= SCALE,
        -SCALE <= ud.y <= SCALE,
        -SCALE <= ud.z <= SCALE,
        -0x4_0000 <= n.x <= 0x4_0000,
        -0x4_0000 <= n.y <= 0x4_0000,
        -0x4_0000 <= n.z <= 0x4_0000,
        0 <= ratio <= 0x10_0000,
    ensures
        r == spec_refract(*ud, *n, ratio as int),
        -0x60_0000 <= r.x <= 0x60_0000,
        -0x60_0000 <= r.y <= 0x60_0000,
        -0x60_0000 <= r.z <= 0x60_0000,
{
    let ct = cos_theta(ud, n);
    proof {
        crate::fixed::lemma_fmul_le(n.x as int, ct as int, 0x4_0000);
        crate::fixed::lemma_fmul_le(n.y as int, ct as int, 0x4_0000);
        crate::fixed::lemma_fmul_le(n.z as int, ct as int, 0x4_0000);
    }
    let ex = ud.x + mul_fx(ct, n.x);
    let ey = ud.y + mul_fx(ct, n.y);
    let ez = ud.z + mul_fx(ct, n.z);
    proof {
        crate::fixed::lemma_fmul_range(ratio as int, ex as int, 0x10_0000, 0x5_0001, 0x50_0010);
        crate::fixed::lemma_fmul_range(ratio as int, ey as int, 0x10_0000, 0x5_0001, 0x50_0010);
        crate::fixed::lemma_fmul_range(ratio as int, ez as int, 0x10_0000, 0x5_0001, 0x50_0010);
    }
    let px = mul_fx(ratio, ex);
    let py = mul_fx(ratio, ey);
    let pz = mul_fx(ratio, ez);
    proof {
        crate::vec3::lemma_mul_bound(px as int, px as int, 0x50_0011);
        crate::vec3::lemma_mul_bound(py as int, py as int, 0x50_0011);
        crate::vec3::lemma_mul_bound(pz as int, pz as int, 0x50_0011);
    }
    let l2: i128 = (px as i128) * (px as i128) + (py as i128) * (py as i128) + (pz as i128) * (pz
        as i128);
    let k: i128 = 4294967296 - l2;
    proof {
        assert(0 <= l2) by (nonlinear_arith)
            requires
                l2 == (px as i128) * (px as i128) + (py as i128) * (py as i128) + (pz as i128) * (
                pz as i128),
        ;
    }
    let par: i64 = if k >= 0 {
        let s = isqrt(k as u128);
        proof {
            assert(k as u128 == k);
            assert(s * s <= k);
            assert(s <= 65536u128) by (nonlinear_arith)
                requires
                    s * s <= (k as u128),
                    (k as u128) <= 4294967296u128,
            ;
        }
        s as i64
    } else {
        0
    };
    proof {
        crate::fixed::lemma_fmul_le(n.x as int, par as int, 0x4_0000);
        crate::fixed::lemma_fmul_le(n.y as int, par as int, 0x4_0000);
        crate::fixed::lemma_fmul_le(n.z as int, par as int, 0x4_0000);
    }
    Vec3 { x: px - mul_fx(par, n.x), y: py - mul_fx(par, n.y), z: pz - mul_fx(par, n.z) }
}

/// Schlick's reflectance, exactly as specified.
fn reflectance(ct: i64, ratio: i64) -> (r: i64)
    requires
        0 <= ct <= SCALE,
        0 <= ratio <= 0x10_0000,
    ensures
        r == spec_reflectance(ct as int, ratio as int),
{
    let a = div_fx(SCALE - ratio, SCALE + ratio);
    proof {
        vstd::arithmetic::div_mod::lemma_fundamental_div_mod(
            (65536 - ratio) * 65536,
            65536 + ratio as int,
        );
        assert(-0x10_0000 <= a <= 0x10_0000) by (nonlinear_arith)
            requires
                0 <= ratio <= 0x10_0000,
                (65536 - ratio) * 65536 == (65536 + ratio as int) * a + ((65536 - ratio) * 65536)
                    % (65536 + ratio as int),
                0 <= ((65536 - ratio) * 65536) % (65536 + ratio as int) < 65536 + ratio,
        ;
    }
    let r0 = mul_fx(a, a);
    proof {
        crate::fixed::lemma_fmul_range(a as int, a as int, 0x10_0000, 0x10_0000, 0x100_0000);
    }
    let omc = SCALE - ct;
    let p2 = mul_fx(omc, omc);
    proof {
        crate::fixed::lemma_fmul_le(omc as int, omc as int, 65536);
        assert(fx_ok(p2 as int));
    }
    let p4 = mul_fx(p2, p2);
    proof {
        crate::fixed::lemma_fmul_le(p2 as int, p2 as int, 65536);
    }
    let p5 = mul_fx(p4, omc);
    proof {
        crate::fixed::lemma_fmul_le(p4 as int, omc as int, 65536);
    }
    r0 + mul_fx(SCALE - r0, p5)
}

} // verus!
