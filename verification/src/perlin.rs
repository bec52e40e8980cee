//! Gradient noise: permutation tables, lattice hashing and smoothed
//! trilinear interpolation, all in fixed point.

use vstd::prelude::*;
use crate::fixed::{div_floor, fmul, SCALE};
use crate::vec3::{Vec3, Point3};
use crate::rng;

verus! {

/// Entries per permutation table.
pub const POINT_COUNT: usize = 256;

pub struct Perlin {
    pub ranvec: Vec<Vec3>,
    pub perm_x: Vec<u8>,
    pub perm_y: Vec<u8>,
    pub perm_z: Vec<u8>,
}

/// Every value below 256 occurs somewhere: with 256 entries this
/// makes the table a permutation.
pub open spec fn is_perm_table(s: Seq<u8>) -> bool {
    s.len() == 256 && forall|v: int| 0 <= v < 256 ==> #[trigger] s.contains(v as u8)
}

/// Gradient vectors stay within one unit scale per component.
pub open spec fn gradients_ok(s: Seq<Vec3>) -> bool {
    s.len() == 256 && forall|i: int|
        0 <= i < 256 ==> (#[trigger] s[i]).ok() && -(SCALE as int) <= s[i].x <= SCALE && -(
        SCALE as int) <= s[i].y <= SCALE && -(SCALE as int) <= s[i].z <= SCALE
}

impl Perlin {
    pub open spec fn wf(self) -> bool {
        is_perm_table(self.perm_x@) && is_perm_table(self.perm_y@) && is_perm_table(self.perm_z@)
            && gradients_ok(self.ranvec@)
    }

    /// Fisher–Yates over the first `n` entries: swaps never lose a
    /// value, so a permutation input stays a permutation, and the
    /// entries at and beyond `n` are untouched.
    pub fn permute(p: &mut Vec<u8>, n: usize)
        requires
            old(p)@.len() == 256,
            n <= 256,
        ensures
            final(p)@.len() == 256,
            forall|j: int| n <= j < 256 ==> final(p)@[j] == old(p)@[j],
            is_perm_table(old(p)@) ==> is_perm_table(final(p)@),
    {
        let mut i: usize = if n == 0 {
            0
        } else {
            n - 1
        };
        while i >= 1
            invariant
                p@.len() == 256,
                i <= 255,
                n == 0 ==> i == 0,
                n >= 1 ==> i <= n - 1,
                forall|j: int| n <= j < 256 ==> p@[j] == old(p)@[j],
                is_perm_table(old(p)@) ==> is_perm_table(p@),
            decreases i,
        {
            let target = rng::random_int_between(0, i as i32) as usize;
            let ghost before = p@;
            let pi = p[i];
            let pt = p[target];
            p.set(i, pt);
            p.set(target, pi);
            proof {
                if is_perm_table(old(p)@) {
                    assert forall|v: int| 0 <= v < 256 implies #[trigger] p@.contains(v as u8) by {
                        assert(before.contains(v as u8));
                        let j = choose|j: int| 0 <= j < before.len() && before[j] == v as u8;
                        if j == i as int {
                            assert(p@[target as int] == v as u8);
                        } else if j == target as int {
                            assert(p@[i as int] == v as u8);
                        } else {
                            assert(p@[j] == v as u8);
                        }
                    }
                }
            }
            i = i - 1;
        }
    }

    /// A fresh permutation of `0..256`.
    pub fn perlin_generate_perm() -> (p: Vec<u8>)
        ensures
            is_perm_table(p@),
    {
        let mut p: Vec<u8> = Vec::new();
        let mut i: usize = 0;
        while i < 256
            invariant
                i <= 256,
                p@.len() == i,
                forall|j: int| 0 <= j < i ==> p@[j] == j as u8,
            decreases 256 - i,
        {
            p.push(i as u8);
            i = i + 1;
        }
        proof {
            assert forall|v: int| 0 <= v < 256 implies #[trigger] p@.contains(v as u8) by {
                assert(p@[v] == v as u8);
            }
        }
        Perlin::permute(&mut p, 256);
        p
    }

    /// Fresh tables and 256 random near-unit gradients.
    pub fn default_new() -> (r: Perlin)
        ensures
            r.wf(),
    {
        let mut ranvec: Vec<Vec3> = Vec::new();
        let mut i: usize = 0;
        while i < 256
            invariant
                i <= 256,
                ranvec@.len() == i,
                forall|j: int|
                    0 <= j < i ==> (#[trigger] ranvec@[j]).ok() && -(SCALE as int) <= ranvec@[j].x
                        <= SCALE && -(SCALE as int) <= ranvec@[j].y <= SCALE && -(SCALE as int)
                        <= ranvec@[j].z <= SCALE,
            decreases 256 - i,
        {
            ranvec.push(Vec3::random_unit_vector());
            i = i + 1;
        }
        Perlin {
            ranvec,
            perm_x: Perlin::perlin_generate_perm(),
            perm_y: Perlin::perlin_generate_perm(),
            perm_z: Perlin::perlin_generate_perm(),
        }
    }

    pub fn copy(&self) -> (r: Perlin)
        ensures
            r.ranvec@ == self.ranvec@,
            r.perm_x@ == self.perm_x@,
            r.perm_y@ == self.perm_y@,
            r.perm_z@ == self.perm_z@,
            self.wf() ==> r.wf(),
    {
        let mut ranvec: Vec<Vec3> = Vec::new();
        let mut i: usize = 0;
        while i < self.ranvec.len()
            invariant
                i <= self.ranvec@.len(),
                ranvec@ == self.ranvec@.subrange(0, i as int),
            decreases self.ranvec@.len() - i,
        {
            ranvec.push(self.ranvec[i].copy());
            proof {
                assert(ranvec@ =~= self.ranvec@.subrange(0, i + 1));
            }
            i = i + 1;
        }
        let mut px: Vec<u8> = Vec::new();
        let mut i: usize = 0;
        while i < self.perm_x.len()
            invariant
                i <= self.perm_x@.len(),
                px@ == self.perm_x@.subrange(0, i as int),
            decreases self.perm_x@.len() - i,
        {
            px.push(self.perm_x[i]);
            proof {
                assert(px@ =~= self.perm_x@.subrange(0, i + 1));
            }
            i = i + 1;
        }
        let mut py: Vec<u8> = Vec::new();
        let mut i: usize = 0;
        while i < self.perm_y.len()
            invariant
                i <= self.perm_y@.len(),
                py@ == self.perm_y@.subrange(0, i as int),
            decreases self.perm_y@.len() - i,
        {
            py.push(self.perm_y[i]);
            proof {
                assert(py@ =~= self.perm_y@.subrange(0, i + 1));
            }
            i = i + 1;
        }
        let mut pz: Vec<u8> = Vec::new();
        let mut i: usize = 0;
        while i < self.perm_z.len()
            invariant
                i <= self.perm_z@.len(),
                pz@ == self.perm_z@.subrange(0, i as int),
            decreases self.perm_z@.len() - i,
        {
            pz.push(self.perm_z[i]);
            proof {
                assert(pz@ =~= self.perm_z@.subrange(0, i + 1));
            }
            i = i + 1;
        }
        proof {
            assert(ranvec@ =~= self.ranvec@);
            assert(px@ =~= self.perm_x@);
            assert(py@ =~= self.perm_y@);
            assert(pz@ =~= self.perm_z@);
        }
        Perlin { ranvec, perm_x: px, perm_y: py, perm_z: pz }
    }

    /// The euclidean remainder of `x` by 256.
    pub open spec fn spec_wrap(x: int) -> int {
        x - 256 * (x / 256)
    }

    /// The gradient chosen for one lattice corner.
    pub open spec fn spec_corner(self, i: int, j: int, k: int) -> Vec3 {
        self.ranvec@[(self.perm_x@[Self::spec_wrap(i)] ^ self.perm_y@[Self::spec_wrap(j)]
            ^ self.perm_z@[Self::spec_wrap(k)]) as int]
    }

    /// The Hermite fade of a fractional offset.
    pub open spec fn spec_fade(u: int) -> int {
        (u * u * (3 * (SCALE as int) - 2 * u)) / ((SCALE as int) * (SCALE as int))
    }

    /// One corner's contribution before the final rescale: the
    /// faded weights along each axis times the gradient dot the
    /// offset vector.
    pub open spec fn spec_corner_term(self, i: int, j: int, k: int, di: int, dj: int, dk: int, u: int, v: int, w: int) -> int {
        let g = self.spec_corner(i + di, j + dj, k + dk);
        let uu = Self::spec_fade(u);
        let vv = Self::spec_fade(v);
        let ww = Self::spec_fade(w);
        let fu = if di == 1 { uu } else { (SCALE as int) - uu };
        let fv = if dj == 1 { vv } else { (SCALE as int) - vv };
        let fw = if dk == 1 { ww } else { (SCALE as int) - ww };
        let dot = g.x * (u - di * (SCALE as int)) + g.y * (v - dj * (SCALE as int)) + g.z * (w
            - dk * (SCALE as int));
        (fu * fv * fw / ((SCALE as int) * (SCALE as int))) * dot / ((SCALE as int) * (SCALE as int))
    }

    /// The clamped sum of the eight corner corner terms.
    pub open spec fn spec_noise(self, p: Vec3) -> int {
        let i = p.x as int / (SCALE as int);
        let j = p.y as int / (SCALE as int);
        let k = p.z as int / (SCALE as int);
        let u = p.x - (SCALE as int) * i;
        let v = p.y - (SCALE as int) * j;
        let w = p.z - (SCALE as int) * k;
        let total = self.spec_corner_term(i, j, k, 0, 0, 0, u, v, w) + self.spec_corner_term(
            i,
            j,
            k,
            0,
            0,
            1,
            u,
            v,
            w,
        ) + self.spec_corner_term(i, j, k, 0, 1, 0, u, v, w) + self.spec_corner_term(
            i,
            j,
            k,
            0,
            1,
            1,
            u,
            v,
            w,
        ) + self.spec_corner_term(i, j, k, 1, 0, 0, u, v, w) + self.spec_corner_term(
            i,
            j,
            k,
            1,
            0,
            1,
            u,
            v,
            w,
        ) + self.spec_corner_term(i, j, k, 1, 1, 0, u, v, w) + self.spec_corner_term(
            i,
            j,
            k,
            1,
            1,
            1,
            u,
            v,
            w,
        );
        if total > 2 * (SCALE as int) {
            2 * (SCALE as int)
        } else if total < -2 * (SCALE as int) {
            -2 * (SCALE as int)
        } else {
            total
        }
    }

    /// Smoothed gradient noise at a point.
    pub fn noise(&self, p: &Point3) -> (r: i64)
        requires
            self.wf(),
            -0x1_0000_0000_0000 <= p.x <= 0x1_0000_0000_0000,
            -0x1_0000_0000_0000 <= p.y <= 0x1_0000_0000_0000,
            -0x1_0000_0000_0000 <= p.z <= 0x1_0000_0000_0000,
        ensures
            r == self.spec_noise(*p),
            -2 * SCALE <= r <= 2 * SCALE,
    
    {
        let iw = div_floor(p.x as i128, 65536);
        let jw = div_floor(p.y as i128, 65536);
        let kw = div_floor(p.z as i128, 65536);
        proof {
            assert(-0x1_0000_0000 <= iw <= 0x1_0000_0000);
            assert(-0x1_0000_0000 <= jw <= 0x1_0000_0000);
            assert(-0x1_0000_0000 <= kw <= 0x1_0000_0000);
        }
        let i = iw as i64;
        let j = jw as i64;
        let k = kw as i64;
        let u = p.x - i * 65536;
        let v = p.y - j * 65536;
        let w = p.z - k * 65536;
        let mut total: i64 = 0;
        total = total + self.corner_term(i, j, k, 0, 0, 0, u, v, w);
        total = total + self.corner_term(i, j, k, 0, 0, 1, u, v, w);
        total = total + self.corner_term(i, j, k, 0, 1, 0, u, v, w);
        total = total + self.corner_term(i, j, k, 0, 1, 1, u, v, w);
        total = total + self.corner_term(i, j, k, 1, 0, 0, u, v, w);
        total = total + self.corner_term(i, j, k, 1, 0, 1, u, v, w);
        total = total + self.corner_term(i, j, k, 1, 1, 0, u, v, w);
        total = total + self.corner_term(i, j, k, 1, 1, 1, u, v, w);
        if total > 2 * SCALE {
            2 * SCALE
        } else if total < -2 * SCALE {
            -2 * SCALE
        } else {
            total
        }
    }

    /// One corner's contribution.
    fn corner_term(&self, i: i64, j: i64, k: i64, di: i64, dj: i64, dk: i64, u: i64, v: i64, w: i64) -> (r: i64)
        requires
            self.wf(),
            di == 0 || di == 1,
            dj == 0 || dj == 1,
            dk == 0 || dk == 1,
            0 <= u < SCALE,
            0 <= v < SCALE,
            0 <= w < SCALE,
            -0x2_0000_0000 <= i <= 0x2_0000_0000,
            -0x2_0000_0000 <= j <= 0x2_0000_0000,
            -0x2_0000_0000 <= k <= 0x2_0000_0000,
        ensures
            r == self.spec_corner_term(i as int, j as int, k as int, di as int, dj as int, dk as int, u as int, v as int, w as int),
            -196609 <= r <= 196609,
    {
        let gi = self.wrap(i + di);
        let gj = self.wrap(j + dj);
        let gk = self.wrap(k + dk);
        let h = (self.perm_x[gi] ^ self.perm_y[gj] ^ self.perm_z[gk]) as usize;
        proof {
            assert(self.ranvec@.len() == 256);
        }
        let g = &self.ranvec[h];
        let uu = Self::fade(u);
        let vv = Self::fade(v);
        let ww = Self::fade(w);
        let fu: i64 = if di == 1 {
            uu
        } else {
            SCALE - uu
        };
        let fv: i64 = if dj == 1 {
            vv
        } else {
            SCALE - vv
        };
        let fw: i64 = if dk == 1 {
            ww
        } else {
            SCALE - ww
        };
        let ou = u - di * SCALE;
        let ov = v - dj * SCALE;
        let ow = w - dk * SCALE;
        proof {
            crate::vec3::lemma_mul_bound(g.x as int, ou as int, 65536);
            crate::vec3::lemma_mul_bound(g.y as int, ov as int, 65536);
            crate::vec3::lemma_mul_bound(g.z as int, ow as int, 65536);
            crate::vec3::lemma_mul_bound(fu as int, fv as int, 65536);
        }
        let dot: i128 = (g.x as i128) * (ou as i128) + (g.y as i128) * (ov as i128) + (g.z
            as i128) * (ow as i128);
        let p2: i128 = (fu as i128) * (fv as i128);
        proof {
            crate::vec3::lemma_mul_bound(p2 as int, fw as int, 0x1_0000_0000i128 as int);
        }
        let p3: i128 = p2 * (fw as i128);
        let q3 = div_floor(p3, 4294967296);
        proof {
            assert(0 <= q3 <= 65536 && 0 <= p3) by (nonlinear_arith)
                requires
                    0 <= fu as i128 <= 65536,
                    0 <= fv as i128 <= 65536,
                    0 <= fw as i128 <= 65536,
                    p2 == (fu as i128) * (fv as i128),
                    p3 == p2 * (fw as i128),
                    4294967296 * q3 <= p3 < 4294967296 * (q3 + 1),
            ;
            crate::vec3::lemma_mul_bound(q3 as int, dot as int, 0xC_0000_0000i128 as int);
        }
        let prod = q3 * dot;
        let r = div_floor(prod, 4294967296);
        proof {
            assert(-196609 <= r <= 196609) by (nonlinear_arith)
                requires
                    0 <= q3 <= 65536,
                    -12884901888 <= dot <= 12884901888,
                    prod == q3 * dot,
                    4294967296 * r <= prod < 4294967296 * (r + 1),
            ;
        }
        r as i64
    }

    /// The Hermite fade, exactly as specified.
    fn fade(u: i64) -> (r: i64)
        requires
            0 <= u < SCALE,
        ensures
            r == Self::spec_fade(u as int),
            0 <= r <= SCALE,
    {
        proof {
            crate::vec3::lemma_mul_bound(u as int, u as int, 65536);
            crate::vec3::lemma_mul_bound(u as int * u as int, 3 * 65536 - 2 * (u as int),
                0x1_0000_0000i128 as int);
        }
        let num: i128 = (u as i128) * (u as i128) * (3 * 65536 - 2 * (u as i128));
        let r = div_floor(num, 4294967296);
        proof {
            let ui = u as int;
            assert(0 <= num && num <= 281474976710656) by (nonlinear_arith)
                requires
                    0 <= ui < 65536,
                    num == ui * ui * (3 * 65536 - 2 * ui),
            ;
            assert(0 <= r <= 65536) by (nonlinear_arith)
                requires
                    0 <= num <= 281474976710656,
                    4294967296 * r <= num < 4294967296 * (r + 1),
            ;
        }
        r as i64
    }

    /// Euclidean wrap into `[0, 256)`.
    fn wrap(&self, x: i64) -> (r: usize)
        requires
            -0x4_0000_0000 <= x <= 0x4_0000_0000,
        ensures
            r == Self::spec_wrap(x as int),
            r < 256,
    {
        let q = div_floor(x as i128, 256);
        let m = (x as i128) - 256 * q;
        m as usize
    }

    /// A coordinate doubled and clamped back into range.
    pub open spec fn spec_double(x: int) -> int {
        if 2 * x > 0x80_0000_0000 {
            0x80_0000_0000
        } else if 2 * x < -0x80_0000_0000 {
            -0x80_0000_0000
        } else {
            2 * x
        }
    }

    /// Octaves of noise at doubling (clamped) frequencies and
    /// halving weights.
    pub open spec fn spec_turb(self, p: Vec3, depth: int) -> int
        decreases depth,
    {
        if depth <= 0 {
            0
        } else {
            let rest = self.spec_turb(
                Vec3 {
                    x: Self::spec_double(p.x as int) as i64,
                    y: Self::spec_double(p.y as int) as i64,
                    z: Self::spec_double(p.z as int) as i64,
                },
                depth - 1,
            );
            self.spec_noise(p) + rest / 2
        }
    }

    /// Perlins with equal tables agree on every noise value.
    pub proof fn lemma_noise_cong(a: Perlin, b: Perlin, p: Vec3)
        requires
            a.ranvec@ == b.ranvec@,
            a.perm_x@ == b.perm_x@,
            a.perm_y@ == b.perm_y@,
            a.perm_z@ == b.perm_z@,
        ensures
            a.spec_noise(p) == b.spec_noise(p),
    {
        let i = p.x as int / (SCALE as int);
        let j = p.y as int / (SCALE as int);
        let k = p.z as int / (SCALE as int);
        let u = p.x - (SCALE as int) * i;
        let v = p.y - (SCALE as int) * j;
        let w = p.z - (SCALE as int) * k;
        assert forall|di: int, dj: int, dk: int|
            0 <= di <= 1 && 0 <= dj <= 1 && 0 <= dk <= 1 implies #[trigger] a.spec_corner_term(
            i,
            j,
            k,
            di,
            dj,
            dk,
            u,
            v,
            w,
        ) == b.spec_corner_term(i, j, k, di, dj, dk, u, v, w) by {
            assert(a.spec_corner(i + di, j + dj, k + dk) == b.spec_corner(i + di, j + dj, k + dk));
        }
        assert(a.spec_corner_term(i, j, k, 0, 0, 0, u, v, w) == b.spec_corner_term(
            i, j, k, 0, 0, 0, u, v, w));
        assert(a.spec_corner_term(i, j, k, 0, 0, 1, u, v, w) == b.spec_corner_term(
            i, j, k, 0, 0, 1, u, v, w));
        assert(a.spec_corner_term(i, j, k, 0, 1, 0, u, v, w) == b.spec_corner_term(
            i, j, k, 0, 1, 0, u, v, w));
        assert(a.spec_corner_term(i, j, k, 0, 1, 1, u, v, w) == b.spec_corner_term(
            i, j, k, 0, 1, 1, u, v, w));
        assert(a.spec_corner_term(i, j, k, 1, 0, 0, u, v, w) == b.spec_corner_term(
            i, j, k, 1, 0, 0, u, v, w));
        assert(a.spec_corner_term(i, j, k, 1, 0, 1, u, v, w) == b.spec_corner_term(
            i, j, k, 1, 0, 1, u, v, w));
        assert(a.spec_corner_term(i, j, k, 1, 1, 0, u, v, w) == b.spec_corner_term(
            i, j, k, 1, 1, 0, u, v, w));
        assert(a.spec_corner_term(i, j, k, 1, 1, 1, u, v, w) == b.spec_corner_term(
            i, j, k, 1, 1, 1, u, v, w));
    }

    /// Perlins with equal tables agree on every turbulence value.
    pub proof fn lemma_turb_cong(a: Perlin, b: Perlin, p: Vec3, depth: int)
        requires
            a.ranvec@ == b.ranvec@,
            a.perm_x@ == b.perm_x@,
            a.perm_y@ == b.perm_y@,
            a.perm_z@ == b.perm_z@,
        ensures
            a.spec_turb(p, depth) == b.spec_turb(p, depth),
        decreases depth,
    {
        if depth > 0 {
            let p2 = Vec3 {
                x: Self::spec_double(p.x as int) as i64,
                y: Self::spec_double(p.y as int) as i64,
                z: Self::spec_double(p.z as int) as i64,
            };
            Self::lemma_turb_cong(a, b, p2, depth - 1);
            Self::lemma_noise_cong(a, b, p);
        }
    }

    /// Turbulence: the absolute value of the octave sum.
    pub fn turb(&self, p: &Point3, depth: i32) -> (r: i64)
        requires
            self.wf(),
            0 <= depth <= 7,
            -0x80_0000_0000 <= p.x <= 0x80_0000_0000,
            -0x80_0000_0000 <= p.y <= 0x80_0000_0000,
            -0x80_0000_0000 <= p.z <= 0x80_0000_0000,
        ensures
            r == (if self.spec_turb(*p, depth as int) >= 0 {
                self.spec_turb(*p, depth as int)
            } else {
                -self.spec_turb(*p, depth as int)
            }),
            0 <= r <= 4 * SCALE,
    {
        let s = self.turb_signed(p, depth);
        if s >= 0 {
            s
        } else {
            -s
        }
    }

    /// The signed octave sum.
    fn turb_signed(&self, p: &Point3, depth: i32) -> (r: i64)
        requires
            self.wf(),
            0 <= depth <= 7,
            -0x80_0000_0000 <= p.x <= 0x80_0000_0000,
            -0x80_0000_0000 <= p.y <= 0x80_0000_0000,
            -0x80_0000_0000 <= p.z <= 0x80_0000_0000,
        ensures
            r == self.spec_turb(*p, depth as int),
            -4 * SCALE <= r <= 4 * SCALE,
        decreases depth,
    {
        if depth <= 0 {
            0
        } else {
            let p2 = Vec3 { x: double_clamped(p.x), y: double_clamped(p.y), z: double_clamped(p.z) };
            let rest = self.turb_signed(&p2, depth - 1);
            let n = self.noise(p);
            let half = div_floor(rest as i128, 2) as i64;
            n + half
        }
    }
}

/// Doubles a coordinate, clamping it into the turbulence range.
fn double_clamped(x: i64) -> (r: i64)
    requires
        -0x80_0000_0000 <= x <= 0x80_0000_0000,
    ensures
        r == Perlin::spec_double(x as int),
        -0x80_0000_0000 <= r <= 0x80_0000_0000,
{
    if x > 0x40_0000_0000 {
        0x80_0000_0000
    } else if x < -0x40_0000_0000 {
        -0x80_0000_0000
    } else {
        2 * x
    }
}

} // verus!
