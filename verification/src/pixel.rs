//! HDR pixel accumulators and their conversion to the discrete output
//! range: averaging, clamping, gamma-2 correction and 8-bit quantization.

use vstd::prelude::*;
use crate::fixed::{
    SCALE, fmul, fsqrt, fp_mul, fp_sqrt, lemma_fmul_le_one, lemma_fmul_comm, lemma_div_upper,
    lemma_sqrt_floor_mono, lemma_sqrt_floor_unique,
};
use crate::vec3::{Vec3, bounded, DOT_ARG_MAX, nsq_spec, unit_spec, sub_spec, v3};
use crate::interval::{Interval, clamp_spec};
use crate::decimal::{dec_spec, dec_string};
use vstd::arithmetic::div_mod::lemma_div_multiples_vanish;

verus! {

#[derive(Clone, Copy, Debug, PartialEq, Eq, Structural)]
pub struct Pixel {
    pub r: i64,
    pub g: i64,
    pub b: i64,
}

/// A channel inside the displayable range `[0, 1]`.
pub open spec fn chan01(c: int) -> bool {
    0 <= c <= SCALE as int
}

pub open spec fn pixel01(p: Pixel) -> bool {
    chan01(p.r as int) && chan01(p.g as int) && chan01(p.b as int)
}

pub open spec fn clamp01_spec(c: int) -> int {
    clamp_spec(Interval { lb: 0, ub: SCALE }, c)
}

/// The sky gradient: a blend from white toward sky blue by the height of
/// the ray direction, the blend factor clamped into `[0, 1]`.
pub open spec fn miss_alpha_spec(d: Vec3) -> int {
    let uy = if nsq_spec(d) >= 1 {
        unit_spec(d).y as int
    } else {
        0
    };
    clamp_spec(Interval { lb: 0, ub: 131072 }, uy + SCALE as int) / 2
}

pub open spec fn from_miss_spec(d: Vec3) -> Pixel {
    let alpha = miss_alpha_spec(d);
    Pixel {
        r: (SCALE as int - alpha + fmul(alpha, 32768)) as i64,
        g: (SCALE as int - alpha + fmul(alpha, 45875)) as i64,
        b: (SCALE as int - alpha + fmul(alpha, SCALE as int)) as i64,
    }
}

pub open spec fn from_hit_spec(d: Vec3) -> Pixel {
    let v = sub_spec(d, v3(0, 0, -(SCALE as int)));
    let u = if nsq_spec(v) >= 1 {
        unit_spec(v)
    } else {
        v3(0, 0, 0)
    };
    Pixel {
        r: fmul(u.x + SCALE as int, 32768) as i64,
        g: fmul(u.y + SCALE as int, 32768) as i64,
        b: fmul(u.z + SCALE as int, 32768) as i64,
    }
}

pub open spec fn normalize_spec(p: Pixel, n: int) -> Pixel {
    Pixel {
        r: clamp01_spec(p.r as int / n) as i64,
        g: clamp01_spec(p.g as int / n) as i64,
        b: clamp01_spec(p.b as int / n) as i64,
    }
}

pub open spec fn add_px_spec(a: Pixel, b: Pixel) -> Pixel {
    Pixel { r: (a.r + b.r) as i64, g: (a.g + b.g) as i64, b: (a.b + b.b) as i64 }
}

pub open spec fn mul_px_spec(a: Pixel, b: Pixel) -> Pixel {
    Pixel {
        r: fmul(a.r as int, b.r as int) as i64,
        g: fmul(a.g as int, b.g as int) as i64,
        b: fmul(a.b as int, b.b as int) as i64,
    }
}

pub open spec fn scale_px_spec(k: int, p: Pixel) -> Pixel {
    Pixel {
        r: fmul(k, p.r as int) as i64,
        g: fmul(k, p.g as int) as i64,
        b: fmul(k, p.b as int) as i64,
    }
}

/// Quantization of a `[0, 1]` channel to `[0, 255]`, as `255.999 * c`
/// truncated.
pub open spec fn to_8bit_spec(c: int) -> int {
    fmul(c, 16777150) / (SCALE as int)
}

/// The quantized triple a pixel prints as, most significant digit first:
/// `"<r> <g> <b>"` after gamma-2 correction.
pub open spec fn line_spec(p: Pixel) -> Seq<char> {
    dec_spec(to_8bit_spec(fsqrt(p.r as int)) as nat) + seq![' ']
        + dec_spec(to_8bit_spec(fsqrt(p.g as int)) as nat) + seq![' ']
        + dec_spec(to_8bit_spec(fsqrt(p.b as int)) as nat)
}

impl Default for Pixel {
    /// Black, the zero of accumulation.
    fn default() -> (p: Pixel)
        ensures
            p == (Pixel { r: 0, g: 0, b: 0 }),
    {
        Pixel { r: 0, g: 0, b: 0 }
    }
}

impl Pixel {
    /// The background gradient for a ray that hit nothing.
    pub fn from_miss(direction: &Vec3) -> (p: Pixel)
        requires
            bounded(*direction, DOT_ARG_MAX as int),
        ensures
            p == from_miss_spec(*direction),
            pixel01(p),
    {
        let ns: i64 = direction.norm_squared();
        let uy: i64 = if ns >= 1 {
            direction.unit_vector().y
        } else {
            0
        };
        let clamped: i64 = Interval::new(0, 2 * SCALE).clamp(uy + SCALE);
        let alpha: i64 = ((clamped as u64) / 2) as i64;
        proof {
            lemma_fmul_le_one(alpha as int, 32768);
            lemma_fmul_le_one(alpha as int, 45875);
            lemma_fmul_le_one(alpha as int, SCALE as int);
        }
        Pixel {
            r: SCALE - alpha + fp_mul(alpha, 32768),
            g: SCALE - alpha + fp_mul(alpha, 45875),
            b: SCALE - alpha + fp_mul(alpha, SCALE),
        }
    }

    /// A normal-map shading of a hit on the unit sphere before the camera.
    pub fn from_hit(direction: &Vec3) -> (p: Pixel)
        requires
            bounded(*direction, 0x1000_0000),
        ensures
            p == from_hit_spec(*direction),
    {
        let v: Vec3 = direction.sub(Vec3::new(0, 0, -SCALE));
        let ns: i64 = v.norm_squared();
        let u: Vec3 = if ns >= 1 {
            v.unit_vector()
        } else {
            Vec3::new(0, 0, 0)
        };
        Pixel {
            r: fp_mul(u.x + SCALE, 32768),
            g: fp_mul(u.y + SCALE, 32768),
            b: fp_mul(u.z + SCALE, 32768),
        }
    }

    /// Average of `n` accumulated samples, clamped into `[0, 1]`.
    pub fn normalize(self, n: u32) -> (p: Pixel)
        requires
            n >= 1,
            self.r >= 0,
            self.g >= 0,
            self.b >= 0,
        ensures
            p == normalize_spec(self, n as int),
            pixel01(p),
    {
        let range = Interval::new(0, SCALE);
        Pixel {
            r: range.clamp(((self.r as u64) / (n as u64)) as i64),
            g: range.clamp(((self.g as u64) / (n as u64)) as i64),
            b: range.clamp(((self.b as u64) / (n as u64)) as i64),
        }
    }

    fn to_gamma2_repr(val: i64) -> (r: i64)
        requires
            0 <= val <= SCALE,
        ensures
            r == fsqrt(val as int),
            0 <= r <= SCALE,
    {
        let r: i64 = fp_sqrt(val);
        proof {
            assert(val as int * SCALE as int <= 4294967296) by (nonlinear_arith)
                requires
                    0 <= val <= 65536,
            ;
            assert(val as int * SCALE as int >= 0) by (nonlinear_arith)
                requires
                    0 <= val,
            ;
            lemma_sqrt_floor_mono((val as int * SCALE as int) as nat, 4294967296nat);
            assert((65536nat + 1) * (65536nat + 1) == 4295098369nat) by (nonlinear_arith);
            lemma_sqrt_floor_unique(4294967296nat, 65536nat);
        }
        r
    }

    fn to_8bit_repr(val: i64) -> (r: u32)
        requires
            0 <= val <= SCALE,
        ensures
            r == to_8bit_spec(val as int),
            r <= 255,
    {
        proof {
            lemma_fmul_comm(val as int, 16777150);
            lemma_fmul_le_one(16777150, val as int);
            lemma_div_upper(fmul(val as int, 16777150), SCALE as int, 255);
        }
        let m: i64 = fp_mul(val, 16777150);
        ((m as u64) / 65536) as u32
    }

    pub fn add(self, other: Pixel) -> (p: Pixel)
        requires
            i64::MIN <= self.r + other.r <= i64::MAX,
            i64::MIN <= self.g + other.g <= i64::MAX,
            i64::MIN <= self.b + other.b <= i64::MAX,
        ensures
            p == add_px_spec(self, other),
    {
        Pixel { r: self.r + other.r, g: self.g + other.g, b: self.b + other.b }
    }

    /// Channel-wise attenuation product.
    pub fn mul(self, other: Pixel) -> (p: Pixel)
        requires
            -0x7fff_ffff_ffff_ffff <= fmul(self.r as int, other.r as int) <= 0x7fff_ffff_ffff_ffff,
            -0x7fff_ffff_ffff_ffff <= fmul(self.g as int, other.g as int) <= 0x7fff_ffff_ffff_ffff,
            -0x7fff_ffff_ffff_ffff <= fmul(self.b as int, other.b as int) <= 0x7fff_ffff_ffff_ffff,
        ensures
            p == mul_px_spec(self, other),
    {
        Pixel {
            r: fp_mul(self.r, other.r),
            g: fp_mul(self.g, other.g),
            b: fp_mul(self.b, other.b),
        }
    }

    /// Scalar scaling of every channel.
    pub fn scale(self, k: i64) -> (p: Pixel)
        requires
            -0x7fff_ffff_ffff_ffff <= fmul(k as int, self.r as int) <= 0x7fff_ffff_ffff_ffff,
            -0x7fff_ffff_ffff_ffff <= fmul(k as int, self.g as int) <= 0x7fff_ffff_ffff_ffff,
            -0x7fff_ffff_ffff_ffff <= fmul(k as int, self.b as int) <= 0x7fff_ffff_ffff_ffff,
        ensures
            p == scale_px_spec(k as int, self),
    {
        Pixel { r: fp_mul(k, self.r), g: fp_mul(k, self.g), b: fp_mul(k, self.b) }
    }

    pub fn from(vec: &Vec3) -> (p: Pixel)
        ensures
            p == (Pixel { r: vec.x, g: vec.y, b: vec.z }),
    {
        Pixel { r: vec.x, g: vec.y, b: vec.z }
    }

    /// The output line for this pixel: gamma-corrected, quantized,
    /// space-separated decimal channels.
    pub fn to_string(&self) -> (s: String)
        requires
            pixel01(*self),
        ensures
            s@ == line_spec(*self),
    {
        proof {
            reveal_strlit(" ");
        }
        let r8: u32 = Pixel::to_8bit_repr(Pixel::to_gamma2_repr(self.r));
        let g8: u32 = Pixel::to_8bit_repr(Pixel::to_gamma2_repr(self.g));
        let b8: u32 = Pixel::to_8bit_repr(Pixel::to_gamma2_repr(self.b));
        let mut s = dec_string(r8);
        s.append(" ");
        let gs = dec_string(g8);
        s.append(gs.as_str());
        s.append(" ");
        let bs = dec_string(b8);
        s.append(bs.as_str());
        proof {
            assert(" "@ =~= seq![' ']);
            assert(s@ =~= line_spec(*self));
        }
        s
    }
}

/// Averaging a channel that holds `n` copies of one sample gives back
/// that sample exactly: the accumulation is idempotent under sample-count
/// scaling.
pub proof fn lemma_average_identical(c: int, n: int)
    requires
        1 <= n,
        chan01(c),
    ensures
        clamp01_spec((n * c) / n) == c,
{
    lemma_div_multiples_vanish(c, n);
}

/// The same, stated over whole pixels: an accumulator holding `n`
/// copies of one displayable sample normalizes back to that sample.
pub proof fn lemma_average_identical_pixel(p: Pixel, n: int)
    requires
        1 <= n <= 4096,
        pixel01(p),
    ensures
        normalize_spec(
            Pixel { r: (n * p.r) as i64, g: (n * p.g) as i64, b: (n * p.b) as i64 },
            n,
        ) == p,
{
    assert(0 <= n * p.r <= 268435456 && 0 <= n * p.g <= 268435456 && 0 <= n * p.b
        <= 268435456) by (nonlinear_arith)
        requires
            1 <= n <= 4096,
            0 <= p.r <= 65536,
            0 <= p.g <= 65536,
            0 <= p.b <= 65536,
    ;
    lemma_average_identical(p.r as int, n);
    lemma_average_identical(p.g as int, n);
    lemma_average_identical(p.b as int, n);
}

} // verus!
