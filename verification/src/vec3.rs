//! Three-component vectors over the fixed-point scalar.

use vstd::prelude::*;
use crate::fixed::{
    SCALE, iabs, fmul, fdiv, fsqrt, fp_mul, fp_div, fp_sqrt, lemma_fmul_sign, lemma_fmul_bound,
    lemma_fmul_le_one, lemma_fmul_comm, lemma_unit_comp_bound, lemma_unit_comp_nonzero,
};
use crate::rng::rng_next_u16;
use vstd::arithmetic::div_mod::lemma_fundamental_div_mod;

verus! {

/// Largest component magnitude the product operations admit.
pub const DOT_ARG_MAX: i64 = 0x40_0000_0000;

/// Bound on the components of a normalised vector: `SCALE` plus rounding slack.
pub const UNIT_MAX: i64 = 131072;

#[derive(Clone, Copy, Debug, PartialEq, Eq, Structural)]
pub struct Vec3 {
    pub x: i64,
    pub y: i64,
    pub z: i64,
}

pub open spec fn bounded(v: Vec3, m: int) -> bool {
    iabs(v.x as int) <= m && iabs(v.y as int) <= m && iabs(v.z as int) <= m
}

pub open spec fn v3(x: int, y: int, z: int) -> Vec3 {
    Vec3 { x: x as i64, y: y as i64, z: z as i64 }
}

pub open spec fn add_spec(a: Vec3, b: Vec3) -> Vec3 {
    v3(a.x + b.x, a.y + b.y, a.z + b.z)
}

pub open spec fn sub_spec(a: Vec3, b: Vec3) -> Vec3 {
    v3(a.x - b.x, a.y - b.y, a.z - b.z)
}

pub open spec fn neg_spec(a: Vec3) -> Vec3 {
    v3(-(a.x as int), -(a.y as int), -(a.z as int))
}

pub open spec fn scale_spec(k: int, a: Vec3) -> Vec3 {
    v3(fmul(k, a.x as int), fmul(k, a.y as int), fmul(k, a.z as int))
}

pub open spec fn dot_spec(a: Vec3, b: Vec3) -> int {
    fmul(a.x as int, b.x as int) + fmul(a.y as int, b.y as int) + fmul(a.z as int, b.z as int)
}

pub open spec fn nsq_spec(a: Vec3) -> int {
    dot_spec(a, a)
}

pub open spec fn cross_spec(a: Vec3, b: Vec3) -> Vec3 {
    v3(
        fmul(a.y as int, b.z as int) - fmul(a.z as int, b.y as int),
        fmul(a.z as int, b.x as int) - fmul(a.x as int, b.z as int),
        fmul(a.x as int, b.y as int) - fmul(a.y as int, b.x as int),
    )
}

pub open spec fn unit_spec(a: Vec3) -> Vec3 {
    v3(
        fdiv(a.x as int, fsqrt(nsq_spec(a))),
        fdiv(a.y as int, fsqrt(nsq_spec(a))),
        fdiv(a.z as int, fsqrt(nsq_spec(a))),
    )
}

/// The degenerate-direction test: at this resolution a vector is "near
/// zero" exactly when every component underflows to zero.
pub open spec fn near_zero_spec(a: Vec3) -> bool {
    a.x == 0 && a.y == 0 && a.z == 0
}

/// A normalised direction: bounded components, not all zero.
pub open spec fn unit_like(a: Vec3) -> bool {
    bounded(a, UNIT_MAX as int) && !near_zero_spec(a)
}

impl Vec3 {
    pub fn new(x: i64, y: i64, z: i64) -> (r: Vec3)
        ensures
            r == (Vec3 { x, y, z }),
    {
        Vec3 { x, y, z }
    }

    pub fn add(self, o: Vec3) -> (r: Vec3)
        requires
            i64::MIN <= self.x + o.x <= i64::MAX,
            i64::MIN <= self.y + o.y <= i64::MAX,
            i64::MIN <= self.z + o.z <= i64::MAX,
        ensures
            r == add_spec(self, o),
    {
        Vec3 { x: self.x + o.x, y: self.y + o.y, z: self.z + o.z }
    }

    pub fn sub(self, o: Vec3) -> (r: Vec3)
        requires
            i64::MIN <= self.x - o.x <= i64::MAX,
            i64::MIN <= self.y - o.y <= i64::MAX,
            i64::MIN <= self.z - o.z <= i64::MAX,
        ensures
            r == sub_spec(self, o),
    {
        Vec3 { x: self.x - o.x, y: self.y - o.y, z: self.z - o.z }
    }

    pub fn neg(self) -> (r: Vec3)
        requires
            iabs(self.x as int) <= i64::MAX,
            iabs(self.y as int) <= i64::MAX,
            iabs(self.z as int) <= i64::MAX,
        ensures
            r == neg_spec(self),
    {
        Vec3 { x: -self.x, y: -self.y, z: -self.z }
    }

    /// Scalar multiplication by a fixed-point factor.
    pub fn scale(self, k: i64) -> (r: Vec3)
        requires
            -0x7fff_ffff_ffff_ffff <= fmul(k as int, self.x as int) <= 0x7fff_ffff_ffff_ffff,
            -0x7fff_ffff_ffff_ffff <= fmul(k as int, self.y as int) <= 0x7fff_ffff_ffff_ffff,
            -0x7fff_ffff_ffff_ffff <= fmul(k as int, self.z as int) <= 0x7fff_ffff_ffff_ffff,
        ensures
            r == scale_spec(k as int, self),
    {
        Vec3 { x: fp_mul(k, self.x), y: fp_mul(k, self.y), z: fp_mul(k, self.z) }
    }

    pub fn dot(&self, o: &Vec3) -> (r: i64)
        requires
            bounded(*self, DOT_ARG_MAX as int),
            bounded(*o, DOT_ARG_MAX as int),
        ensures
            r == dot_spec(*self, *o),
    {
        proof {
            lemma_fmul_bound(self.x as int, o.x as int, DOT_ARG_MAX as int, DOT_ARG_MAX as int);
            lemma_fmul_bound(self.y as int, o.y as int, DOT_ARG_MAX as int, DOT_ARG_MAX as int);
            lemma_fmul_bound(self.z as int, o.z as int, DOT_ARG_MAX as int, DOT_ARG_MAX as int);
        }
        fp_mul(self.x, o.x) + fp_mul(self.y, o.y) + fp_mul(self.z, o.z)
    }

    pub fn cross(&self, o: &Vec3) -> (r: Vec3)
        requires
            bounded(*self, DOT_ARG_MAX as int),
            bounded(*o, DOT_ARG_MAX as int),
        ensures
            r == cross_spec(*self, *o),
    {
        proof {
            lemma_fmul_bound(self.y as int, o.z as int, DOT_ARG_MAX as int, DOT_ARG_MAX as int);
            lemma_fmul_bound(self.z as int, o.y as int, DOT_ARG_MAX as int, DOT_ARG_MAX as int);
            lemma_fmul_bound(self.z as int, o.x as int, DOT_ARG_MAX as int, DOT_ARG_MAX as int);
            lemma_fmul_bound(self.x as int, o.z as int, DOT_ARG_MAX as int, DOT_ARG_MAX as int);
            lemma_fmul_bound(self.x as int, o.y as int, DOT_ARG_MAX as int, DOT_ARG_MAX as int);
            lemma_fmul_bound(self.y as int, o.x as int, DOT_ARG_MAX as int, DOT_ARG_MAX as int);
        }
        Vec3 {
            x: fp_mul(self.y, o.z) - fp_mul(self.z, o.y),
            y: fp_mul(self.z, o.x) - fp_mul(self.x, o.z),
            z: fp_mul(self.x, o.y) - fp_mul(self.y, o.x),
        }
    }

    pub fn norm_squared(&self) -> (r: i64)
        requires
            bounded(*self, DOT_ARG_MAX as int),
        ensures
            r == nsq_spec(*self),
            r >= 0,
    {
        proof {
            lemma_fmul_sign(self.x as int, self.x as int);
            lemma_fmul_sign(self.y as int, self.y as int);
            lemma_fmul_sign(self.z as int, self.z as int);
        }
        self.dot(self)
    }

    pub fn norm(&self) -> (r: i64)
        requires
            bounded(*self, DOT_ARG_MAX as int),
        ensures
            r == fsqrt(nsq_spec(*self)),
            r >= 0,
    {
        let ns: i64 = self.norm_squared();
        fp_sqrt(ns)
    }

    /// Normalisation.  Undefined on vectors whose squared norm underflows
    /// to zero; callers guard with a near-zero check first.
    pub fn unit_vector(&self) -> (r: Vec3)
        requires
            bounded(*self, DOT_ARG_MAX as int),
            1 <= nsq_spec(*self),
        ensures
            r == unit_spec(*self),
            unit_like(r),
    {
        let ns: i64 = self.norm_squared();
        let m: i64 = fp_sqrt(ns);
        proof {
            lemma_unit_sqrt_facts(self.x as int, self.y as int, self.z as int, ns as int, m as int);
        }
        Vec3 { x: fp_div(self.x, m), y: fp_div(self.y, m), z: fp_div(self.z, m) }
    }

    pub fn near_zero(&self) -> (r: bool)
        ensures
            r == near_zero_spec(*self),
    {
        self.x == 0 && self.y == 0 && self.z == 0
    }
}

/// Facts tying a fixed-point square root of a squared norm to its
/// components: the root is large enough to divide by, the quotients are
/// bounded, and the largest component survives the division.
pub proof fn lemma_unit_sqrt_facts(x: int, y: int, z: int, ns: int, m: int)
    requires
        ns == fmul(x, x) + fmul(y, y) + fmul(z, z),
        1 <= ns,
        0 <= m,
        m * m <= ns * (SCALE as int),
        ns * (SCALE as int) < (m + 1) * (m + 1),
    ensures
        256 <= m,
        iabs(fdiv(x, m)) <= 2 * (SCALE as int),
        iabs(fdiv(y, m)) <= 2 * (SCALE as int),
        iabs(fdiv(z, m)) <= 2 * (SCALE as int),
        fdiv(x, m) != 0 || fdiv(y, m) != 0 || fdiv(z, m) != 0,
{
    let s = SCALE as int;
    lemma_fmul_sign(x, x);
    lemma_fmul_sign(y, y);
    lemma_fmul_sign(z, z);
    assert(ns * s >= s) by (nonlinear_arith)
        requires
            ns >= 1,
            s > 0,
    ;
    assert(m >= 256) by (nonlinear_arith)
        requires
            (m + 1) * (m + 1) > 65536,
            m >= 0,
    ;
    lemma_unit_comp_sq_bound(x, ns, m, fmul(y, y) + fmul(z, z));
    lemma_unit_comp_sq_bound(y, ns, m, fmul(x, x) + fmul(z, z));
    lemma_unit_comp_sq_bound(z, ns, m, fmul(x, x) + fmul(y, y));
    lemma_unit_comp_bound(x, m);
    lemma_unit_comp_bound(y, m);
    lemma_unit_comp_bound(z, m);
    let fx = fmul(x, x);
    let fy = fmul(y, y);
    let fz = fmul(z, z);
    if fx >= fy && fx >= fz {
        lemma_unit_max_comp(x, ns, m, fx);
    } else if fy >= fx && fy >= fz {
        lemma_unit_max_comp(y, ns, m, fy);
    } else {
        lemma_unit_max_comp(z, ns, m, fz);
    }
}

/// A single component squares to less than `(m + 1)^2 + SCALE`.
proof fn lemma_unit_comp_sq_bound(x: int, ns: int, m: int, rest: int)
    requires
        fmul(x, x) + rest == ns,
        rest >= 0,
        0 <= m,
        ns * (SCALE as int) < (m + 1) * (m + 1),
    ensures
        x * x < (m + 1) * (m + 1) + SCALE as int,
{
    let s = SCALE as int;
    assert(x * x >= 0) by (nonlinear_arith);
    lemma_fundamental_div_mod(x * x, s);
    assert(fmul(x, x) == (x * x) / s);
    assert(x * x < (fmul(x, x) + 1) * s) by (nonlinear_arith)
        requires
            x * x == s * ((x * x) / s) + (x * x) % s,
            0 <= (x * x) % s < s,
            fmul(x, x) == (x * x) / s,
    ;
    assert((fmul(x, x) + 1) * s <= (ns + 1) * s) by (nonlinear_arith)
        requires
            fmul(x, x) <= ns,
            s > 0,
    ;
    assert((ns + 1) * s == ns * s + s) by (nonlinear_arith);
}

/// The component with the largest square is at least a third of the root.
proof fn lemma_unit_max_comp(x: int, ns: int, m: int, fx: int)
    requires
        fx == fmul(x, x),
        3 * fx >= ns,
        ns >= 1,
        0 <= m,
        m * m <= ns * (SCALE as int),
        ns * (SCALE as int) < (m + 1) * (m + 1),
    ensures
        fdiv(x, m) != 0,
        256 <= iabs(x),
{
    let s = SCALE as int;
    assert(fx >= 1) by (nonlinear_arith)
        requires
            3 * fx >= ns,
            ns >= 1,
    ;
    assert(x * x >= 0) by (nonlinear_arith);
    lemma_fundamental_div_mod(x * x, s);
    assert(fx == (x * x) / s);
    assert(x * x >= fx * s) by (nonlinear_arith)
        requires
            x * x == s * ((x * x) / s) + (x * x) % s,
            0 <= (x * x) % s,
            fx == (x * x) / s,
    ;
    assert(x * x >= s) by (nonlinear_arith)
        requires
            x * x >= fx * s,
            fx >= 1,
            s > 0,
    ;
    assert(iabs(x) >= 256) by (nonlinear_arith)
        requires
            x * x >= 65536,
    ;
    assert(ns * s <= 3 * fx * s) by (nonlinear_arith)
        requires
            3 * fx >= ns,
            s > 0,
    ;
    assert(3 * fx * s <= 3 * (x * x)) by (nonlinear_arith)
        requires
            x * x >= fx * s,
    ;
    assert(x * x == iabs(x) * iabs(x)) by (nonlinear_arith);
    assert(m * m <= 3 * (x * x));
    assert(m <= 2 * iabs(x)) by (nonlinear_arith)
        requires
            m * m <= 3 * (x * x),
            m >= 0,
            iabs(x) >= 0,
            x * x == iabs(x) * iabs(x),
    ;
    if m == 0 {
        assert(false) by (nonlinear_arith)
            requires
                ns >= 1,
                s == 65536,
                m == 0,
                ns * s < (m + 1) * (m + 1),
        ;
    }
    lemma_unit_comp_nonzero(x, m);
}

/// Componentwise magnitude bound for a scaled vector.
pub proof fn lemma_scale_bound(k: int, v: Vec3, km: int, vm: int)
    requires
        iabs(k) <= km,
        bounded(v, vm),
    ensures
        iabs(fmul(k, v.x as int)) <= km * vm / (SCALE as int),
        iabs(fmul(k, v.y as int)) <= km * vm / (SCALE as int),
        iabs(fmul(k, v.z as int)) <= km * vm / (SCALE as int),
{
    lemma_fmul_bound(k, v.x as int, km, vm);
    lemma_fmul_bound(k, v.y as int, km, vm);
    lemma_fmul_bound(k, v.z as int, km, vm);
}

/// Magnitude bound for a dot product.
pub proof fn lemma_dot_bound(a: Vec3, b: Vec3, m1: int, m2: int)
    requires
        bounded(a, m1),
        bounded(b, m2),
    ensures
        iabs(dot_spec(a, b)) <= 3 * (m1 * m2 / (SCALE as int)),
{
    lemma_fmul_bound(a.x as int, b.x as int, m1, m2);
    lemma_fmul_bound(a.y as int, b.y as int, m1, m2);
    lemma_fmul_bound(a.z as int, b.z as int, m1, m2);
}

/// One signed fixed-point draw, uniform over `[-1, 1)` at this resolution.
fn draw_signed(rng: &mut rand::rngs::StdRng) -> (r: i64)
    ensures
        -65536 <= r <= 65534,
{
    let d: u16 = rng_next_u16(rng);
    (d as i64) * 2 - 65536
}

impl Vec3 {
    /// A vector with each component drawn uniformly from `[min, max)`.
    pub fn random(min: i64, max: i64, rng: &mut rand::rngs::StdRng) -> (r: Vec3)
        requires
            -0x4000_0000 <= min <= max <= 0x4000_0000,
        ensures
            min <= r.x <= max,
            min <= r.y <= max,
            min <= r.z <= max,
    {
        let d: i64 = max - min;
        let x: i64 = min + Vec3::random_scalar(d, rng);
        let y: i64 = min + Vec3::random_scalar(d, rng);
        let z: i64 = min + Vec3::random_scalar(d, rng);
        Vec3 { x, y, z }
    }

    fn random_scalar(d: i64, rng: &mut rand::rngs::StdRng) -> (r: i64)
        requires
            0 <= d <= 0x8000_0000,
        ensures
            0 <= r <= d,
    {
        let u: u16 = rng_next_u16(rng);
        proof {
            lemma_fmul_comm(d as int, u as int);
            lemma_fmul_le_one(d as int, u as int);
        }
        fp_mul(u as i64, d)
    }

    /// A direction drawn uniformly from the unit sphere: rejection
    /// sampling over the cube, normalised; after too many rejections the
    /// +z pole is used.
    pub fn random_unit_vector(rng: &mut rand::rngs::StdRng) -> (r: Vec3)
        ensures
            unit_like(r),
    {
        let mut attempts: u32 = 0;
        while attempts < 64
            decreases 64 - attempts,
        {
            let x: i64 = draw_signed(rng);
            let y: i64 = draw_signed(rng);
            let z: i64 = draw_signed(rng);
            let v = Vec3 { x, y, z };
            let ns: i64 = v.norm_squared();
            if 1 <= ns && ns <= SCALE {
                return v.unit_vector();
            }
            attempts = attempts + 1;
        }
        Vec3 { x: 0, y: 0, z: SCALE }
    }

    /// A point drawn uniformly from the unit disk in the xy-plane.
    pub fn random_in_unit_disk(rng: &mut rand::rngs::StdRng) -> (r: Vec3)
        ensures
            iabs(r.x as int) <= SCALE as int,
            iabs(r.y as int) <= SCALE as int,
            r.z == 0,
            fmul(r.x as int, r.x as int) + fmul(r.y as int, r.y as int) <= SCALE as int,
    {
        let mut attempts: u32 = 0;
        while attempts < 64
            decreases 64 - attempts,
        {
            let x: i64 = draw_signed(rng);
            let y: i64 = draw_signed(rng);
            proof {
                lemma_fmul_sign(x as int, x as int);
                lemma_fmul_sign(y as int, y as int);
                lemma_fmul_bound(x as int, x as int, 65536, 65536);
                lemma_fmul_bound(y as int, y as int, 65536, 65536);
            }
            let ns: i64 = fp_mul(x, x) + fp_mul(y, y);
            if ns < SCALE {
                return Vec3 { x, y, z: 0 };
            }
            attempts = attempts + 1;
        }
        Vec3 { x: 0, y: 0, z: 0 }
    }
}

} // verus!
