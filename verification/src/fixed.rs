//! Fixed-point scalar arithmetic.
//!
//! A raw `i64` value `v` represents the real number `v / SCALE`.  Products
//! and quotients are truncated toward zero, mirroring the rounding of the
//! executable code exactly, so every contract in the crate can be stated
//! as an equality over `fmul`, `fdiv` and `fsqrt`.

use vstd::prelude::*;
use vstd::arithmetic::div_mod::{lemma_fundamental_div_mod, lemma_div_is_ordered};

verus! {

/// Scale of the representation: the raw value `v` stands for `v / SCALE`.
pub const SCALE: i64 = 65536;

pub open spec fn iabs(n: int) -> int {
    if n < 0 {
        -n
    } else {
        n
    }
}

/// Division truncated toward zero (the rounding of the executable code).
pub open spec fn tdiv(n: int, d: int) -> int {
    if d == 0 {
        0
    } else if (n < 0) == (d < 0) {
        iabs(n) / iabs(d)
    } else {
        -(iabs(n) / iabs(d))
    }
}

/// Fixed-point product: `(a * b) / SCALE`, truncated toward zero.
pub open spec fn fmul(a: int, b: int) -> int {
    tdiv(a * b, SCALE as int)
}

/// Fixed-point quotient: `(a * SCALE) / b`, truncated toward zero.
pub open spec fn fdiv(a: int, b: int) -> int {
    tdiv(a * (SCALE as int), b)
}

/// Floor of the square root of a natural number.
pub open spec fn sqrt_floor(n: nat) -> nat
    decreases n,
{
    if n < 2 {
        n
    } else {
        let s = 2 * sqrt_floor((n / 4) as nat);
        if (s + 1) * (s + 1) <= n {
            (s + 1) as nat
        } else {
            s
        }
    }
}

/// Fixed-point square root: `floor(sqrt(x * SCALE))`, again at scale `SCALE`.
pub open spec fn fsqrt(x: int) -> int {
    sqrt_floor((x * (SCALE as int)) as nat) as int
}

pub proof fn lemma_sqrt_floor(n: nat)
    ensures
        sqrt_floor(n) * sqrt_floor(n) <= n,
        n < (sqrt_floor(n) + 1) * (sqrt_floor(n) + 1),
    decreases n,
{
    if n < 2 {
        assert(sqrt_floor(n) == n);
        assert(n * n <= n && n < (n + 1) * (n + 1)) by (nonlinear_arith)
            requires
                0 <= n < 2,
        ;
    } else {
        let m = (n / 4) as nat;
        lemma_sqrt_floor(m);
        let s0 = sqrt_floor(m);
        let s = 2 * s0;
        lemma_fundamental_div_mod(n as int, 4);
        assert(4 * m <= n && n < 4 * (m + 1));
        assert(s * s <= n) by (nonlinear_arith)
            requires
                s == 2 * s0,
                s0 * s0 <= m,
                4 * m <= n,
        ;
        assert(n < (s + 2) * (s + 2)) by (nonlinear_arith)
            requires
                s == 2 * s0,
                m < (s0 + 1) * (s0 + 1),
                n < 4 * (m + 1),
        ;
        if (s + 1) * (s + 1) <= n {
            assert(sqrt_floor(n) == s + 1);
            assert(n < ((s + 1) + 1) * ((s + 1) + 1));
        } else {
            assert(sqrt_floor(n) == s);
        }
    }
}

pub proof fn lemma_sqrt_floor_unique(n: nat, r: nat)
    requires
        r * r <= n,
        n < (r + 1) * (r + 1),
    ensures
        r == sqrt_floor(n),
{
    lemma_sqrt_floor(n);
    let s = sqrt_floor(n);
    if r < s {
        assert(false) by (nonlinear_arith)
            requires
                r < s,
                s * s <= n,
                n < (r + 1) * (r + 1),
        ;
    }
    if s < r {
        assert(false) by (nonlinear_arith)
            requires
                s < r,
                r * r <= n,
                n < (s + 1) * (s + 1),
        ;
    }
}

pub proof fn lemma_sqrt_floor_mono(a: nat, b: nat)
    requires
        a <= b,
    ensures
        sqrt_floor(a) <= sqrt_floor(b),
{
    lemma_sqrt_floor(a);
    lemma_sqrt_floor(b);
    let sa = sqrt_floor(a);
    let sb = sqrt_floor(b);
    if sb < sa {
        assert(false) by (nonlinear_arith)
            requires
                sb < sa,
                sa * sa <= a,
                a <= b,
                b < (sb + 1) * (sb + 1),
        ;
    }
}

/// Floor of the square root, by bisection.
pub fn isqrt_u128(n: u128) -> (r: u128)
    ensures
        r == sqrt_floor(n as nat),
        r * r <= n < (r + 1) * (r + 1),
{
    let mut lo: u128 = 0;
    let mut hi: u128 = 0x1_0000_0000_0000_0000;
    proof {
        assert((n as int) < (hi as int) * (hi as int)) by (nonlinear_arith)
            requires
                hi == 0x1_0000_0000_0000_0000u128,
                n <= u128::MAX,
        ;
    }
    while lo + 1 < hi
        invariant
            lo < hi <= 0x1_0000_0000_0000_0000u128,
            (lo as int) * (lo as int) <= n as int,
            (n as int) < (hi as int) * (hi as int),
        decreases hi - lo,
    {
        let mid: u128 = lo + (hi - lo) / 2;
        proof {
            assert((mid as int) * (mid as int) <= u128::MAX as int) by (nonlinear_arith)
                requires
                    mid < 0x1_0000_0000_0000_0000u128,
            ;
        }
        if mid * mid <= n {
            lo = mid;
        } else {
            hi = mid;
        }
    }
    proof {
        lemma_sqrt_floor_unique(n as nat, lo as nat);
    }
    lo
}

/// Fixed-point multiply; exact per `fmul`, proved free of overflow.
pub fn fp_mul(a: i64, b: i64) -> (r: i64)
    requires
        -0x7fff_ffff_ffff_ffff <= fmul(a as int, b as int) <= 0x7fff_ffff_ffff_ffff,
    ensures
        r == fmul(a as int, b as int),
{
    proof {
        assert(-0x4000_0000_0000_0000_0000_0000_0000_0000
            <= (a as int) * (b as int)
            <= 0x4000_0000_0000_0000_0000_0000_0000_0000) by (nonlinear_arith)
            requires
                -0x8000_0000_0000_0000 <= a <= 0x7fff_ffff_ffff_ffff,
                -0x8000_0000_0000_0000 <= b <= 0x7fff_ffff_ffff_ffff,
        ;
    }
    let p: i128 = (a as i128) * (b as i128);
    if p >= 0 {
        let q: u128 = (p as u128) / 65536;
        proof {
            assert(q == fmul(a as int, b as int));
        }
        q as i64
    } else {
        let q: u128 = ((-p) as u128) / 65536;
        proof {
            assert(-(q as int) == fmul(a as int, b as int));
        }
        -(q as i64)
    }
}

/// Fixed-point divide; exact per `fdiv`, proved free of overflow.
pub fn fp_div(a: i64, b: i64) -> (r: i64)
    requires
        b != 0,
        -0x7fff_ffff_ffff_ffff <= fdiv(a as int, b as int) <= 0x7fff_ffff_ffff_ffff,
    ensures
        r == fdiv(a as int, b as int),
{
    let n: i128 = (a as i128) * 65536;
    let na: u128 = if n >= 0 {
        n as u128
    } else {
        (-n) as u128
    };
    let da: u128 = if b >= 0 {
        b as u128
    } else {
        (-(b as i128)) as u128
    };
    let q: u128 = na / da;
    if (n >= 0) == (b >= 0) {
        proof {
            assert(q == fdiv(a as int, b as int));
        }
        q as i64
    } else {
        proof {
            assert(-(q as int) == fdiv(a as int, b as int));
        }
        -(q as i64)
    }
}

/// Fixed-point square root; exact per `fsqrt`.
pub fn fp_sqrt(x: i64) -> (r: i64)
    requires
        0 <= x,
    ensures
        r == fsqrt(x as int),
        0 <= r,
        r * r <= x * (SCALE as int) < (r + 1) * (r + 1),
{
    let n: u128 = (x as u128) * 65536;
    let s: u128 = isqrt_u128(n);
    proof {
        assert((s as int) * (s as int) <= n as int);
        assert(s < 0x100_0000_0000u128) by (nonlinear_arith)
            requires
                (s as int) * (s as int) <= n as int,
                n as int <= 0x7fff_ffff_ffff_ffffint * 65536,
        ;
    }
    s as i64
}

pub proof fn lemma_tdiv_bound(n: int, d: int, m: int)
    requires
        d > 0,
        iabs(n) <= m,
    ensures
        iabs(tdiv(n, d)) <= m / d,
        iabs(tdiv(n, d)) <= m,
{
    lemma_div_is_ordered(iabs(n), m, d);
    assert(iabs(n) / d <= iabs(n)) by (nonlinear_arith)
        requires
            d >= 1,
            iabs(n) >= 0,
    ;
    lemma_fundamental_div_mod(m, d);
    assert(m / d <= m) by (nonlinear_arith)
        requires
            d >= 1,
            m >= 0,
    ;
}

/// Magnitude bound for a fixed-point product.
pub proof fn lemma_fmul_bound(a: int, b: int, aa: int, bb: int)
    requires
        iabs(a) <= aa,
        iabs(b) <= bb,
    ensures
        iabs(fmul(a, b)) <= aa * bb / (SCALE as int),
        iabs(fmul(a, b)) <= aa * bb,
{
    assert(iabs(a * b) <= aa * bb) by (nonlinear_arith)
        requires
            iabs(a) <= aa,
            iabs(b) <= bb,
    ;
    lemma_tdiv_bound(a * b, SCALE as int, aa * bb);
}

/// Magnitude bound for a fixed-point quotient with a denominator bounded below.
pub proof fn lemma_fdiv_bound(a: int, b: int, aa: int, bl: int)
    requires
        iabs(a) <= aa,
        bl <= iabs(b),
        bl > 0,
    ensures
        iabs(fdiv(a, b)) <= aa * (SCALE as int) / bl,
{
    let s = SCALE as int;
    assert(iabs(a * s) <= aa * s) by (nonlinear_arith)
        requires
            iabs(a) <= aa,
            s > 0,
    ;
    if b != 0 {
        lemma_div_is_ordered(iabs(a * s), aa * s, iabs(b));
        assert(aa * s / iabs(b) <= aa * s / bl) by {
            lemma_div_denominator_ordered(aa * s, bl, iabs(b));
        }
    } else {
        assert(fdiv(a, b) == 0);
        assert(aa * s / bl >= 0) by (nonlinear_arith)
            requires
                aa >= 0,
                s > 0,
                bl > 0,
        ;
    }
}

/// Dividing a non-negative number by a larger denominator gives a smaller quotient.
pub proof fn lemma_div_denominator_ordered(n: int, d1: int, d2: int)
    requires
        n >= 0,
        0 < d1 <= d2,
    ensures
        n / d2 <= n / d1,
{
    lemma_fundamental_div_mod(n, d1);
    lemma_fundamental_div_mod(n, d2);
    assert(n / d2 <= n / d1) by (nonlinear_arith)
        requires
            n == d1 * (n / d1) + n % d1,
            n == d2 * (n / d2) + n % d2,
            0 <= n % d1 < d1,
            0 <= n % d2 < d2,
            0 < d1 <= d2,
            n >= 0,
    ;
}

/// Signs: a truncated product or quotient keeps the sign rules of the exact one.
pub proof fn lemma_fmul_sign(a: int, b: int)
    ensures
        a >= 0 && b >= 0 ==> fmul(a, b) >= 0,
        a <= 0 && b >= 0 ==> fmul(a, b) <= 0,
        a >= 0 && b <= 0 ==> fmul(a, b) <= 0,
        a <= 0 && b <= 0 ==> fmul(a, b) >= 0,
{
    assert(a >= 0 && b >= 0 ==> a * b >= 0) by (nonlinear_arith);
    assert(a <= 0 && b >= 0 ==> a * b <= 0) by (nonlinear_arith);
    assert(a >= 0 && b <= 0 ==> a * b <= 0) by (nonlinear_arith);
    assert(a <= 0 && b <= 0 ==> a * b >= 0) by (nonlinear_arith);
}

pub proof fn lemma_fdiv_sign(a: int, b: int)
    ensures
        a >= 0 && b > 0 ==> fdiv(a, b) >= 0,
        a <= 0 && b > 0 ==> fdiv(a, b) <= 0,
        a >= 0 && b < 0 ==> fdiv(a, b) <= 0,
        a <= 0 && b < 0 ==> fdiv(a, b) >= 0,
{
    let s = SCALE as int;
    assert(a >= 0 ==> a * s >= 0) by (nonlinear_arith)
        requires
            s > 0,
    ;
    assert(a <= 0 ==> a * s <= 0) by (nonlinear_arith)
        requires
            s > 0,
    ;
}

/// A factor that is a whole number of scale units multiplies exactly.
pub proof fn lemma_fmul_scale_assoc(i: int, d: int)
    ensures
        fmul(i * (SCALE as int), d) == i * d,
{
    let s = SCALE as int;
    assert((i * s) * d == (i * d) * s) by (nonlinear_arith);
    assert(iabs((i * d) * s) == iabs(i * d) * s) by (nonlinear_arith)
        requires
            s > 0,
    ;
    assert(iabs(i * d) * s / s == iabs(i * d)) by (nonlinear_arith)
        requires
            s > 0,
    ;
}

pub proof fn lemma_fmul_zero(a: int)
    ensures
        fmul(a, 0) == 0,
        fmul(0, a) == 0,
{
    assert(a * 0 == 0) by (nonlinear_arith);
    assert(0 * a == 0) by (nonlinear_arith);
}

/// A product with a factor in `[0, 1]` does not grow the other factor.
pub proof fn lemma_fmul_le_one(a: int, b: int)
    requires
        0 <= a,
        0 <= b <= SCALE as int,
    ensures
        0 <= fmul(a, b) <= a,
{
    let s = SCALE as int;
    assert(0 <= a * b <= a * s) by (nonlinear_arith)
        requires
            0 <= a,
            0 <= b <= s,
    ;
    lemma_div_is_ordered(a * b, a * s, s);
    assert(a * s / s == a) by (nonlinear_arith)
        requires
            s > 0,
    ;
}

/// Dividing by `w` pixels (at scale) shrinks a viewport extent `w`-fold.
pub proof fn lemma_fdiv_scaled_down(x: int, w: int)
    requires
        1 <= w,
    ensures
        iabs(fdiv(x, w * (SCALE as int))) * w <= iabs(x),
        iabs(fdiv(x, w * (SCALE as int))) <= iabs(x),
{
    let s = SCALE as int;
    let d = w * s;
    assert(d >= s) by (nonlinear_arith)
        requires
            w >= 1,
            s > 0,
            d == w * s,
    ;
    let q = iabs(x * s) / d;
    lemma_fundamental_div_mod(iabs(x * s), d);
    assert(iabs(x * s) == iabs(x) * s) by (nonlinear_arith)
        requires
            s > 0,
    ;
    assert(q * w <= iabs(x) && q <= iabs(x)) by (nonlinear_arith)
        requires
            iabs(x) * s == d * q + iabs(x * s) % d,
            0 <= iabs(x * s) % d < d,
            d == w * s,
            1 <= w,
            s > 0,
            0 <= iabs(x),
    ;
    assert(iabs(fdiv(x, d)) == q);
}

pub proof fn lemma_fmul_comm(a: int, b: int)
    ensures
        fmul(a, b) == fmul(b, a),
{
    assert(a * b == b * a) by (nonlinear_arith);
}

/// A quotient is at most `k` when the numerator is below `(k + 1) * d`.
pub proof fn lemma_div_upper(n: int, d: int, k: int)
    requires
        0 <= n,
        0 < d,
        0 <= k,
        n < (k + 1) * d,
    ensures
        n / d <= k,
{
    lemma_fundamental_div_mod(n, d);
    assert(n / d <= k) by (nonlinear_arith)
        requires
            n == d * (n / d) + n % d,
            0 <= n % d < d,
            0 <= n,
            0 < d,
            0 <= k,
            n < (k + 1) * d,
    ;
}

/// A quotient is at least `k` when the numerator reaches `k * d`.
pub proof fn lemma_div_lower_bound(n: int, d: int, k: int)
    requires
        0 < d,
        0 <= k,
        k * d <= n,
    ensures
        n / d >= k,
{
    lemma_fundamental_div_mod(n, d);
    assert(n / d >= k) by (nonlinear_arith)
        requires
            n == d * (n / d) + n % d,
            0 <= n % d < d,
            0 < d,
            0 <= k,
            k * d <= n,
    ;
}

/// A quotient is at least 1 when the numerator reaches the denominator.
pub proof fn lemma_div_lower(n: int, d: int)
    requires
        0 < d <= n,
    ensures
        n / d >= 1,
{
    lemma_fundamental_div_mod(n, d);
    assert(n / d >= 1) by (nonlinear_arith)
        requires
            n == d * (n / d) + n % d,
            0 <= n % d < d,
            0 < d <= n,
    ;
}

/// Components divided by a near-norm stay within `2 * SCALE`.
pub proof fn lemma_unit_comp_bound(x: int, m: int)
    requires
        256 <= m,
        x * x < (m + 1) * (m + 1) + SCALE as int,
    ensures
        iabs(fdiv(x, m)) <= 2 * (SCALE as int),
{
    let s = SCALE as int;
    assert(x * x < (m + 257) * (m + 257)) by (nonlinear_arith)
        requires
            x * x < (m + 1) * (m + 1) + 65536,
            m >= 0,
    ;
    assert(iabs(x) <= m + 256) by (nonlinear_arith)
        requires
            x * x < (m + 257) * (m + 257),
            m >= 0,
    ;
    assert(iabs(x * s) <= (m + 256) * s) by (nonlinear_arith)
        requires
            iabs(x) <= m + 256,
            s > 0,
    ;
    assert((m + 256) * s < (2 * s + 1) * m) by (nonlinear_arith)
        requires
            m >= 256,
            s == 65536,
    ;
    lemma_div_is_ordered(iabs(x * s), (m + 256) * s, m);
    lemma_div_upper((m + 256) * s, m, 2 * s);
}

/// A component at least a third of the near-norm survives the division.
pub proof fn lemma_unit_comp_nonzero(x: int, m: int)
    requires
        0 < m <= 3 * iabs(x),
    ensures
        iabs(fdiv(x, m)) >= 1,
        fdiv(x, m) != 0,
{
    let s = SCALE as int;
    assert(iabs(x * s) == iabs(x) * s) by (nonlinear_arith)
        requires
            s > 0,
    ;
    assert(iabs(x) * s >= m) by (nonlinear_arith)
        requires
            m <= 3 * iabs(x),
            s >= 3,
            iabs(x) >= 0,
    ;
    lemma_div_lower(iabs(x * s), m);
}

} // verus!
