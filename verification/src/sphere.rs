//! The sphere primitive and its closed-form intersection test.
//!
//! The quadratic `a t^2 + 2 h t + c = 0` is solved with an exact integer
//! discriminant at double scale, so the square root recovers the single
//! scale without further correction.  The near root is always tried
//! first; a root is accepted only strictly inside the hit window.

use vstd::prelude::*;
use crate::fixed::{
    SCALE, iabs, fmul, fdiv, fsqrt, sqrt_floor, fp_mul, fp_div, isqrt_u128, lemma_fmul_bound,
    lemma_fmul_sign, lemma_fdiv_bound, lemma_fdiv_sign,
};
use crate::vec3::{
    Vec3, bounded, sub_spec, neg_spec, dot_spec, nsq_spec, unit_spec, unit_like,
    lemma_dot_bound, lemma_unit_sqrt_facts,
};
use crate::ray::{Ray, ray_wf, at_spec, T_MAX, RAY_DIR_MAX};
use crate::interval::{Interval, surrounds_spec};
use crate::hit_record::{HitRecord, FacingDirection, hit_record_spec, rec_wf, POINT_MAX};
use crate::material::{Material, material_wf};
use crate::hittable::Hittable;

verus! {

/// Bound on the quadratic's leading coefficient `|direction|^2`.
pub const QUAD_A_MAX: i64 = 60000000000000;

/// Bound on the quadratic's half-slope `oc . direction`.
pub const QUAD_H_MAX: i64 = 20000000000000;

/// Bound on the quadratic's constant term `|oc|^2 - r^2`.
pub const QUAD_C_MAX: i64 = 8000000000000;

/// Bound on `|h| + sqrt(discriminant)`.
pub const QUAD_HS_MAX: i64 = 50000000000000;

#[derive(Clone, Copy, Debug, PartialEq, Eq, Structural)]
pub struct Sphere {
    pub center: Vec3,
    pub radius: i64,
    pub material: Material,
}

/// A sphere the intersection test accepts: center inside the world
/// bounds, a radius that does not underflow, a well-formed material.
/// A negative radius is the hollow-surface convention.
pub open spec fn sphere_wf(s: Sphere) -> bool {
    bounded(s.center, POINT_MAX as int) && 1 <= iabs(s.radius as int) <= POINT_MAX as int
        && material_wf(s.material)
}

pub open spec fn oc_spec(s: Sphere, ray: Ray) -> Vec3 {
    sub_spec(ray.origin, s.center)
}

pub open spec fn quad_a_spec(ray: Ray) -> int {
    nsq_spec(ray.direction)
}

pub open spec fn quad_h_spec(s: Sphere, ray: Ray) -> int {
    dot_spec(oc_spec(s, ray), ray.direction)
}

pub open spec fn quad_c_spec(s: Sphere, ray: Ray) -> int {
    nsq_spec(oc_spec(s, ray)) - fmul(s.radius as int, s.radius as int)
}

/// The discriminant `h^2 - a c`, exact, at double scale.
pub open spec fn disc_of(a: int, h: int, c: int) -> int {
    h * h - a * c
}

/// Root selection for a non-negative discriminant: the near root first,
/// then the far root, each accepted only strictly inside the window.
pub open spec fn root_sel_spec(a: int, h: int, c: int, iv: Interval) -> Option<i64> {
    let sd = sqrt_floor(disc_of(a, h, c) as nat) as int;
    let r1 = fdiv(-(h + sd), a);
    if surrounds_spec(iv, r1) {
        Some(r1 as i64)
    } else {
        let r2 = fdiv(-(h - sd), a);
        if surrounds_spec(iv, r2) {
            Some(r2 as i64)
        } else {
            None
        }
    }
}

/// The accepted root of the sphere quadratic, if any.  A direction whose
/// squared norm underflows to zero cannot be intersected.
pub open spec fn root_spec(s: Sphere, ray: Ray, iv: Interval) -> Option<i64> {
    let a = quad_a_spec(ray);
    let h = quad_h_spec(s, ray);
    let c = quad_c_spec(s, ray);
    if a < 1 || disc_of(a, h, c) < 0 {
        None
    } else {
        root_sel_spec(a, h, c, iv)
    }
}

/// The full hit test.  A contact outside the world bounds, or one whose
/// offset from the center underflows to zero, is dropped.
pub open spec fn sphere_hit_spec(s: Sphere, ray: Ray, iv: Interval) -> Option<HitRecord> {
    match root_spec(s, ray, iv) {
        Some(t) => {
            let p = at_spec(ray, t as int);
            if !bounded(p, POINT_MAX as int) {
                None
            } else {
                let off = sub_spec(p, s.center);
                if nsq_spec(off) < 1 {
                    None
                } else {
                    let un = unit_spec(off);
                    let normal = if s.radius > 0 {
                        un
                    } else {
                        neg_spec(un)
                    };
                    let facing = if dot_spec(ray.direction, normal) < 0 {
                        FacingDirection::Front
                    } else {
                        FacingDirection::Back
                    };
                    Some(hit_record_spec(p, normal, t, facing, s.material))
                }
            }
        },
        None => None,
    }
}

/// An exact integer dot product, for the algebra of the quadratic.
pub open spec fn idot(ax: int, ay: int, az: int, bx: int, by: int, bz: int) -> int {
    ax * bx + ay * by + az * bz
}

/// One component of a squared linear combination.
proof fn nl_expand_sq(u: int, v: int, al: int, be: int)
    ensures
        (al * u - be * v) * (al * u - be * v) == al * al * (u * u) - 2 * (al * be) * (u * v) + (be
            * be) * (v * v),
{
    let p = al * u;
    let q = be * v;
    assert((p - q) * (p - q) == p * p - 2 * (p * q) + q * q) by (nonlinear_arith);
    assert((al * u) * (al * u) == al * al * (u * u)) by (nonlinear_arith);
    assert((al * u) * (be * v) == (al * be) * (u * v)) by (nonlinear_arith);
    assert((be * v) * (be * v) == (be * be) * (v * v)) by (nonlinear_arith);
    assert(2 * (al * be) * (u * v) == 2 * ((al * be) * (u * v))) by (nonlinear_arith);
}

/// A common factor distributes over a three-term sum.
proof fn nl_distrib3(k: int, p: int, q: int, r: int) by (nonlinear_arith)
    ensures
        k * (p + q + r) == k * p + k * q + k * r,
{
}

/// `|al*u - be*v|^2` expands bilinearly.
proof fn nl_expand_norm(
    ux: int, uy: int, uz: int,
    vx: int, vy: int, vz: int,
    al: int, be: int,
)
    ensures
        (al * ux - be * vx) * (al * ux - be * vx) + (al * uy - be * vy) * (al * uy - be * vy) + (
        al * uz - be * vz) * (al * uz - be * vz) == al * al * (ux * ux + uy * uy + uz * uz) - 2 * (
        al * be) * (ux * vx + uy * vy + uz * vz) + (be * be) * (vx * vx + vy * vy + vz * vz),
{
    nl_expand_sq(ux, vx, al, be);
    nl_expand_sq(uy, vy, al, be);
    nl_expand_sq(uz, vz, al, be);
    nl_distrib3(al * al, ux * ux, uy * uy, uz * uz);
    nl_distrib3(2 * (al * be), ux * vx, uy * vy, uz * vz);
    nl_distrib3(be * be, vx * vx, vy * vy, vz * vz);
}

/// One component of a dot product with a linear combination.
proof fn nl_expand_dot_comp(w: int, u: int, v: int, al: int, be: int) by (nonlinear_arith)
    ensures
        w * (al * u - be * v) == al * (u * w) - be * (v * w),
{
}

/// `w . (al*u - be*v)` expands linearly.
proof fn nl_expand_dot(
    wx: int, wy: int, wz: int,
    ux: int, uy: int, uz: int,
    vx: int, vy: int, vz: int,
    al: int, be: int,
)
    ensures
        wx * (al * ux - be * vx) + wy * (al * uy - be * vy) + wz * (al * uz - be * vz) == al * (ux
            * wx + uy * wy + uz * wz) - be * (vx * wx + vy * wy + vz * wz),
{
    nl_expand_dot_comp(wx, ux, vx, al, be);
    nl_expand_dot_comp(wy, uy, vy, al, be);
    nl_expand_dot_comp(wz, uz, vz, al, be);
    nl_distrib3(al, ux * wx, uy * wy, uz * wz);
    nl_distrib3(be, vx * wx, vy * wy, vz * wz);
}

/// The scalar cancellation at the heart of the on-sphere law.
proof fn nl_root_cancel(big_a: int, h: int, a: int, r: int, s: int)
    requires
        s * s == h * h - a * (big_a - r * r),
    ensures
        a * a * big_a - 2 * (a * (h + s)) * h + ((h + s) * (h + s)) * a == (a * r) * (a * r),
{
    assert((h + s) * (h + s) == h * h + 2 * (h * s) + s * s) by (nonlinear_arith);
    assert(((h + s) * (h + s)) * a == (h * h) * a + (2 * (h * s)) * a + (s * s) * a)
        by (nonlinear_arith);
    assert(2 * (a * (h + s)) * h == 2 * ((h * h) * a) + 2 * ((h * s) * a)) by (nonlinear_arith);
    assert((s * s) * a == (h * h) * a - (a * (big_a - r * r)) * a) by (nonlinear_arith)
        requires
            s * s == h * h - a * (big_a - r * r),
    ;
    assert((a * (big_a - r * r)) * a == a * a * big_a - (a * r) * (a * r)) by (nonlinear_arith);
    assert((2 * (h * s)) * a == 2 * ((h * s) * a)) by (nonlinear_arith);
}

proof fn nl_dot_cancel(h: int, a: int, s: int) by (nonlinear_arith)
    ensures
        a * h - (h + s) * a == -(s * a),
{
}

/// A root returned by the exact quadratic lies on the sphere: with
/// `a = |d|^2`, `h = oc.d`, `c = |oc|^2 - r^2` and `s^2 = h^2 - a c`,
/// the contact offset `a*(oc + t*d)` at `t = -(h + s)/a` — the near
/// root, or the far root with `s` negated — has squared norm exactly
/// `(a r)^2`.  The executable solver returns this root up to the
/// fixed-point truncation of the square root and the division.
pub proof fn lemma_root_on_sphere(
    ox: int, oy: int, oz: int,
    dx: int, dy: int, dz: int,
    r: int, s: int,
)
    requires
        s * s == idot(ox, oy, oz, dx, dy, dz) * idot(ox, oy, oz, dx, dy, dz) - idot(
            dx, dy, dz, dx, dy, dz,
        ) * (idot(ox, oy, oz, ox, oy, oz) - r * r),
    ensures
        ({
            let a = idot(dx, dy, dz, dx, dy, dz);
            let h = idot(ox, oy, oz, dx, dy, dz);
            idot(
                a * ox - (h + s) * dx, a * oy - (h + s) * dy, a * oz - (h + s) * dz,
                a * ox - (h + s) * dx, a * oy - (h + s) * dy, a * oz - (h + s) * dz,
            ) == (a * r) * (a * r)
        }),
{
    let a = idot(dx, dy, dz, dx, dy, dz);
    let h = idot(ox, oy, oz, dx, dy, dz);
    let big_a = idot(ox, oy, oz, ox, oy, oz);
    nl_expand_norm(ox, oy, oz, dx, dy, dz, a, h + s);
    nl_root_cancel(big_a, h, a, r, s);
}

/// The sign of the facing test at an exact root: the incoming direction
/// against the scaled contact offset `a*(oc + t*d)` at `t = -(h + s)/a`
/// comes to `-(s a)`.  With `s, a > 0` and a positive radius the
/// direction opposes the outward normal at the near root — the hit is
/// front-facing — while the far root (`s` negated) gives `s a > 0`:
/// back-facing, as for a ray started inside the sphere.
pub proof fn lemma_root_facing(
    ox: int, oy: int, oz: int,
    dx: int, dy: int, dz: int,
    s: int,
)
    ensures
        ({
            let a = idot(dx, dy, dz, dx, dy, dz);
            let h = idot(ox, oy, oz, dx, dy, dz);
            idot(
                dx, dy, dz,
                a * ox - (h + s) * dx, a * oy - (h + s) * dy, a * oz - (h + s) * dz,
            ) == -(s * a)
        }),
{
    let a = idot(dx, dy, dz, dx, dy, dz);
    let h = idot(ox, oy, oz, dx, dy, dz);
    nl_expand_dot(dx, dy, dz, ox, oy, oz, dx, dy, dz, a, h + s);
    nl_dot_cancel(h, a, s);
}

/// A negative radius turns the geometric normal inward: at any contact,
/// the normal of a hollow sphere and the offset from the center point in
/// opposite directions, so the normal points toward the center.
pub proof fn lemma_hollow_normal_inward(off: Vec3)
    requires
        bounded(off, 0x40_0000_0000),
        1 <= nsq_spec(off),
    ensures
        dot_spec(neg_spec(unit_spec(off)), off) <= 0,
        dot_spec(unit_spec(off), off) >= 0,
{
    let ns = nsq_spec(off);
    let m = fsqrt(ns);
    crate::fixed::lemma_sqrt_floor((ns * (SCALE as int)) as nat);
    assert(ns * (SCALE as int) >= 0) by (nonlinear_arith)
        requires
            ns >= 1,
    ;
    lemma_unit_sqrt_facts(off.x as int, off.y as int, off.z as int, ns, m);
    lemma_fdiv_sign(off.x as int, m);
    lemma_fdiv_sign(off.y as int, m);
    lemma_fdiv_sign(off.z as int, m);
    let ux = fdiv(off.x as int, m);
    let uy = fdiv(off.y as int, m);
    let uz = fdiv(off.z as int, m);
    lemma_fmul_sign(-ux, off.x as int);
    lemma_fmul_sign(-uy, off.y as int);
    lemma_fmul_sign(-uz, off.z as int);
    lemma_fmul_sign(ux, off.x as int);
    lemma_fmul_sign(uy, off.y as int);
    lemma_fmul_sign(uz, off.z as int);
}

/// The memoized discriminant of one quadratic.
pub struct Discriminant {
    pub a: i64,
    pub b_halfs: i64,
    pub c: i64,
    pub val: Option<i128>,
}

pub open spec fn disc_wf(d: Discriminant) -> bool {
    iabs(d.a as int) <= QUAD_A_MAX as int && iabs(d.b_halfs as int) <= QUAD_H_MAX as int && iabs(
        d.c as int,
    ) <= QUAD_C_MAX as int && (d.val matches Some(v) ==> v == disc_of(
        d.a as int,
        d.b_halfs as int,
        d.c as int,
    ))
}

impl Discriminant {
    pub fn new(a: i64, b_halfs: i64, c: i64) -> (r: Discriminant)
        ensures
            r == (Discriminant { a, b_halfs, c, val: None::<i128> }),
    {
        Discriminant { a, b_halfs, c, val: None }
    }

    /// The discriminant's value, computed once and cached.
    pub fn eval(&mut self) -> (r: i128)
        requires
            disc_wf(*old(self)),
        ensures
            *final(self) == (Discriminant { val: Some(r), ..*old(self) }),
            disc_wf(*final(self)),
            r == disc_of(old(self).a as int, old(self).b_halfs as int, old(self).c as int),
    {
        match self.val {
            None => {
                proof {
                    assert((self.b_halfs as int) * (self.b_halfs as int)
                        <= 400000000000000000000000000) by (nonlinear_arith)
                        requires
                            iabs(self.b_halfs as int) <= 20000000000000,
                    ;
                    assert((self.b_halfs as int) * (self.b_halfs as int) >= 0) by (nonlinear_arith);
                    assert(iabs((self.a as int) * (self.c as int))
                        <= 480000000000000000000000000) by (nonlinear_arith)
                        requires
                            iabs(self.a as int) <= 60000000000000,
                            iabs(self.c as int) <= 8000000000000,
                    ;
                }
                let val: i128 = (self.b_halfs as i128) * (self.b_halfs as i128) - (self.a as i128)
                    * (self.c as i128);
                self.val = Some(val);
                val
            },
            Some(val) => val,
        }
    }
}

impl Sphere {
    pub fn new(center: Vec3, radius: i64, material: Material) -> (r: Sphere)
        ensures
            r == (Sphere { center, radius, material }),
    {
        Sphere { center, radius, material }
    }

    fn root(&self, ray: &Ray, hit_interval: &Interval) -> (res: Option<i64>)
        requires
            sphere_wf(*self),
            ray_wf(*ray),
            0 <= hit_interval.lb,
            hit_interval.ub <= T_MAX,
        ensures
            res == root_spec(*self, *ray, *hit_interval),
            res matches Some(t) ==> surrounds_spec(*hit_interval, t as int),
    {
        let oc: Vec3 = ray.origin().sub(self.center);
        proof {
            lemma_dot_bound(ray.direction, ray.direction, RAY_DIR_MAX as int, RAY_DIR_MAX as int);
            lemma_dot_bound(oc, ray.direction, 402653184, RAY_DIR_MAX as int);
            lemma_dot_bound(oc, oc, 402653184, 402653184);
            lemma_fmul_bound(self.radius as int, self.radius as int, POINT_MAX as int, POINT_MAX as int);
            lemma_fmul_sign(self.radius as int, self.radius as int);
        }
        let a: i64 = ray.direction().norm_squared();
        if a < 1 {
            return None;
        }
        let b_halfs: i64 = oc.dot(ray.direction());
        let c: i64 = oc.norm_squared() - fp_mul(self.radius, self.radius);
        let mut discriminant = Discriminant::new(a, b_halfs, c);
        let d: i128 = discriminant.eval();
        if d >= 0 {
            self.root_impl(&mut discriminant, hit_interval)
        } else {
            None
        }
    }

    fn root_impl(&self, discriminant: &mut Discriminant, hit_interval: &Interval) -> (res: Option<
        i64,
    >)
        requires
            disc_wf(*old(discriminant)),
            1 <= old(discriminant).a,
            0 <= disc_of(
                old(discriminant).a as int,
                old(discriminant).b_halfs as int,
                old(discriminant).c as int,
            ),
        ensures
            res == root_sel_spec(
                old(discriminant).a as int,
                old(discriminant).b_halfs as int,
                old(discriminant).c as int,
                *hit_interval,
            ),
            res matches Some(t) ==> surrounds_spec(*hit_interval, t as int),
    {
        let d: i128 = discriminant.eval();
        let sd128: u128 = isqrt_u128(d as u128);
        proof {
            let ga = old(discriminant).a as int;
            let gh = old(discriminant).b_halfs as int;
            let gc = old(discriminant).c as int;
            assert(d as int <= 880000000000000000000000000) by (nonlinear_arith)
                requires
                    d as int == gh * gh - ga * gc,
                    iabs(ga) <= 60000000000000,
                    iabs(gh) <= 20000000000000,
                    iabs(gc) <= 8000000000000,
            ;
            assert(sd128 as int <= 30000000000000) by (nonlinear_arith)
                requires
                    (sd128 as int) * (sd128 as int) <= d as int,
                    d as int <= 880000000000000000000000000,
                    0 <= sd128,
            ;
        }
        let sqrtd: i64 = sd128 as i64;
        proof {
            lemma_fdiv_bound(
                -(discriminant.b_halfs as int + sqrtd as int),
                discriminant.a as int,
                QUAD_HS_MAX as int,
                1,
            );
            lemma_fdiv_bound(
                -(discriminant.b_halfs as int - sqrtd as int),
                discriminant.a as int,
                QUAD_HS_MAX as int,
                1,
            );
        }
        let root: i64 = fp_div(-(discriminant.b_halfs + sqrtd), discriminant.a);
        if hit_interval.surrounds(root) {
            Some(root)
        } else {
            let root2: i64 = fp_div(-(discriminant.b_halfs - sqrtd), discriminant.a);
            if hit_interval.surrounds(root2) {
                Some(root2)
            } else {
                None
            }
        }
    }
}

impl Hittable for Sphere {
    open spec fn wf(&self) -> bool {
        sphere_wf(*self)
    }

    open spec fn hit_spec(&self, ray: Ray, iv: Interval) -> Option<HitRecord> {
        sphere_hit_spec(*self, ray, iv)
    }

    fn hit(&self, ray: &Ray, hit_interval: &Interval) -> (res: Option<HitRecord>) {
        match self.root(ray, hit_interval) {
            Some(root) => {
                let t: i64 = root;
                let point: Vec3 = ray.at(t);
                if point.x < -POINT_MAX || point.x > POINT_MAX || point.y < -POINT_MAX || point.y
                    > POINT_MAX || point.z < -POINT_MAX || point.z > POINT_MAX {
                    return None;
                }
                let offset: Vec3 = point.sub(self.center);
                let ns: i64 = offset.norm_squared();
                if ns < 1 {
                    return None;
                }
                let un: Vec3 = offset.unit_vector();
                let normal: Vec3 = if self.radius > 0 {
                    un
                } else {
                    un.neg()
                };
                proof {
                    lemma_dot_bound(ray.direction, normal, RAY_DIR_MAX as int, 131072);
                }
                let facing: FacingDirection = if ray.direction().dot(&normal) < 0 {
                    FacingDirection::Front
                } else {
                    FacingDirection::Back
                };
                Some(HitRecord::new(point, normal, t, facing, self.material))
            },
            None => None,
        }
    }
}

} // verus!
