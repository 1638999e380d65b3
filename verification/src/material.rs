//! Material scattering: diffuse, reflective and dielectric surfaces.
//!
//! Each scattering routine is split in two: a deterministic core that
//! takes the random draw as an argument and is specified exactly, and a
//! sampling wrapper that draws from the generator and guarantees the
//! core's contract for some admissible draw.

use vstd::prelude::*;
use crate::fixed::{
    SCALE, iabs, fmul, fdiv, fsqrt, fp_mul, fp_div, fp_sqrt, lemma_fmul_bound, lemma_fdiv_bound,
    lemma_fmul_sign, lemma_fmul_zero,
};
use crate::vec3::{
    Vec3, bounded, unit_like, add_spec, sub_spec, neg_spec, scale_spec, dot_spec, nsq_spec,
    unit_spec, near_zero_spec, lemma_scale_bound, lemma_dot_bound,
};
use crate::ray::{Ray, ray_wf};
use crate::hit_record::{HitRecord, FacingDirection, rec_wf};
use crate::pixel::{Pixel, pixel01, clamp01_spec};
use crate::interval::Interval;

verus! {

/// Bound on the components of any scattered direction.
pub const SCATTER_DIR_MAX: i64 = 67108864;

#[derive(Clone, Copy, Debug, PartialEq, Eq, Structural)]
pub enum Material {
    Lambertian(Pixel),
    Metal(Pixel, i64),
    Dielectric(i64),
}

/// Admissible materials: albedos inside `[0, 1]`, refractive indices
/// inside `[1/4, 4]`.
pub open spec fn material_wf(m: Material) -> bool {
    match m {
        Material::Lambertian(albedo) => pixel01(albedo),
        Material::Metal(albedo, _fuzz) => pixel01(albedo),
        Material::Dielectric(idx) => 16384 <= idx <= 262144,
    }
}

#[derive(Clone, Copy, Debug, PartialEq, Eq, Structural)]
pub enum ScatterMode {
    Reflect,
    Refract,
    Absorb,
}

#[derive(Clone, Copy, Debug, PartialEq, Eq, Structural)]
pub struct ScatterResult {
    pub ray: Ray,
    pub attenuation: Pixel,
}

impl ScatterResult {
    pub fn new(ray: Ray, attenuation: Pixel) -> (r: ScatterResult)
        ensures
            r == (ScatterResult { ray, attenuation }),
    {
        ScatterResult { ray, attenuation }
    }
}

/// Mirror reflection about a normal: `v - 2 (v . n) n`.
pub open spec fn reflect_spec(v: Vec3, n: Vec3) -> Vec3 {
    sub_spec(v, scale_spec(2 * dot_spec(v, n), n))
}

/// Snell refraction split into perpendicular and parallel parts.
pub open spec fn refract_spec(uv: Vec3, n: Vec3, ratio: int) -> Vec3 {
    let cos = cos_against_spec(n, uv);
    let perp = scale_spec(ratio, add_spec(uv, scale_spec(cos, n)));
    let para = scale_spec(-fsqrt(iabs(SCALE as int - nsq_spec(perp))), n);
    add_spec(perp, para)
}

/// `min(n . (-uv), 1)`: the cosine against the oriented normal.
pub open spec fn cos_against_spec(n: Vec3, uv: Vec3) -> int {
    let d = dot_spec(n, neg_spec(uv));
    if d > SCALE as int {
        SCALE as int
    } else {
        d
    }
}

pub open spec fn pow5_spec(x: int) -> int {
    fmul(fmul(fmul(fmul(x, x), x), x), x)
}

/// Schlick's reflectance approximation over the refraction ratio.
pub open spec fn schlick_spec(cosine: int, ratio: int) -> int {
    let r0 = fdiv(SCALE as int - ratio, SCALE as int + ratio);
    let r0sq = fmul(r0, r0);
    r0sq + fmul(SCALE as int - r0sq, pow5_spec(SCALE as int - cosine))
}

/// `1/index` entering the front face, `index` leaving through the back.
pub open spec fn refraction_ratio_spec(rec: HitRecord, idx: i64) -> int {
    match rec.facing {
        FacingDirection::Front => fdiv(SCALE as int, idx as int),
        FacingDirection::Back => idx as int,
    }
}

pub open spec fn dielectric_cos_spec(ray: Ray, rec: HitRecord) -> int {
    cos_against_spec(rec.normal, unit_spec(ray.direction))
}

pub open spec fn dielectric_sin_spec(ray: Ray, rec: HitRecord) -> int {
    let cos = dielectric_cos_spec(ray, rec);
    fsqrt(iabs(SCALE as int - fmul(cos, cos)))
}

/// Diffuse scattering for the drawn unit vector `u`: direction
/// `normal + u`, or the normal alone when that sum degenerates.
pub open spec fn lambertian_spec(rec: HitRecord, albedo: Pixel, u: Vec3) -> ScatterResult {
    let d0 = add_spec(rec.normal, u);
    let dir = if near_zero_spec(d0) {
        rec.normal
    } else {
        d0
    };
    ScatterResult { ray: Ray { origin: rec.point, direction: dir }, attenuation: albedo }
}

/// Fuzzy mirror scattering for the drawn unit vector `u`; absorbed when
/// the perturbed reflection does not leave the surface.
pub open spec fn metal_spec(ray: Ray, rec: HitRecord, albedo: Pixel, fuzz: i64, u: Vec3) -> Option<
    ScatterResult,
> {
    if nsq_spec(ray.direction) < 1 {
        None
    } else {
        let v = unit_spec(ray.direction);
        let dir = add_spec(reflect_spec(v, rec.normal), scale_spec(clamp01_spec(fuzz as int), u));
        if dot_spec(dir, rec.normal) > 0 {
            Some(
                ScatterResult { ray: Ray { origin: rec.point, direction: dir }, attenuation: albedo },
            )
        } else {
            None
        }
    }
}

/// Dielectric scattering for the drawn reflectance threshold: reflect on
/// total internal reflection or a draw below the Schlick reflectance,
/// refract otherwise; the attenuation is always full transmission.
pub open spec fn dielectric_spec(ray: Ray, rec: HitRecord, idx: i64, draw: int) -> Option<
    ScatterResult,
> {
    if nsq_spec(ray.direction) < 1 {
        None
    } else {
        let ratio = refraction_ratio_spec(rec, idx);
        let u = unit_spec(ray.direction);
        let cos = dielectric_cos_spec(ray, rec);
        let sin = dielectric_sin_spec(ray, rec);
        let dir = if fmul(ratio, sin) > SCALE as int || schlick_spec(cos, ratio) > draw {
            reflect_spec(u, rec.normal)
        } else {
            refract_spec(u, rec.normal, ratio)
        };
        Some(
            ScatterResult {
                ray: Ray { origin: rec.point, direction: dir },
                attenuation: Pixel { r: SCALE, g: SCALE, b: SCALE },
            },
        )
    }
}

/// What every scatter result guarantees: the new ray starts at the hit
/// point, its direction is bounded, the attenuation is displayable.
pub open spec fn scatter_ok(rec: HitRecord, res: Option<ScatterResult>) -> bool {
    match res {
        Some(sr) => sr.ray.origin == rec.point && bounded(sr.ray.direction, SCATTER_DIR_MAX as int)
            && pixel01(sr.attenuation),
        None => true,
    }
}

/// The scattering contract: the result is the variant's deterministic
/// core applied to some admissible random draw.
pub open spec fn scatter_post(ray: Ray, rec: HitRecord, res: Option<ScatterResult>) -> bool {
    scatter_ok(rec, res) && match rec.material {
        Material::Lambertian(albedo) => exists|u: Vec3|
            unit_like(u) && res == Some(lambertian_spec(rec, albedo, u)),
        Material::Metal(albedo, fuzz) => exists|u: Vec3|
            unit_like(u) && res == metal_spec(ray, rec, albedo, fuzz, u),
        Material::Dielectric(idx) => exists|draw: int|
            0 <= draw < SCALE as int && res == dielectric_spec(ray, rec, idx, draw),
    }
}

pub trait Scatter {
    fn scatter(ray: &Ray, record: &HitRecord, rng: &mut rand::rngs::StdRng) -> (res: Option<
        ScatterResult,
    >)
        requires
            ray_wf(*ray),
            rec_wf(*record),
        ensures
            scatter_post(*ray, *record, res),
    ;
}

impl Scatter for Material {
    fn scatter(ray: &Ray, record: &HitRecord, rng: &mut rand::rngs::StdRng) -> (res: Option<
        ScatterResult,
    >) {
        match record.material {
            Material::Lambertian(albedo) => Material::lambertian_impl(record, albedo, rng),
            Material::Metal(albedo, fuzz) => Material::metal_impl(ray, record, albedo, fuzz, rng),
            Material::Dielectric(refr_index) => Material::dielectric_impl(
                ray,
                record,
                refr_index,
                rng,
            ),
        }
    }
}

impl Material {
    /// Mirror reflection about `n`.
    pub fn reflect(v: &Vec3, n: &Vec3) -> (r: Vec3)
        requires
            bounded(*v, 262144),
            bounded(*n, 262144),
        ensures
            r == reflect_spec(*v, *n),
            bounded(r, 25427968),
    {
        proof {
            lemma_dot_bound(*v, *n, 262144, 262144);
            lemma_scale_bound(2 * dot_spec(*v, *n), *n, 6291456, 262144);
        }
        let d: i64 = v.dot(n);
        v.sub(n.scale(2 * d))
    }

    /// Snell refraction of the unit direction `uv` about `n`.
    pub fn refract(uv: &Vec3, n: &Vec3, ratio: i64) -> (r: Vec3)
        requires
            bounded(*uv, 131072),
            bounded(*n, 131072),
            0 <= ratio <= 262144,
        ensures
            r == refract_spec(*uv, *n, ratio as int),
            bounded(r, 40370176),
    {
        proof {
            lemma_dot_bound(*n, neg_spec(*uv), 131072, 131072);
        }
        let d: i64 = n.dot(&uv.neg());
        let cos: i64 = if d > SCALE {
            SCALE
        } else {
            d
        };
        proof {
            lemma_scale_bound(cos as int, *n, 786432, 131072);
        }
        let inner: Vec3 = uv.add(n.scale(cos));
        proof {
            lemma_scale_bound(ratio as int, inner, 262144, 1703936);
        }
        let perp: Vec3 = inner.scale(ratio);
        proof {
            lemma_dot_bound(perp, perp, 6815744, 6815744);
            lemma_fmul_sign(perp.x as int, perp.x as int);
            lemma_fmul_sign(perp.y as int, perp.y as int);
            lemma_fmul_sign(perp.z as int, perp.z as int);
        }
        let ns: i64 = perp.norm_squared();
        let dsq: i64 = if SCALE - ns < 0 {
            ns - SCALE
        } else {
            SCALE - ns
        };
        let sq: i64 = fp_sqrt(dsq);
        proof {
            assert(sq as int <= 16777216) by (nonlinear_arith)
                requires
                    (sq as int) * (sq as int) <= (dsq as int) * 65536,
                    0 <= dsq <= 2126512129,
                    0 <= sq,
            ;
            lemma_scale_bound(-(sq as int), *n, 16777216, 131072);
        }
        let para: Vec3 = n.scale(-sq);
        perp.add(para)
    }

    /// Schlick's reflectance approximation.
    pub fn schlick_reflectance(cosine: i64, refraction_index: i64) -> (r: i64)
        requires
            -786432 <= cosine <= 65536,
            16384 <= refraction_index <= 262144,
        ensures
            r == schlick_spec(cosine as int, refraction_index as int),
    {
        proof {
            lemma_fdiv_bound(
                SCALE as int - refraction_index as int,
                SCALE as int + refraction_index as int,
                196608,
                81920,
            );
        }
        let r0: i64 = fp_div(SCALE - refraction_index, SCALE + refraction_index);
        proof {
            lemma_fmul_bound(r0 as int, r0 as int, 157286, 157286);
            lemma_fmul_sign(r0 as int, r0 as int);
        }
        let r0sq: i64 = fp_mul(r0, r0);
        let x: i64 = SCALE - cosine;
        proof {
            lemma_fmul_bound(x as int, x as int, 851968, 851968);
            lemma_fmul_bound(fmul(x as int, x as int), x as int, 11075584, 851968);
            lemma_fmul_bound(
                fmul(fmul(x as int, x as int), x as int),
                x as int,
                143982592,
                851968,
            );
            lemma_fmul_bound(
                fmul(fmul(fmul(x as int, x as int), x as int), x as int),
                x as int,
                1871773696,
                851968,
            );
            lemma_fmul_bound(SCALE as int - r0sq as int, pow5_spec(x as int), 377486, 24333058048);
        }
        let p2: i64 = fp_mul(x, x);
        let p3: i64 = fp_mul(p2, x);
        let p4: i64 = fp_mul(p3, x);
        let p5: i64 = fp_mul(p4, x);
        r0sq + fp_mul(SCALE - r0sq, p5)
    }

    /// Total internal reflection test: `ratio * sin > 1`.
    pub fn cannot_refract(sine: i64, refraction_index: i64) -> (r: bool)
        requires
            0 <= sine <= 851968,
            0 <= refraction_index <= 262144,
        ensures
            r == (fmul(refraction_index as int, sine as int) > SCALE as int),
    {
        proof {
            lemma_fmul_bound(refraction_index as int, sine as int, 262144, 851968);
        }
        fp_mul(refraction_index, sine) > SCALE
    }

    /// Reflect when the drawn threshold falls below the reflectance.
    pub fn should_reflect(cosine: i64, refraction_index: i64, draw: i64) -> (r: bool)
        requires
            -786432 <= cosine <= 65536,
            16384 <= refraction_index <= 262144,
        ensures
            r == (schlick_spec(cosine as int, refraction_index as int) > draw as int),
    {
        Material::schlick_reflectance(cosine, refraction_index) > draw
    }

    /// The mode a dielectric hit scatters with, given the drawn threshold.
    pub fn scatter_mode(sine: i64, cosine: i64, refraction_index: i64, draw: i64) -> (r:
        ScatterMode)
        requires
            0 <= sine <= 851968,
            -786432 <= cosine <= 65536,
            16384 <= refraction_index <= 262144,
        ensures
            r == (if fmul(refraction_index as int, sine as int) > SCALE as int || schlick_spec(
                cosine as int,
                refraction_index as int,
            ) > draw as int {
                ScatterMode::Reflect
            } else {
                ScatterMode::Refract
            }),
    {
        if Material::cannot_refract(sine, refraction_index) || Material::should_reflect(
            cosine,
            refraction_index,
            draw,
        ) {
            ScatterMode::Reflect
        } else {
            ScatterMode::Refract
        }
    }

    /// Diffuse scattering with the drawn unit vector supplied.
    pub fn lambertian_with(record: &HitRecord, albedo: Pixel, u: Vec3) -> (res: Option<
        ScatterResult,
    >)
        requires
            rec_wf(*record),
            pixel01(albedo),
            unit_like(u),
        ensures
            res == Some(lambertian_spec(*record, albedo, u)),
            scatter_ok(*record, res),
    {
        let d0: Vec3 = record.normal.add(u);
        let dir: Vec3 = if d0.near_zero() {
            record.normal
        } else {
            d0
        };
        Some(ScatterResult::new(Ray::new(record.point, dir), albedo))
    }

    fn lambertian_impl(record: &HitRecord, albedo: Pixel, rng: &mut rand::rngs::StdRng) -> (res:
        Option<ScatterResult>)
        requires
            rec_wf(*record),
            record.material == Material::Lambertian(albedo),
        ensures
            scatter_ok(*record, res),
            exists|u: Vec3| unit_like(u) && res == Some(lambertian_spec(*record, albedo, u)),
    {
        let u: Vec3 = Vec3::random_unit_vector(rng);
        let res = Material::lambertian_with(record, albedo, u);
        proof {
            assert(unit_like(u) && res == Some(lambertian_spec(*record, albedo, u)));
        }
        res
    }

    /// Fuzzy mirror scattering with the drawn unit vector supplied.
    pub fn metal_with(ray: &Ray, record: &HitRecord, albedo: Pixel, fuzz: i64, u: Vec3) -> (res:
        Option<ScatterResult>)
        requires
            ray_wf(*ray),
            rec_wf(*record),
            pixel01(albedo),
            unit_like(u),
        ensures
            res == metal_spec(*ray, *record, albedo, fuzz, u),
            scatter_ok(*record, res),
    {
        let ns: i64 = ray.direction().norm_squared();
        if ns < 1 {
            return None;
        }
        let v: Vec3 = ray.direction().unit_vector();
        let reflected: Vec3 = Material::reflect(&v, &record.normal);
        let fuzz_clamped: i64 = Interval::new(0, SCALE).clamp(fuzz);
        proof {
            lemma_scale_bound(fuzz_clamped as int, u, 65536, 131072);
        }
        let dir: Vec3 = reflected.add(u.scale(fuzz_clamped));
        proof {
            lemma_dot_bound(dir, record.normal, 25690112, 131072);
        }
        let d: i64 = dir.dot(&record.normal);
        if d > 0 {
            Some(ScatterResult::new(Ray::new(record.point, dir), albedo))
        } else {
            None
        }
    }

    fn metal_impl(
        ray: &Ray,
        record: &HitRecord,
        albedo: Pixel,
        fuzz: i64,
        rng: &mut rand::rngs::StdRng,
    ) -> (res: Option<ScatterResult>)
        requires
            ray_wf(*ray),
            rec_wf(*record),
            record.material == Material::Metal(albedo, fuzz),
        ensures
            scatter_post(*ray, *record, res),
    {
        let u: Vec3 = Vec3::random_unit_vector(rng);
        let res = Material::metal_with(ray, record, albedo, fuzz, u);
        proof {
            assert(unit_like(u) && res == metal_spec(*ray, *record, albedo, fuzz, u));
        }
        res
    }

    /// Dielectric scattering with the drawn reflectance threshold supplied.
    pub fn dielectric_with(ray: &Ray, record: &HitRecord, refraction_index: i64, draw: i64) -> (res:
        Option<ScatterResult>)
        requires
            ray_wf(*ray),
            rec_wf(*record),
            16384 <= refraction_index <= 262144,
        ensures
            res == dielectric_spec(*ray, *record, refraction_index, draw as int),
            scatter_ok(*record, res),
    {
        let ns: i64 = ray.direction().norm_squared();
        if ns < 1 {
            return None;
        }
        let attenuation = Pixel { r: SCALE, g: SCALE, b: SCALE };
        let refraction_ratio: i64 = match record.facing {
            FacingDirection::Front => fp_div(SCALE, refraction_index),
            FacingDirection::Back => refraction_index,
        };
        proof {
            assert(16384 <= fdiv(SCALE as int, refraction_index as int) <= 262144) by {
                lemma_fdiv_bound(SCALE as int, refraction_index as int, 65536, 16384);
                crate::fixed::lemma_fdiv_sign(SCALE as int, refraction_index as int);
                assert(16384 * (refraction_index as int) <= 65536 * 65536) by (nonlinear_arith)
                    requires
                        refraction_index <= 262144,
                ;
                crate::fixed::lemma_div_lower_bound(65536int * 65536int, refraction_index as int, 16384int);
            }
        }
        let unit_direction: Vec3 = ray.direction().unit_vector();
        proof {
            lemma_dot_bound(record.normal, neg_spec(unit_direction), 131072, 131072);
        }
        let d: i64 = record.normal.dot(&unit_direction.neg());
        let cos_theta: i64 = if d > SCALE {
            SCALE
        } else {
            d
        };
        proof {
            lemma_fmul_bound(cos_theta as int, cos_theta as int, 786432, 786432);
            lemma_fmul_sign(cos_theta as int, cos_theta as int);
        }
        let cc: i64 = fp_mul(cos_theta, cos_theta);
        let dsq: i64 = if SCALE - cc < 0 {
            cc - SCALE
        } else {
            SCALE - cc
        };
        let sin_theta: i64 = fp_sqrt(dsq);
        proof {
            assert(sin_theta as int <= 851968) by (nonlinear_arith)
                requires
                    (sin_theta as int) * (sin_theta as int) <= (dsq as int) * 65536,
                    0 <= dsq <= 9437184,
                    0 <= sin_theta,
            ;
        }
        match Material::scatter_mode(sin_theta, cos_theta, refraction_ratio, draw) {
            ScatterMode::Reflect => {
                let direction: Vec3 = Material::reflect(&unit_direction, &record.normal);
                Some(ScatterResult::new(Ray::new(record.point, direction), attenuation))
            },
            ScatterMode::Refract => {
                let direction: Vec3 = Material::refract(
                    &unit_direction,
                    &record.normal,
                    refraction_ratio,
                );
                Some(ScatterResult::new(Ray::new(record.point, direction), attenuation))
            },
            ScatterMode::Absorb => None,
        }
    }

    /// Diffuse scattering never absorbs the ray: whatever was drawn,
    /// the result carries a scattered ray and the albedo.
    pub proof fn lemma_lambertian_never_absorbs(
        ray: Ray,
        rec: HitRecord,
        res: Option<ScatterResult>,
    )
        requires
            scatter_post(ray, rec, res),
            rec.material matches Material::Lambertian(_),
        ensures
            res is Some,
    {
    }

    /// Fuzzy metal absorbs exactly the rays whose perturbed reflection
    /// fails to leave the surface (or whose incoming direction
    /// degenerates to zero at this resolution).
    pub proof fn lemma_metal_absorbs_iff(
        ray: Ray,
        rec: HitRecord,
        albedo: Pixel,
        fuzz: i64,
        u: Vec3,
    )
        ensures
            (metal_spec(ray, rec, albedo, fuzz, u) is None) <==> (nsq_spec(ray.direction) < 1
                || dot_spec(
                add_spec(
                    reflect_spec(unit_spec(ray.direction), rec.normal),
                    scale_spec(clamp01_spec(fuzz as int), u),
                ),
                rec.normal,
            ) <= 0),
    {
    }

    /// Under total internal reflection the dielectric reflects for every
    /// possible draw of the reflectance threshold: it never refracts.
    pub proof fn lemma_dielectric_total_internal_reflection(
        ray: Ray,
        rec: HitRecord,
        idx: i64,
        draw: int,
    )
        requires
            1 <= nsq_spec(ray.direction),
            fmul(refraction_ratio_spec(rec, idx), dielectric_sin_spec(ray, rec)) > SCALE as int,
        ensures
            dielectric_spec(ray, rec, idx, draw) == Some(
                ScatterResult {
                    ray: Ray {
                        origin: rec.point,
                        direction: reflect_spec(unit_spec(ray.direction), rec.normal),
                    },
                    attenuation: (Pixel { r: SCALE, g: SCALE, b: SCALE }),
                },
            ),
    {
    }

    /// Schlick reflectance at head-on incidence (`cosine = 1`) equals
    /// `r0 = ((1 - n) / (1 + n))^2` exactly: the angular term vanishes.
    pub proof fn lemma_schlick_head_on(ratio: int)
        ensures
            schlick_spec(SCALE as int, ratio) == fmul(
                fdiv(SCALE as int - ratio, SCALE as int + ratio),
                fdiv(SCALE as int - ratio, SCALE as int + ratio),
            ),
    {
        let r0 = fdiv(SCALE as int - ratio, SCALE as int + ratio);
        let r0sq = fmul(r0, r0);
        crate::fixed::lemma_fmul_zero(0);
        assert(pow5_spec(0) == 0);
        crate::fixed::lemma_fmul_zero(SCALE as int - r0sq);
    }

    fn dielectric_impl(
        ray: &Ray,
        record: &HitRecord,
        refraction_index: i64,
        rng: &mut rand::rngs::StdRng,
    ) -> (res: Option<ScatterResult>)
        requires
            ray_wf(*ray),
            rec_wf(*record),
            record.material == Material::Dielectric(refraction_index),
        ensures
            scatter_post(*ray, *record, res),
    {
        let draw: i64 = crate::rng::rng_next_u16(rng) as i64;
        let res = Material::dielectric_with(ray, record, refraction_index, draw);
        proof {
            assert(0 <= draw < SCALE as int && res == dielectric_spec(
                *ray,
                *record,
                refraction_index,
                draw as int,
            ));
        }
        res
    }
}

} // verus!
