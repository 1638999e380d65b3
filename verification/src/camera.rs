//! The camera: an orthonormal viewing frame, a pixel grid and an
//! optional defocus disk, all derived once from the framing parameters.
//!
//! The half-angle tangents are evaluated with degree-5 polynomial
//! approximations of sine and cosine; the contract states the exact
//! fixed-point value of that approximation.

use vstd::prelude::*;
use crate::fixed::{
    SCALE, iabs, fmul, fdiv, fsqrt, fp_mul, fp_div, lemma_fmul_bound, lemma_fmul_sign,
    lemma_fdiv_bound, lemma_fdiv_sign, lemma_fdiv_scaled_down, lemma_div_upper,
    lemma_sqrt_floor_unique,
};
use vstd::arithmetic::div_mod::lemma_div_is_ordered;
use crate::vec3::{
    Vec3, bounded, unit_like, add_spec, sub_spec, neg_spec, scale_spec, cross_spec, nsq_spec,
    unit_spec, lemma_scale_bound, lemma_dot_bound,
};

verus! {

#[derive(Clone, Copy, Debug, PartialEq, Eq, Structural)]
pub struct CameraParameters {
    pub aspect_ratio: i64,
    pub image_width: u32,
    pub image_height: u32,
    pub vertical_fov: i64,
    pub samples_per_pixel: u32,
    pub max_ray_bounces: u32,
    pub defocus_angle: i64,
    pub focus_dist: i64,
}

/// Framing parameters the derivation accepts without overflow.
pub open spec fn params_wf(p: CameraParameters) -> bool {
    &&& 8192 <= p.aspect_ratio <= 262144
    &&& 16 <= p.image_width <= 4096
    &&& 1 <= p.image_height <= 32768
    &&& p.image_height == (p.image_width * 65536) as int / (p.aspect_ratio as int)
    &&& 65536 <= p.vertical_fov <= 7864320
    &&& 1 <= p.samples_per_pixel <= 4096
    &&& p.max_ray_bounces <= 64
    &&& 0 <= p.defocus_angle <= 1966080
    &&& 4096 <= p.focus_dist <= 2097152
}

impl CameraParameters {
    pub fn new(
        aspect_ratio: i64,
        image_width: u32,
        vertical_fov: i64,
        samples_per_pixel: u32,
        max_ray_bounces: u32,
        defocus_angle: i64,
        focus_dist: i64,
    ) -> (r: CameraParameters)
        requires
            8192 <= aspect_ratio <= 262144,
            16 <= image_width <= 4096,
            65536 <= vertical_fov <= 7864320,
            1 <= samples_per_pixel <= 4096,
            max_ray_bounces <= 64,
            0 <= defocus_angle <= 1966080,
            4096 <= focus_dist <= 2097152,
        ensures
            r == (CameraParameters {
                aspect_ratio,
                image_width,
                image_height: ((image_width as int * 65536) / (aspect_ratio as int)) as u32,
                vertical_fov,
                samples_per_pixel,
                max_ray_bounces,
                defocus_angle,
                focus_dist,
            }),
            params_wf(r),
    {
        let image_height: u32 = ((image_width as u64 * 65536) / (aspect_ratio as u64)) as u32;
        proof {
            lemma_div_upper(image_width as int * 65536, aspect_ratio as int, 32768);
            crate::fixed::lemma_div_lower_bound(
                image_width as int * 65536,
                aspect_ratio as int,
                1,
            );
        }
        CameraParameters {
            aspect_ratio,
            image_width,
            image_height,
            vertical_fov,
            samples_per_pixel,
            max_ray_bounces,
            defocus_angle,
            focus_dist,
        }
    }
}

#[derive(Clone, Copy, Debug, PartialEq, Eq, Structural)]
pub struct CameraFrame {
    pub u: Vec3,
    pub v: Vec3,
    pub w: Vec3,
    pub center: Vec3,
}

/// The orthonormal-by-construction viewing frame.
pub open spec fn frame_spec(lookfrom: Vec3, lookat: Vec3, vup: Vec3) -> CameraFrame {
    let w = unit_spec(sub_spec(lookfrom, lookat));
    let u = unit_spec(cross_spec(vup, w));
    let v = cross_spec(w, u);
    CameraFrame { u, v, w, center: lookfrom }
}

pub open spec fn frame_wf(f: CameraFrame) -> bool {
    unit_like(f.u) && unit_like(f.w) && bounded(f.v, 524288) && bounded(f.center, 67108864)
}

impl CameraFrame {
    pub fn new(lookfrom: Vec3, lookat: Vec3, vup: Vec3) -> (r: CameraFrame)
        requires
            bounded(lookfrom, 67108864),
            bounded(lookat, 67108864),
            bounded(vup, 262144),
            1 <= nsq_spec(sub_spec(lookfrom, lookat)),
            1 <= nsq_spec(cross_spec(vup, unit_spec(sub_spec(lookfrom, lookat)))),
        ensures
            r == frame_spec(lookfrom, lookat, vup),
            frame_wf(r),
    {
        let w: Vec3 = lookfrom.sub(lookat).unit_vector();
        proof {
            lemma_fmul_bound(vup.y as int, w.z as int, 262144, 131072);
            lemma_fmul_bound(vup.z as int, w.y as int, 262144, 131072);
            lemma_fmul_bound(vup.z as int, w.x as int, 262144, 131072);
            lemma_fmul_bound(vup.x as int, w.z as int, 262144, 131072);
            lemma_fmul_bound(vup.x as int, w.y as int, 262144, 131072);
            lemma_fmul_bound(vup.y as int, w.x as int, 262144, 131072);
        }
        let u: Vec3 = vup.cross(&w).unit_vector();
        let v: Vec3 = w.cross(&u);
        proof {
            lemma_fmul_bound(w.y as int, u.z as int, 131072, 131072);
            lemma_fmul_bound(w.z as int, u.y as int, 131072, 131072);
            lemma_fmul_bound(w.z as int, u.x as int, 131072, 131072);
            lemma_fmul_bound(w.x as int, u.z as int, 131072, 131072);
            lemma_fmul_bound(w.x as int, u.y as int, 131072, 131072);
            lemma_fmul_bound(w.y as int, u.x as int, 131072, 131072);
        }
        CameraFrame { u, v, w, center: lookfrom }
    }
}

#[derive(Clone, Copy, Debug, PartialEq, Eq, Structural)]
pub struct DefocusDisk {
    pub u: Vec3,
    pub v: Vec3,
}

impl DefocusDisk {
    pub fn new(u: Vec3, v: Vec3) -> (r: DefocusDisk)
        ensures
            r == (DefocusDisk { u, v }),
    {
        DefocusDisk { u, v }
    }
}

/// A per-pixel delta obtained by dividing a bounded viewport extent over
/// at least four pixels stays small.
proof fn lemma_pixel_delta_bound(q: int, w: int, vmax: int)
    requires
        0 <= q,
        4 <= w,
        q * w <= vmax,
        vmax <= 134217728,
    ensures
        q <= 33554432,
{
    assert(q <= 33554432) by (nonlinear_arith)
        requires
            0 <= q,
            4 <= w,
            q * w <= vmax,
            vmax <= 134217728,
    ;
}

/// Degree-5 small-angle approximation of `tan(angle / 2)`, the angle in
/// degrees at fixed-point scale.
pub open spec fn tan_half_spec(angle: int) -> int {
    let x = fmul(angle, 572);
    let x2 = fmul(x, x);
    let x3 = fmul(x2, x);
    let x5 = fmul(x3, x2);
    let x4 = fmul(x2, x2);
    let sinp = x - x3 / 6 + x5 / 120;
    let cosp = SCALE as int - x2 / 2 + x4 / 24;
    fdiv(sinp, cosp)
}

/// `tan(angle/2)` for `angle` degrees in `[0, 120]`; exact per
/// `tan_half_spec`, never negative, at most 4.
pub fn tan_half(angle: i64) -> (r: i64)
    requires
        0 <= angle <= 7864320,
    ensures
        r == tan_half_spec(angle as int),
        0 <= r <= 262144,
{
    proof {
        lemma_fmul_bound(angle as int, 572, 7864320, 572);
        lemma_fmul_sign(angle as int, 572);
    }
    let x: i64 = fp_mul(angle, 572);
    proof {
        lemma_fmul_bound(x as int, x as int, 68640, 68640);
        lemma_fmul_sign(x as int, x as int);
    }
    let x2: i64 = fp_mul(x, x);
    proof {
        lemma_fmul_bound(x2 as int, x as int, 71891, 68640);
        lemma_fmul_sign(x2 as int, x as int);
    }
    let x3: i64 = fp_mul(x2, x);
    proof {
        lemma_fmul_bound(x3 as int, x2 as int, 75295, 71891);
        lemma_fmul_sign(x3 as int, x2 as int);
        lemma_fmul_bound(x2 as int, x2 as int, 71891, 71891);
        lemma_fmul_sign(x2 as int, x2 as int);
    }
    let x5: i64 = fp_mul(x3, x2);
    let x4: i64 = fp_mul(x2, x2);
    let t3: i64 = ((x3 as u64) / 6) as i64;
    let t5: i64 = ((x5 as u64) / 120) as i64;
    let sinp: i64 = x - t3 + t5;
    let h2: i64 = ((x2 as u64) / 2) as i64;
    let h4: i64 = ((x4 as u64) / 24) as i64;
    let cosp: i64 = SCALE - h2 + h4;
    proof {
        // The subtracted cubic term never exceeds the linear one.
        assert((x3 as int) * 65536 <= (x2 as int) * (x as int)) by {
            crate::fixed::lemma_tdiv_bound(x2 as int * x as int, 65536, x2 as int * x as int);
            vstd::arithmetic::div_mod::lemma_fundamental_div_mod(x2 as int * x as int, 65536);
            assert((x3 as int) * 65536 <= (x2 as int) * (x as int)) by (nonlinear_arith)
                requires
                    x3 as int == (x2 as int * x as int) / 65536,
                    x2 as int * x as int == 65536 * ((x2 as int * x as int) / 65536) + (x2 as int
                        * x as int) % 65536,
                    0 <= (x2 as int * x as int) % 65536,
            ;
        }
        assert(x3 as int <= 2 * (x as int)) by (nonlinear_arith)
            requires
                (x3 as int) * 65536 <= (x2 as int) * (x as int),
                0 <= x2 as int <= 71891,
                0 <= x as int,
        ;
        lemma_div_is_ordered(x3 as int, 2 * (x as int), 6);
        lemma_div_upper(2 * (x as int), 6, x as int);
        lemma_div_is_ordered(x3 as int, 75295, 6);
        lemma_div_is_ordered(x5 as int, 82596, 120);
        lemma_div_is_ordered(x4 as int, 78862, 24);
        // The cosine stays well above zero on the admitted range.
        lemma_div_is_ordered(x2 as int, 71891, 2);
        lemma_fdiv_bound(sinp as int, cosp as int, 69330, 29591);
        lemma_fdiv_sign(sinp as int, cosp as int);
    }
    fp_div(sinp, cosp)
}

#[derive(Clone, Copy, Debug, PartialEq, Eq, Structural)]
pub struct Camera {
    pub zero: Vec3,
    pub du: Vec3,
    pub dv: Vec3,
    pub samples_per_pixel: u32,
    pub max_ray_bounces: u32,
    pub defocus_angle: i64,
    pub frame: CameraFrame,
    pub defocus_disk: DefocusDisk,
    pub image_width: u32,
    pub image_height: u32,
}

/// A camera the renderer accepts: the pixel grid stays inside the ray
/// bounds across the whole image.
pub open spec fn camera_wf(c: Camera) -> bool {
    &&& bounded(c.zero, 268435456)
    &&& iabs(c.du.x as int) * (c.image_width as int) <= 134217728
    &&& iabs(c.du.y as int) * (c.image_width as int) <= 134217728
    &&& iabs(c.du.z as int) * (c.image_width as int) <= 134217728
    &&& iabs(c.dv.x as int) * (c.image_height as int) <= 134217728
    &&& iabs(c.dv.y as int) * (c.image_height as int) <= 134217728
    &&& iabs(c.dv.z as int) * (c.image_height as int) <= 134217728
    &&& bounded(c.frame.center, 67108864)
    &&& bounded(c.defocus_disk.u, 16777216)
    &&& bounded(c.defocus_disk.v, 67108864)
    &&& 1 <= c.samples_per_pixel <= 4096
    &&& c.max_ray_bounces <= 64
    &&& 16 <= c.image_width <= 4096
    &&& 1 <= c.image_height <= 32768
}

/// Every derived field of the camera, exactly.
pub open spec fn camera_new_spec(params: CameraParameters, frame: CameraFrame) -> Camera {
    let h = tan_half_spec(params.vertical_fov as int);
    let viewport_height = fmul(2 * h, params.focus_dist as int);
    let viewport_width = fmul(viewport_height, params.aspect_ratio as int);
    let viewport_u = scale_spec(viewport_width, frame.u);
    let viewport_v = scale_spec(viewport_height, neg_spec(frame.v));
    let wfp = (params.image_width as int) * (SCALE as int);
    let hfp = (params.image_height as int) * (SCALE as int);
    let du = Vec3 {
        x: fdiv(viewport_u.x as int, wfp) as i64,
        y: fdiv(viewport_u.y as int, wfp) as i64,
        z: fdiv(viewport_u.z as int, wfp) as i64,
    };
    let dv = Vec3 {
        x: fdiv(viewport_v.x as int, hfp) as i64,
        y: fdiv(viewport_v.y as int, hfp) as i64,
        z: fdiv(viewport_v.z as int, hfp) as i64,
    };
    let viewport_ul = sub_spec(
        sub_spec(frame.center, scale_spec(params.focus_dist as int, frame.w)),
        scale_spec(32768, add_spec(viewport_u, viewport_v)),
    );
    let zero = add_spec(viewport_ul, scale_spec(32768, add_spec(du, dv)));
    let defocus_radius = fmul(params.focus_dist as int, tan_half_spec(params.defocus_angle as int));
    Camera {
        zero,
        du,
        dv,
        samples_per_pixel: params.samples_per_pixel,
        max_ray_bounces: params.max_ray_bounces,
        defocus_angle: params.defocus_angle,
        frame,
        defocus_disk: DefocusDisk {
            u: scale_spec(defocus_radius, frame.u),
            v: scale_spec(defocus_radius, frame.v),
        },
        image_width: params.image_width,
        image_height: params.image_height,
    }
}

impl Default for Camera {
    /// The reference framing: a 1280-wide 16:9 image, a 20-degree
    /// vertical field of view focused at distance 10, a 0.6-degree
    /// defocus cone, looking at the origin from (13, 2, 3).
    fn default() -> (r: Camera)
        ensures
            camera_wf(r),
            r.samples_per_pixel == 100,
            r.max_ray_bounces == 10,
            r.image_width == 1280,
    {
        let params = CameraParameters::new(116508, 1280, 1310720, 100, 10, 39322, 655360);
        let lookfrom = Vec3::new(851968, 131072, 196608);
        let lookat = Vec3::new(0, 0, 0);
        let vup = Vec3::new(0, 65536, 0);
        proof {
            let d = sub_spec(lookfrom, lookat);
            assert(d == (Vec3 { x: 851968i64, y: 131072i64, z: 196608i64 }));
            assert(851968 * 851968 == 725849473024int && 131072 * 131072 == 17179869184int
                && 196608 * 196608 == 38654705664int) by (nonlinear_arith);
            assert(725849473024int / 65536 == 11075584int);
            assert(17179869184int / 65536 == 262144int);
            assert(38654705664int / 65536 == 589824int);
            assert(nsq_spec(d) == 11927552);
            assert(884128nat * 884128nat == 781682320384nat && 884129nat * 884129nat
                == 781684088641nat) by (nonlinear_arith);
            lemma_sqrt_floor_unique(781684047872nat, 884128nat);
            assert(11927552 * 65536 == 781684047872int) by (nonlinear_arith);
            assert(fsqrt(11927552) == 884128);
            let w = unit_spec(d);
            assert(851968 * 65536 == 55834574848int && 131072 * 65536 == 8589934592int && 196608
                * 65536 == 12884901888int) by (nonlinear_arith);
            assert(55834574848int / 884128 == 63152int);
            assert(8589934592int / 884128 == 9715int);
            assert(12884901888int / 884128 == 14573int);
            assert(w == (Vec3 { x: 63152i64, y: 9715i64, z: 14573i64 }));
            let c = cross_spec(vup, w);
            assert(65536 * 14573 == 955056128int && 65536 * 63152 == 4138729472int && 65536 * 9715
                == 636682240int) by (nonlinear_arith);
            assert(955056128int / 65536 == 14573int);
            assert(4138729472int / 65536 == 63152int);
            assert(c == (Vec3 { x: 14573i64, y: 0i64, z: -63152i64 }));
            assert(14573 * 14573 == 212372329int && 63152 * 63152 == 3988175104int
                && (-63152) * (-63152) == 3988175104int) by (nonlinear_arith);
            assert(212372329int / 65536 == 3240int);
            assert(3988175104int / 65536 == 60854int);
            assert(nsq_spec(c) == 64094);
        }
        let frame = CameraFrame::new(lookfrom, lookat, vup);
        Camera::new(params, frame)
    }
}

impl Camera {
    #[verifier::rlimit(100)]
    pub fn new(params: CameraParameters, frame: CameraFrame) -> (cam: Camera)
        requires
            params_wf(params),
            frame_wf(frame),
        ensures
            cam == camera_new_spec(params, frame),
            camera_wf(cam),
    {
        let samples_per_pixel: u32 = params.samples_per_pixel;
        let max_ray_bounces: u32 = params.max_ray_bounces;
        let defocus_angle: i64 = params.defocus_angle;

        let h: i64 = tan_half(params.vertical_fov);
        proof {
            lemma_fmul_bound(2 * h as int, params.focus_dist as int, 524288, 2097152);
            lemma_fmul_sign(2 * h as int, params.focus_dist as int);
        }
        let viewport_height: i64 = fp_mul(2 * h, params.focus_dist);
        proof {
            lemma_fmul_bound(viewport_height as int, params.aspect_ratio as int, 16777216, 262144);
        }
        let viewport_width: i64 = fp_mul(viewport_height, params.aspect_ratio);

        proof {
            lemma_scale_bound(viewport_width as int, frame.u, 67108864, 131072);
            lemma_scale_bound(viewport_height as int, neg_spec(frame.v), 16777216, 524288);
        }
        let viewport_u: Vec3 = frame.u.scale(viewport_width);
        let viewport_v: Vec3 = frame.v.neg().scale(viewport_height);

        let wfp: i64 = (params.image_width as i64) * SCALE;
        let hfp: i64 = (params.image_height as i64) * SCALE;
        proof {
            crate::fixed::lemma_div_lower_bound(
                params.image_width as int * 65536,
                params.aspect_ratio as int,
                4,
            );
            lemma_fdiv_scaled_down(viewport_u.x as int, params.image_width as int);
            lemma_fdiv_scaled_down(viewport_u.y as int, params.image_width as int);
            lemma_fdiv_scaled_down(viewport_u.z as int, params.image_width as int);
            lemma_fdiv_scaled_down(viewport_v.x as int, params.image_height as int);
            lemma_fdiv_scaled_down(viewport_v.y as int, params.image_height as int);
            lemma_fdiv_scaled_down(viewport_v.z as int, params.image_height as int);
            lemma_pixel_delta_bound(
                iabs(fdiv(viewport_u.x as int, params.image_width as int * 65536)),
                params.image_width as int,
                iabs(viewport_u.x as int),
            );
            lemma_pixel_delta_bound(
                iabs(fdiv(viewport_u.y as int, params.image_width as int * 65536)),
                params.image_width as int,
                iabs(viewport_u.y as int),
            );
            lemma_pixel_delta_bound(
                iabs(fdiv(viewport_u.z as int, params.image_width as int * 65536)),
                params.image_width as int,
                iabs(viewport_u.z as int),
            );
            lemma_pixel_delta_bound(
                iabs(fdiv(viewport_v.x as int, params.image_height as int * 65536)),
                params.image_height as int,
                iabs(viewport_v.x as int),
            );
            lemma_pixel_delta_bound(
                iabs(fdiv(viewport_v.y as int, params.image_height as int * 65536)),
                params.image_height as int,
                iabs(viewport_v.y as int),
            );
            lemma_pixel_delta_bound(
                iabs(fdiv(viewport_v.z as int, params.image_height as int * 65536)),
                params.image_height as int,
                iabs(viewport_v.z as int),
            );
        }
        let du: Vec3 = Vec3::new(
            fp_div(viewport_u.x, wfp),
            fp_div(viewport_u.y, wfp),
            fp_div(viewport_u.z, wfp),
        );
        let dv: Vec3 = Vec3::new(
            fp_div(viewport_v.x, hfp),
            fp_div(viewport_v.y, hfp),
            fp_div(viewport_v.z, hfp),
        );

        proof {
            lemma_scale_bound(params.focus_dist as int, frame.w, 2097152, 131072);
            lemma_scale_bound(
                32768,
                add_spec(viewport_u, viewport_v),
                32768,
                268435456,
            );
            lemma_scale_bound(32768, add_spec(du, dv), 32768, 67108864);
        }
        let viewport_ul: Vec3 = frame.center.sub(frame.w.scale(params.focus_dist)).sub(
            viewport_u.add(viewport_v).scale(32768),
        );
        let zero: Vec3 = viewport_ul.add(du.add(dv).scale(32768));

        let dt: i64 = tan_half(defocus_angle);
        proof {
            lemma_fmul_bound(params.focus_dist as int, dt as int, 2097152, 262144);
        }
        let defocus_radius: i64 = fp_mul(params.focus_dist, dt);
        proof {
            lemma_scale_bound(defocus_radius as int, frame.u, 8388608, 131072);
            lemma_scale_bound(defocus_radius as int, frame.v, 8388608, 524288);
        }
        let defocus_disk = DefocusDisk::new(
            frame.u.scale(defocus_radius),
            frame.v.scale(defocus_radius),
        );
        Camera {
            zero,
            du,
            dv,
            samples_per_pixel,
            max_ray_bounces,
            defocus_angle,
            frame,
            defocus_disk,
            image_width: params.image_width,
            image_height: params.image_height,
        }
    }
}

} // verus!
