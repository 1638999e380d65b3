//! The renderer: per-pixel multi-sample accumulation over recursive ray
//! color evaluation, producing one output line per pixel in row-major
//! order (top row first).

use vstd::prelude::*;
use crate::fixed::{SCALE, iabs, fmul, lemma_fmul_le_one};
use crate::vec3::{Vec3, bounded, add_spec, scale_spec, lemma_scale_bound};
use crate::ray::{Ray, ray_wf, T_MAX};
use crate::interval::Interval;
use crate::hittable::Hittable;
use crate::camera::{Camera, camera_wf};
use crate::image::{Image, image_wf};
use crate::pixel::{Pixel, pixel01, line_spec, from_miss_spec};
use crate::material::{Material, Scatter};
use crate::rng::rng_next_u16;

verus! {

pub struct Renderer {
    pub camera: Camera,
    pub image: Image,
}

pub open spec fn renderer_wf(r: Renderer) -> bool {
    camera_wf(r.camera) && image_wf(r.image) && r.camera.image_width == r.image.width
        && r.camera.image_height == r.image.height
}

/// A line some displayable pixel prints as.
pub open spec fn is_pixel_line(s: Seq<char>) -> bool {
    exists|p: Pixel| pixel01(p) && s == line_spec(p)
}

impl Renderer {
    pub fn new(camera: Camera, image: Image) -> (r: Renderer)
        requires
            camera_wf(camera),
            image_wf(image),
            camera.image_width == image.width,
            camera.image_height == image.height,
        ensures
            r == (Renderer { camera, image }),
            renderer_wf(r),
    {
        Renderer { camera, image }
    }

    /// Renders the scene: one line per pixel, `width * height` lines in
    /// row-major order, each the text of a displayable pixel.
    pub fn render<T: Hittable>(&self, obj: &T, rng: &mut rand::rngs::StdRng) -> (lines: Vec<
        String,
    >)
        requires
            renderer_wf(*self),
            obj.wf(),
        ensures
            lines@.len() == (self.image.height as int) * (self.image.width as int),
            forall|k: int| 0 <= k < lines@.len() ==> is_pixel_line(#[trigger] lines@[k]@),
    {
        let mut lines: Vec<String> = Vec::new();
        let mut j: u32 = 0;
        while j < self.image.height
            invariant
                renderer_wf(*self),
                obj.wf(),
                0 <= j <= self.image.height,
                lines@.len() == (j as int) * (self.image.width as int),
                forall|k: int| 0 <= k < lines@.len() ==> is_pixel_line(#[trigger] lines@[k]@),
            decreases self.image.height - j,
        {
            let mut i: u32 = 0;
            while i < self.image.width
                invariant
                    renderer_wf(*self),
                    obj.wf(),
                    0 <= j < self.image.height,
                    0 <= i <= self.image.width,
                    lines@.len() == (j as int) * (self.image.width as int) + i as int,
                    forall|k: int| 0 <= k < lines@.len() ==> is_pixel_line(#[trigger] lines@[k]@),
                decreases self.image.width - i,
            {
                proof {
                    lemma_pixel_center_bound(
                        i as int,
                        self.camera.image_width as int,
                        self.camera.du.x as int,
                    );
                    lemma_pixel_center_bound(
                        i as int,
                        self.camera.image_width as int,
                        self.camera.du.y as int,
                    );
                    lemma_pixel_center_bound(
                        i as int,
                        self.camera.image_width as int,
                        self.camera.du.z as int,
                    );
                    lemma_pixel_center_bound(
                        j as int,
                        self.camera.image_height as int,
                        self.camera.dv.x as int,
                    );
                    lemma_pixel_center_bound(
                        j as int,
                        self.camera.image_height as int,
                        self.camera.dv.y as int,
                    );
                    lemma_pixel_center_bound(
                        j as int,
                        self.camera.image_height as int,
                        self.camera.dv.z as int,
                    );
                }
                let iu: Vec3 = self.camera.du.scale((i as i64) * SCALE);
                let jv: Vec3 = self.camera.dv.scale((j as i64) * SCALE);
                let pixel_center: Vec3 = self.camera.zero.add(iu).add(jv);
                let pixel: Pixel = self.sample_pixel(&pixel_center, obj, rng);
                let line: String = pixel.to_string();
                proof {
                    assert(is_pixel_line(line@)) by {
                        assert(pixel01(pixel) && line@ == line_spec(pixel));
                    }
                }
                lines.push(line);
                i = i + 1;
                proof {
                    assert(lines@.len() == (j as int) * (self.image.width as int) + i as int);
                }
            }
            j = j + 1;
            proof {
                assert((j as int) * (self.image.width as int) == (j as int - 1) * (
                self.image.width as int) + self.image.width as int) by (nonlinear_arith);
            }
        }
        lines
    }

    /// Averages `samples_per_pixel` stochastic radiance samples for one
    /// pixel; the result is displayable.
    fn sample_pixel<T: Hittable>(
        &self,
        pixel_center: &Vec3,
        obj: &T,
        rng: &mut rand::rngs::StdRng,
    ) -> (p: Pixel)
        requires
            renderer_wf(*self),
            obj.wf(),
            bounded(*pixel_center, 536870912),
        ensures
            pixel01(p),
    {
        let n: u32 = self.camera.samples_per_pixel;
        let mut acc: Pixel = Pixel::default();
        let mut s: u32 = 0;
        while s < n
            invariant
                renderer_wf(*self),
                obj.wf(),
                bounded(*pixel_center, 536870912),
                n == self.camera.samples_per_pixel,
                0 <= s <= n,
                0 <= acc.r <= (s as int) * (SCALE as int),
                0 <= acc.g <= (s as int) * (SCALE as int),
                0 <= acc.b <= (s as int) * (SCALE as int),
            decreases n - s,
        {
            let ray: Ray = self.perturbed_ray(pixel_center, rng);
            let sample: Pixel = self.color_ray(&ray, obj, self.camera.max_ray_bounces, rng);
            proof {
                assert((s as int) * 65536 + 65536 == (s as int + 1) * 65536) by (nonlinear_arith);
                assert((s as int + 1) * 65536 <= 4096 * 65536) by (nonlinear_arith)
                    requires
                        s as int + 1 <= 4096,
                ;
            }
            acc = acc.add(sample);
            s = s + 1;
        }
        proof {
            assert((n as int) * 65536 <= 4096 * 65536) by (nonlinear_arith)
                requires
                    n <= 4096,
            ;
        }
        acc.normalize(n)
    }

    /// The color carried by one ray: the sky gradient on a miss, black
    /// on absorption or an exhausted bounce budget, and the scattered
    /// color attenuated channel-wise otherwise.
    fn color_ray<T: Hittable>(
        &self,
        ray: &Ray,
        obj: &T,
        depth: u32,
        rng: &mut rand::rngs::StdRng,
    ) -> (p: Pixel)
        requires
            obj.wf(),
            ray_wf(*ray),
        ensures
            pixel01(p),
            depth == 0 ==> p == (Pixel { r: 0, g: 0, b: 0 }),
            depth > 0 && obj.hit_spec(*ray, Interval { lb: 66, ub: T_MAX }) is None ==> p
                == from_miss_spec(ray.direction),
        decreases depth,
    {
        if depth == 0 {
            return Pixel::default();
        }
        // The lower bound rejects self-intersections at the new ray's
        // origin; the upper bound is the world's far clip.
        let window: Interval = Interval::new(66, T_MAX);
        match obj.hit(ray, &window) {
            Some(record) => match Material::scatter(ray, &record, rng) {
                Some(res) => {
                    let rec_color: Pixel = self.color_ray(&res.ray, obj, depth - 1, rng);
                    proof {
                        lemma_fmul_le_one(res.attenuation.r as int, rec_color.r as int);
                        lemma_fmul_le_one(res.attenuation.g as int, rec_color.g as int);
                        lemma_fmul_le_one(res.attenuation.b as int, rec_color.b as int);
                    }
                    res.attenuation.mul(rec_color)
                },
                None => Pixel::default(),
            },
            None => Pixel::from_miss(ray.direction()),
        }
    }

    /// A camera ray for the given pixel center: jittered inside the
    /// pixel, starting at the camera center or a defocus-disk sample.
    fn perturbed_ray(&self, pixel_center: &Vec3, rng: &mut rand::rngs::StdRng) -> (r: Ray)
        requires
            renderer_wf(*self),
            bounded(*pixel_center, 536870912),
        ensures
            ray_wf(r),
            self.camera.defocus_angle <= 0 ==> r.origin == self.camera.frame.center,
    {
        let perturbed_center: Vec3 = self.perturb(pixel_center, rng);
        let origin: Vec3 = if self.camera.defocus_angle <= 0 {
            self.camera.frame.center
        } else {
            self.defocus_disk_sample(rng)
        };
        let direction: Vec3 = perturbed_center.sub(origin);
        Ray::new(origin, direction)
    }

    /// A point on the camera's defocus disk.
    fn defocus_disk_sample(&self, rng: &mut rand::rngs::StdRng) -> (r: Vec3)
        requires
            renderer_wf(*self),
        ensures
            bounded(r, 251658240),
            exists|px: i64, py: i64|
                #![trigger scale_spec(px as int, self.camera.defocus_disk.u), scale_spec(py as int, self.camera.defocus_disk.v)]
                fmul(px as int, px as int) + fmul(py as int, py as int) <= SCALE as int && r
                    == add_spec(
                    add_spec(
                        self.camera.frame.center,
                        scale_spec(px as int, self.camera.defocus_disk.u),
                    ),
                    scale_spec(py as int, self.camera.defocus_disk.v),
                ),
    {
        let p: Vec3 = Vec3::random_in_unit_disk(rng);
        proof {
            lemma_scale_bound(p.x as int, self.camera.defocus_disk.u, 65536, 16777216);
            lemma_scale_bound(p.y as int, self.camera.defocus_disk.v, 65536, 67108864);
        }
        let r: Vec3 = self.camera.frame.center.add(self.camera.defocus_disk.u.scale(p.x)).add(
            self.camera.defocus_disk.v.scale(p.y),
        );
        proof {
            assert(fmul(p.x as int, p.x as int) + fmul(p.y as int, p.y as int) <= SCALE as int && r
                == add_spec(
                add_spec(
                    self.camera.frame.center,
                    scale_spec(p.x as int, self.camera.defocus_disk.u),
                ),
                scale_spec(p.y as int, self.camera.defocus_disk.v),
            ));
        }
        r
    }

    /// The pixel center jittered by up to half a pixel in each direction.
    fn perturb(&self, vec: &Vec3, rng: &mut rand::rngs::StdRng) -> (r: Vec3)
        requires
            renderer_wf(*self),
            bounded(*vec, 536870912),
        ensures
            bounded(r, 805306368),
            exists|pu: i64, pv: i64|
                #![trigger scale_spec(pu as int, self.camera.du), scale_spec(pv as int, self.camera.dv)]
                -32768 <= pu <= 32767 && -32768 <= pv <= 32767 && r == add_spec(
                    add_spec(*vec, scale_spec(pu as int, self.camera.du)),
                    scale_spec(pv as int, self.camera.dv),
                ),
    {
        let pu: i64 = (rng_next_u16(rng) as i64) - 32768;
        let pv: i64 = (rng_next_u16(rng) as i64) - 32768;
        proof {
            lemma_du_small(iabs(self.camera.du.x as int), self.camera.image_width as int);
            lemma_du_small(iabs(self.camera.du.y as int), self.camera.image_width as int);
            lemma_du_small(iabs(self.camera.du.z as int), self.camera.image_width as int);
            lemma_du_small(iabs(self.camera.dv.x as int), self.camera.image_height as int);
            lemma_du_small(iabs(self.camera.dv.y as int), self.camera.image_height as int);
            lemma_du_small(iabs(self.camera.dv.z as int), self.camera.image_height as int);
            lemma_scale_bound(pu as int, self.camera.du, 32768, 134217728);
            lemma_scale_bound(pv as int, self.camera.dv, 32768, 134217728);
        }
        let r: Vec3 = vec.add(self.camera.du.scale(pu)).add(self.camera.dv.scale(pv));
        proof {
            assert(-32768 <= pu <= 32767 && -32768 <= pv <= 32767 && r == add_spec(
                add_spec(*vec, scale_spec(pu as int, self.camera.du)),
                scale_spec(pv as int, self.camera.dv),
            ));
        }
        r
    }
}

/// Within the image, a pixel index times its delta is an exact product
/// and stays within the grid extent.
proof fn lemma_pixel_center_bound(i: int, w: int, d: int)
    requires
        0 <= i < w,
        iabs(d) * w <= 134217728,
    ensures
        fmul(i * 65536, d) == i * d,
        iabs(i * d) <= 134217728,
{
    crate::fixed::lemma_fmul_scale_assoc(i, d);
    assert(iabs(i * d) == i * iabs(d)) by (nonlinear_arith)
        requires
            0 <= i,
    ;
    assert(iabs(i * d) <= 134217728) by (nonlinear_arith)
        requires
            0 <= i < w,
            0 <= iabs(d),
            iabs(d) * w <= 134217728,
            iabs(i * d) == i * iabs(d),
    ;
}

/// A pixel delta alone is bounded by the whole grid extent.
proof fn lemma_du_small(dm: int, w: int)
    requires
        0 <= dm,
        1 <= w,
        dm * w <= 134217728,
    ensures
        dm <= 134217728,
{
    assert(dm <= 134217728) by (nonlinear_arith)
        requires
            0 <= dm,
            1 <= w,
            dm * w <= 134217728,
    ;
}

} // verus!
