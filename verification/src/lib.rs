//! A recursive Monte Carlo path tracer with a verified core.
//!
//! All geometry and radiometry is carried out in fixed-point arithmetic:
//! an `i64` raw value `v` stands for the real number `v / SCALE`.  Every
//! operation of the pipeline — ray/sphere intersection, material
//! scattering, camera ray generation and pixel accumulation — is specified
//! exactly over that representation and proved free of overflow.

pub mod camera;
pub mod decimal;
pub mod fixed;
pub mod hit_record;
pub mod hittable;
pub mod hittable_list;
pub mod image;
pub mod interval;
pub mod material;
pub mod pixel;
pub mod ray;
pub mod renderer;
pub mod rng;
pub mod sphere;
pub mod vec3;
