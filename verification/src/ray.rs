//! Rays: an origin, a direction and point-at-distance evaluation.

use vstd::prelude::*;
use crate::fixed::{fmul, lemma_fmul_bound};
use crate::vec3::{Vec3, bounded, add_spec, scale_spec};

verus! {

/// Far end of every hit window; roots beyond it are out of the world.
pub const T_MAX: i64 = 67108864;

/// Bound on the components of a ray origin.
pub const RAY_ORIGIN_MAX: i64 = 268435456;

/// Bound on the components of a ray direction.
pub const RAY_DIR_MAX: i64 = 1073741824;

#[derive(Clone, Copy, Debug, PartialEq, Eq, Structural)]
pub struct Ray {
    pub origin: Vec3,
    pub direction: Vec3,
}

/// A ray the intersection routines accept without overflow.
pub open spec fn ray_wf(r: Ray) -> bool {
    bounded(r.origin, RAY_ORIGIN_MAX as int) && bounded(r.direction, RAY_DIR_MAX as int)
}

/// `origin + t * direction`.
pub open spec fn at_spec(r: Ray, t: int) -> Vec3 {
    add_spec(r.origin, scale_spec(t, r.direction))
}

impl Ray {
    pub fn new(origin: Vec3, direction: Vec3) -> (r: Ray)
        ensures
            r == (Ray { origin, direction }),
    {
        Ray { origin, direction }
    }

    pub fn origin(&self) -> (r: &Vec3)
        ensures
            r == self.origin,
    {
        &self.origin
    }

    pub fn direction(&self) -> (r: &Vec3)
        ensures
            r == self.direction,
    {
        &self.direction
    }

    /// The point at parametric distance `t` along the ray.
    pub fn at(&self, t: i64) -> (r: Vec3)
        requires
            ray_wf(*self),
            0 <= t <= T_MAX,
        ensures
            r == at_spec(*self, t as int),
            bounded(r, RAY_ORIGIN_MAX as int + T_MAX as int * RAY_DIR_MAX as int / 65536),
    {
        proof {
            lemma_fmul_bound(t as int, self.direction.x as int, T_MAX as int, RAY_DIR_MAX as int);
            lemma_fmul_bound(t as int, self.direction.y as int, T_MAX as int, RAY_DIR_MAX as int);
            lemma_fmul_bound(t as int, self.direction.z as int, T_MAX as int, RAY_DIR_MAX as int);
        }
        self.origin.add(self.direction.scale(t))
    }
}

} // verus!
