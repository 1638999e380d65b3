//! Intersection records.
//!
//! The stored normal always opposes the incoming ray when the hit is
//! front-facing; the facing is decided at the intersection and recorded
//! explicitly, never re-derived.

use vstd::prelude::*;
use crate::vec3::{Vec3, bounded, unit_like, neg_spec};
use crate::material::{Material, material_wf};

verus! {

/// Bound on the components of any contact point kept by the tracer.
pub const POINT_MAX: i64 = 134217728;

#[derive(Clone, Copy, Debug, PartialEq, Eq, Structural)]
pub enum FacingDirection {
    Front,
    Back,
}

#[derive(Clone, Copy, Debug, PartialEq, Eq, Structural)]
pub struct HitRecord {
    pub point: Vec3,
    pub normal: Vec3,
    pub t: i64,
    pub facing: FacingDirection,
    pub material: Material,
}

/// A record the scattering routines accept: contact point inside the
/// world bounds, a normalised non-zero normal, a well-formed material.
pub open spec fn rec_wf(rec: HitRecord) -> bool {
    bounded(rec.point, POINT_MAX as int) && unit_like(rec.normal) && material_wf(rec.material)
}

/// The record built from a raw geometric normal: the normal is negated
/// for a back-facing hit so that it always opposes the incoming ray.
pub open spec fn hit_record_spec(
    point: Vec3,
    normal: Vec3,
    t: i64,
    facing: FacingDirection,
    material: Material,
) -> HitRecord {
    let oriented = match facing {
        FacingDirection::Front => normal,
        FacingDirection::Back => neg_spec(normal),
    };
    HitRecord { point, normal: oriented, t, facing, material }
}

impl HitRecord {
    pub fn new(
        point: Vec3,
        normal: Vec3,
        t: i64,
        facing: FacingDirection,
        material: Material,
    ) -> (r: HitRecord)
        requires
            normal.x > i64::MIN,
            normal.y > i64::MIN,
            normal.z > i64::MIN,
        ensures
            r == hit_record_spec(point, normal, t, facing, material),
    {
        let oriented = match facing {
            FacingDirection::Front => normal,
            FacingDirection::Back => normal.neg(),
        };
        HitRecord { point, normal: oriented, t, facing, material }
    }
}

} // verus!
