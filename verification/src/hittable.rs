//! The intersection capability: anything a ray can hit.
//!
//! Each implementor supplies its own well-formedness predicate and an
//! exact mathematical description of its hit test; the executable test
//! is proved to return precisely that description.

use vstd::prelude::*;
use crate::ray::{Ray, ray_wf, T_MAX};
use crate::interval::{Interval, surrounds_spec};
use crate::hit_record::{HitRecord, rec_wf};

verus! {

pub trait Hittable {
    /// The shapes this implementor admits without overflow.
    spec fn wf(&self) -> bool;

    /// Exactly which record, if any, the hit test returns.
    spec fn hit_spec(&self, ray: Ray, iv: Interval) -> Option<HitRecord>;

    /// The closest intersection with `ray` strictly inside the window,
    /// if one exists.
    fn hit(&self, ray: &Ray, hit_interval: &Interval) -> (res: Option<HitRecord>)
        requires
            self.wf(),
            ray_wf(*ray),
            0 <= hit_interval.lb,
            hit_interval.ub <= T_MAX,
        ensures
            res == self.hit_spec(*ray, *hit_interval),
            res matches Some(rec) ==> rec_wf(rec) && surrounds_spec(*hit_interval, rec.t as int),
    ;
}

} // verus!
