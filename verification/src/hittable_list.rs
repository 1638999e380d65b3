//! The scene: an insertion-ordered collection of primitives whose hit
//! test scans every object and keeps the closest intersection.

use vstd::prelude::*;
use crate::sphere::{Sphere, sphere_wf};
use crate::hittable::Hittable;
use crate::ray::{Ray, ray_wf, T_MAX};
use crate::interval::{Interval, surrounds_spec};
use crate::hit_record::{HitRecord, rec_wf};

verus! {

pub struct HittableList {
    pub objects: Vec<Sphere>,
}

/// The record after scanning the first `n` objects: the hit with the
/// least `t`, earlier objects winning ties.
pub open spec fn list_hit_prefix_spec(
    objs: Seq<Sphere>,
    ray: Ray,
    iv: Interval,
    n: int,
) -> Option<HitRecord>
    decreases n,
{
    if n <= 0 {
        None
    } else {
        let prev = list_hit_prefix_spec(objs, ray, iv, n - 1);
        match objs[n - 1].hit_spec(ray, iv) {
            Some(rec) => match prev {
                Some(best) => if (rec.t as int) < (best.t as int) {
                    Some(rec)
                } else {
                    Some(best)
                },
                None => Some(rec),
            },
            None => prev,
        }
    }
}

impl HittableList {
    pub fn new() -> (r: HittableList)
        ensures
            r.objects@ == Seq::<Sphere>::empty(),
    {
        HittableList { objects: Vec::new() }
    }

    /// Only well-formed spheres enter the scene, so that the scan's
    /// contract holds of every element.
    pub fn push(&mut self, obj: Sphere)
        requires
            sphere_wf(obj),
        ensures
            final(self).objects@ == old(self).objects@.push(obj),
    {
        self.objects.push(obj);
    }

    pub fn pop(&mut self) -> (r: Option<Sphere>)
        ensures
            old(self).objects@.len() > 0 ==> r == Some(old(self).objects@[old(
                self,
            ).objects@.len() - 1]) && final(self).objects@ == old(self).objects@.subrange(
                0,
                old(self).objects@.len() - 1,
            ),
            old(self).objects@.len() == 0 ==> r == None::<Sphere> && final(self).objects@ == old(
                self,
            ).objects@,
    {
        self.objects.pop()
    }

    pub fn clear(&mut self)
        ensures
            final(self).objects@ == Seq::<Sphere>::empty(),
    {
        self.objects.clear();
    }
}

impl Hittable for HittableList {
    open spec fn wf(&self) -> bool {
        forall|i: int|
            0 <= i < self.objects@.len() ==> sphere_wf(#[trigger] self.objects@[i])
    }

    open spec fn hit_spec(&self, ray: Ray, iv: Interval) -> Option<HitRecord> {
        list_hit_prefix_spec(self.objects@, ray, iv, self.objects@.len() as int)
    }

    /// Scans all objects — never short-circuits — and returns the
    /// closest accepted intersection.
    fn hit(&self, ray: &Ray, hit_interval: &Interval) -> (res: Option<HitRecord>) {
        let mut best: Option<HitRecord> = None;
        let mut i: usize = 0;
        while i < self.objects.len()
            invariant
                0 <= i <= self.objects.len(),
                best == list_hit_prefix_spec(self.objects@, *ray, *hit_interval, i as int),
                best matches Some(rec) ==> rec_wf(rec) && surrounds_spec(
                    *hit_interval,
                    rec.t as int,
                ),
                self.wf(),
                ray_wf(*ray),
                0 <= hit_interval.lb,
                hit_interval.ub <= T_MAX,
            decreases self.objects.len() - i,
        {
            let cur: Option<HitRecord> = self.objects[i].hit(ray, hit_interval);
            match cur {
                Some(rec) => {
                    best = match best {
                        Some(b) => if rec.t < b.t {
                            Some(rec)
                        } else {
                            Some(b)
                        },
                        None => Some(rec),
                    };
                },
                None => {},
            }
            i = i + 1;
        }
        best
    }
}

/// The scan is exhaustive and minimal: whenever any object in the first
/// `n` reports a hit, the scan's result exists and has a `t` no larger
/// than that hit's.
pub proof fn lemma_list_hit_minimal(objs: Seq<Sphere>, ray: Ray, iv: Interval, n: int, i: int)
    requires
        0 <= i < n,
        n <= objs.len(),
    ensures
        match (list_hit_prefix_spec(objs, ray, iv, n), objs[i].hit_spec(ray, iv)) {
            (Some(best), Some(r)) => best.t <= r.t,
            (None, Some(r)) => false,
            _ => true,
        },
    decreases n,
{
    if i < n - 1 {
        lemma_list_hit_minimal(objs, ray, iv, n - 1, i);
    }
}

} // verus!
