//! Closed numeric ranges, used both as hit-distance windows and as the
//! color clamp range.

use vstd::prelude::*;

verus! {

#[derive(Clone, Copy, Debug, PartialEq, Eq, Structural)]
pub struct Interval {
    pub lb: i64,
    pub ub: i64,
}

pub open spec fn contains_spec(iv: Interval, val: int) -> bool {
    iv.lb <= val <= iv.ub
}

pub open spec fn surrounds_spec(iv: Interval, val: int) -> bool {
    iv.lb < val < iv.ub
}

pub open spec fn clamp_spec(iv: Interval, val: int) -> int {
    if val < iv.lb {
        iv.lb as int
    } else if val > iv.ub {
        iv.ub as int
    } else {
        val
    }
}

impl Interval {
    pub fn new(lb: i64, ub: i64) -> (r: Interval)
        ensures
            r == (Interval { lb, ub }),
    {
        Interval { lb, ub }
    }

    pub fn clamp(&self, val: i64) -> (r: i64)
        ensures
            r == clamp_spec(*self, val as int),
    {
        if val < self.lb {
            self.lb
        } else if val > self.ub {
            self.ub
        } else {
            val
        }
    }

    /// Inclusive membership.
    pub fn contains(&self, val: i64) -> (r: bool)
        ensures
            r == contains_spec(*self, val as int),
    {
        val >= self.lb && val <= self.ub
    }

    /// Strict membership.
    pub fn surrounds(&self, val: i64) -> (r: bool)
        ensures
            r == surrounds_spec(*self, val as int),
    {
        val > self.lb && val < self.ub
    }
}

} // verus!
