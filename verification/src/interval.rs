//! Closed numeric ranges over fixed-point scalars, used to bound valid ray
//! parameters and to clamp color channels.

use vstd::prelude::*;
use crate::fixed::{sub_raw, Fx};

verus! {

/// Strict two-sided containment over raw scalars.
pub open spec fn surrounds_raw(min: int, max: int, x: int) -> bool {
    min < x && x < max
}

/// Inclusive two-sided containment over raw scalars.
pub open spec fn contains_raw(min: int, max: int, x: int) -> bool {
    min <= x && x <= max
}

/// Clamping of a raw scalar into `[min, max]`.
pub open spec fn clamp_raw(min: int, max: int, x: int) -> int {
    if x < min {
        min
    } else if x > max {
        max
    } else {
        x
    }
}

/// A closed range of fixed-point scalars. The empty interval runs from the
/// largest scalar down to the smallest (the fixed-point stand-ins for the
/// infinities), the universe the other way around.
#[derive(Clone, Copy, Debug, PartialEq, Eq, Structural)]
pub struct Interval {
    pub min: Fx,
    pub max: Fx,
}

impl Interval {
    /// The empty interval.
    pub fn new_empty() -> (r: Interval)
        ensures
            r.min.raw == i64::MAX,
            r.max.raw == i64::MIN,
    {
        Interval { min: Fx { raw: i64::MAX }, max: Fx { raw: i64::MIN } }
    }

    /// The interval with the given bounds.
    pub fn new(min: Fx, max: Fx) -> (r: Interval)
        ensures
            r == (Interval { min, max }),
    {
        Interval { min, max }
    }

    /// The length of the interval.
    pub fn size(&self) -> (r: Fx)
        ensures
            r.raw as int == sub_raw(self.max.raw as int, self.min.raw as int),
    {
        self.max.sub(self.min)
    }

    /// Inclusive containment on both sides.
    pub fn contains(&self, x: Fx) -> (r: bool)
        ensures
            r == contains_raw(self.min.raw as int, self.max.raw as int, x.raw as int),
    {
        self.min.raw <= x.raw && x.raw <= self.max.raw
    }

    /// Strict containment on both sides, used to reject ray parameters that
    /// sit exactly on a boundary.
    pub fn surrounds(&self, x: Fx) -> (r: bool)
        ensures
            r == surrounds_raw(self.min.raw as int, self.max.raw as int, x.raw as int),
    {
        self.min.raw < x.raw && x.raw < self.max.raw
    }

    /// The scalar clamped into the interval.
    pub fn clamp(&self, x: Fx) -> (r: Fx)
        ensures
            r.raw as int == clamp_raw(self.min.raw as int, self.max.raw as int, x.raw as int),
    {
        if x.raw < self.min.raw {
            self.min
        } else if x.raw > self.max.raw {
            self.max
        } else {
            x
        }
    }
}

} // verus!
