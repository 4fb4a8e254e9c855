//! Closed intervals of ray parameters.

use vstd::prelude::*;
use crate::fx::{Fx, spec_clamp};

verus! {

/// The closed interval `[min, max]`; `min > max` denotes the empty range.
#[derive(Clone, Copy, PartialEq, Eq, Structural, Debug)]
pub struct Interval {
    pub min: Fx,
    pub max: Fx,
}

impl Interval {
    /// The interval with the given endpoints.
    pub fn new(min: Fx, max: Fx) -> (r: Interval)
        ensures
            r == (Interval { min, max }),
    {
        Interval { min, max }
    }

    /// Length of the interval, `max - min`.
    pub fn size(&self) -> (r: Fx)
        requires
            i64::MIN <= self.max.raw - self.min.raw <= i64::MAX,
        ensures
            r.raw == self.max.raw - self.min.raw,
    {
        self.max.minus(self.min)
    }

    /// Whether the interval holds no point.
    pub fn is_empty(&self) -> (r: bool)
        ensures
            r == (self.min.raw > self.max.raw),
    {
        self.min.raw > self.max.raw
    }

    /// Whether `x` lies in the interval (endpoints included).
    pub fn contains(&self, x: Fx) -> (r: bool)
        ensures
            r == (self.min.raw <= x.raw && x.raw <= self.max.raw),
    {
        self.min.raw <= x.raw && x.raw <= self.max.raw
    }

    /// `x` clamped into `[min, max]`.
    pub fn clamp(x: Fx, min: Fx, max: Fx) -> (r: Fx)
        requires
            min.raw <= max.raw,
        ensures
            r.raw == spec_clamp(x.raw as int, min.raw as int, max.raw as int),
    {
        if x.raw < min.raw {
            return min;
        }
        if x.raw > max.raw {
            return max;
        }
        x
    }
}

} // verus!
