//! A numeric value that is kept inside a closed interval on every assignment.

use vstd::prelude::*;

verus! {

/// What `assign` stores: `value` pulled back into `[min, max]`.
///
/// The bounds are applied one after the other, low end first, so a crossed
/// interval (`min > max`) still yields a deterministic result.
pub open spec fn clamped(value: int, min: int, max: int) -> int {
    if value < min {
        min
    } else if value > max {
        max
    } else {
        value
    }
}

/// A value together with the interval it is clamped into.
///
/// Construction stores the initial value as given; only `assign` clamps.
pub struct ClampedValue {
    value: i64,
    min: i64,
    max: i64,
}

impl ClampedValue {
    pub closed spec fn spec_value(&self) -> i64 {
        self.value
    }

    pub closed spec fn spec_min(&self) -> i64 {
        self.min
    }

    pub closed spec fn spec_max(&self) -> i64 {
        self.max
    }

    pub fn new(value: i64, min: i64, max: i64) -> (r: Self)
        ensures
            r.spec_value() == value,
            r.spec_min() == min,
            r.spec_max() == max,
    {
        Self { value, min, max }
    }

    pub fn value(&self) -> (r: i64)
        ensures
            r == self.spec_value(),
    {
        self.value
    }

    /// Replaces the stored value by `value` clamped into the interval.
    pub fn assign(&mut self, value: i64)
        ensures
            final(self).spec_value() == clamped(
                value as int,
                old(self).spec_min() as int,
                old(self).spec_max() as int,
            ),
            final(self).spec_min() == old(self).spec_min(),
            final(self).spec_max() == old(self).spec_max(),
    {
        self.value = if value < self.min {
            self.min
        } else if value > self.max {
            self.max
        } else {
            value
        };
    }
}

} // verus!
