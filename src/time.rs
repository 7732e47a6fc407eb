use vstd::prelude::*;

verus! {

/// Number of time units (picoseconds) in one second.
pub const PICOS_PER_SEC: u64 = 1_000_000_000_000;

/// A point in simulated time, or a span of it, counted in picoseconds.
///
/// Time is logical: it only moves when the scheduler hands out the next event.
#[derive(Clone, Copy, Debug, PartialEq, Eq, Structural, PartialOrd, Ord, Hash)]
pub struct Time(pub u64);

/// The later of two instants.
pub open spec fn later(a: int, b: int) -> int {
    if a >= b {
        a
    } else {
        b
    }
}

impl Time {
    /// The later of `self` and `other`.
    pub fn max(self, other: Time) -> (r: Time)
        ensures
            r.0 == later(self.0 as int, other.0 as int),
    {
        if self.0 >= other.0 {
            self
        } else {
            other
        }
    }
}

} // verus!
