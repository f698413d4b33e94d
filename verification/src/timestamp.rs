//! Timestamps in nanoseconds, with an explicit "none" sentinel (zero) for
//! environments without a clock source. Used for timeout comparisons.

use vstd::prelude::*;

verus! {

#[derive(Clone, Copy, Debug, PartialEq, Eq, Structural)]
pub struct Timestamp {
    pub nanos: u64,
}

impl Timestamp {
    /// A timestamp carries a clock reading exactly when it is not the
    /// sentinel.
    pub open spec fn spec_is_set(self) -> bool {
        self.nanos != 0
    }

    /// The "no timestamp" sentinel.
    pub fn none() -> (r: Timestamp)
        ensures
            r.nanos == 0,
            !r.spec_is_set(),
    {
        Timestamp { nanos: 0 }
    }

    /// Wraps a raw nanosecond count; zero is the sentinel.
    pub fn from_nanoseconds(nanos: u64) -> (r: Timestamp)
        ensures
            r == (Timestamp { nanos }),
    {
        Timestamp { nanos }
    }

    /// The raw nanosecond count; zero for the sentinel.
    pub fn nanoseconds(&self) -> (r: u64)
        ensures
            r == self.nanos,
    {
        self.nanos
    }

    /// Whether a clock reading is present.
    pub fn is_set(&self) -> (r: bool)
        ensures
            r == self.spec_is_set(),
    {
        self.nanos != 0
    }

    /// `self` is a strictly later clock reading than `other`; the sentinel
    /// never compares.
    pub open spec fn spec_after(self, other: Timestamp) -> bool {
        self.spec_is_set() && other.spec_is_set() && self.nanos > other.nanos
    }

    /// Decides whether `self` is strictly after `other`.
    pub fn after(&self, other: &Timestamp) -> (r: bool)
        ensures
            r == self.spec_after(*other),
    {
        self.nanos != 0 && other.nanos != 0 && self.nanos > other.nanos
    }
}

} // verus!
