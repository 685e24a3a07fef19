//! Calendar grains: the units in which times and durations are measured.

use vstd::prelude::*;

verus! {

/// A calendar unit, from the finest (`Second`) to the coarsest (`Year`).
#[derive(Clone, Copy, Debug, PartialEq, Eq, Structural)]
pub enum Grain {
    Second,
    Minute,
    Hour,
    Day,
    Week,
    Month,
    Quarter,
    Year,
}

impl Grain {
    /// Position of the grain in the order from finest to coarsest.
    pub open spec fn rank(self) -> int {
        match self {
            Grain::Second => 0,
            Grain::Minute => 1,
            Grain::Hour => 2,
            Grain::Day => 3,
            Grain::Week => 4,
            Grain::Month => 5,
            Grain::Quarter => 6,
            Grain::Year => 7,
        }
    }

    /// The finer of two grains.
    pub open spec fn finer_spec(self, other: Grain) -> Grain {
        if self.rank() <= other.rank() {
            self
        } else {
            other
        }
    }

    /// Position of the grain in the order from finest to coarsest.
    pub fn index(self) -> (r: u8)
        ensures
            r as int == self.rank(),
    {
        match self {
            Grain::Second => 0,
            Grain::Minute => 1,
            Grain::Hour => 2,
            Grain::Day => 3,
            Grain::Week => 4,
            Grain::Month => 5,
            Grain::Quarter => 6,
            Grain::Year => 7,
        }
    }

    /// The finer of two grains.
    pub fn finer(self, other: Grain) -> (r: Grain)
        ensures
            r == self.finer_spec(other),
    {
        if self.index() <= other.index() {
            self
        } else {
            other
        }
    }
}

/// Two grains with the same rank are the same grain.
pub proof fn lemma_rank_injective(a: Grain, b: Grain)
    requires
        a.rank() == b.rank(),
    ensures
        a == b,
{
}

} // verus!
