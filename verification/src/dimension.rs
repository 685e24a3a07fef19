//! The values that the grammar produces.

use vstd::prelude::*;
use crate::duration::CycleValue;
use crate::duration::DurationValue;
use crate::duration::RelativeMinuteValue;
use crate::duration::UnitOfDurationValue;
use crate::number::NumberValue;
use crate::number::OrdinalValue;
use crate::time::TimeValue;

verus! {

/// A value of one of the categories of the grammar.
#[derive(Debug, PartialEq, Eq)]
pub enum Dimension {
    Number(NumberValue),
    Ordinal(OrdinalValue),
    Time(TimeValue),
    Duration(DurationValue),
    Cycle(CycleValue),
    UnitOfDuration(UnitOfDurationValue),
    RelativeMinute(RelativeMinuteValue),
}

/// The category of a value.
#[derive(Clone, Copy, Debug, PartialEq, Eq, Structural)]
pub enum DimensionKind {
    Number,
    Ordinal,
    Time,
    Duration,
    Cycle,
    UnitOfDuration,
    RelativeMinute,
}

impl Dimension {
    /// Whether the value is well formed: a fraction has a positive denominator,
    /// and the fields of a time lie within their ranges.
    pub open spec fn wf(self) -> bool {
        match self {
            Dimension::Number(n) => n.wf(),
            Dimension::Time(t) => t.wf(),
            _ => true,
        }
    }

    /// The category of the value.
    pub open spec fn kind_of(self) -> DimensionKind {
        match self {
            Dimension::Number(_) => DimensionKind::Number,
            Dimension::Ordinal(_) => DimensionKind::Ordinal,
            Dimension::Time(_) => DimensionKind::Time,
            Dimension::Duration(_) => DimensionKind::Duration,
            Dimension::Cycle(_) => DimensionKind::Cycle,
            Dimension::UnitOfDuration(_) => DimensionKind::UnitOfDuration,
            Dimension::RelativeMinute(_) => DimensionKind::RelativeMinute,
        }
    }

    /// Whether the value is a guess that needs more context to surface.
    pub open spec fn is_latent(self) -> bool {
        match self {
            Dimension::Time(t) => t.latent,
            _ => false,
        }
    }

    /// The category of the value.
    pub fn kind(&self) -> (k: DimensionKind)
        ensures
            k == self.kind_of(),
    {
        match self {
            Dimension::Number(_) => DimensionKind::Number,
            Dimension::Ordinal(_) => DimensionKind::Ordinal,
            Dimension::Time(_) => DimensionKind::Time,
            Dimension::Duration(_) => DimensionKind::Duration,
            Dimension::Cycle(_) => DimensionKind::Cycle,
            Dimension::UnitOfDuration(_) => DimensionKind::UnitOfDuration,
            Dimension::RelativeMinute(_) => DimensionKind::RelativeMinute,
        }
    }

    /// Whether the value is a guess that needs more context to surface.
    pub fn latent(&self) -> (b: bool)
        ensures
            b == self.is_latent(),
    {
        match self {
            Dimension::Time(t) => t.latent,
            _ => false,
        }
    }

    /// A copy of the value.
    pub fn copy(&self) -> (d: Dimension)
        ensures
            d == *self,
    {
        match self {
            Dimension::Number(v) => Dimension::Number(*v),
            Dimension::Ordinal(v) => Dimension::Ordinal(*v),
            Dimension::Time(v) => Dimension::Time(v.copy()),
            Dimension::Duration(v) => Dimension::Duration(*v),
            Dimension::Cycle(v) => Dimension::Cycle(*v),
            Dimension::UnitOfDuration(v) => Dimension::UnitOfDuration(*v),
            Dimension::RelativeMinute(v) => Dimension::RelativeMinute(*v),
        }
    }

    /// Whether two values are the same value.
    pub fn same(&self, other: &Dimension) -> (r: bool)
        ensures
            r == (*self == *other),
    {
        match self {
            Dimension::Number(a) => match other {
                Dimension::Number(b) => *a == *b,
                _ => false,
            },
            Dimension::Ordinal(a) => match other {
                Dimension::Ordinal(b) => *a == *b,
                _ => false,
            },
            Dimension::Time(a) => match other {
                Dimension::Time(b) => a.same(b),
                _ => false,
            },
            Dimension::Duration(a) => match other {
                Dimension::Duration(b) => *a == *b,
                _ => false,
            },
            Dimension::Cycle(a) => match other {
                Dimension::Cycle(b) => *a == *b,
                _ => false,
            },
            Dimension::UnitOfDuration(a) => match other {
                Dimension::UnitOfDuration(b) => *a == *b,
                _ => false,
            },
            Dimension::RelativeMinute(a) => match other {
                Dimension::RelativeMinute(b) => *a == *b,
                _ => false,
            },
        }
    }
}

impl Clone for Dimension {
    fn clone(&self) -> (d: Dimension)
        ensures
            d == *self,
    {
        self.copy()
    }
}

impl DimensionKind {
    /// The kinds in their usual order of priority.
    pub open spec fn every() -> Seq<DimensionKind> {
        seq![
            DimensionKind::Number,
            DimensionKind::Ordinal,
            DimensionKind::Duration,
            DimensionKind::Time,
            DimensionKind::Cycle,
            DimensionKind::UnitOfDuration,
            DimensionKind::RelativeMinute,
        ]
    }

    /// The kinds in their usual order of priority.
    pub fn all() -> (v: Vec<DimensionKind>)
        ensures
            v@ == Self::every(),
    {
        let mut v: Vec<DimensionKind> = Vec::new();
        v.push(DimensionKind::Number);
        v.push(DimensionKind::Ordinal);
        v.push(DimensionKind::Duration);
        v.push(DimensionKind::Time);
        v.push(DimensionKind::Cycle);
        v.push(DimensionKind::UnitOfDuration);
        v.push(DimensionKind::RelativeMinute);
        v
    }
}

} // verus!
