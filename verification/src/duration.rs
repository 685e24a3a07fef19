//! Durations, units of duration, cycles and relative minutes.

use vstd::prelude::*;
use crate::grain::Grain;
use crate::number::Precision;

verus! {

/// A count for each grain. The counts are kept apart: one hour and sixty
/// minutes are different periods.
#[derive(Clone, Copy, Debug, PartialEq, Eq, Structural)]
pub struct Period {
    pub seconds: i64,
    pub minutes: i64,
    pub hours: i64,
    pub days: i64,
    pub weeks: i64,
    pub months: i64,
    pub quarters: i64,
    pub years: i64,
}

impl Period {
    /// The period of no length.
    pub open spec fn zero() -> Period {
        Period {
            seconds: 0,
            minutes: 0,
            hours: 0,
            days: 0,
            weeks: 0,
            months: 0,
            quarters: 0,
            years: 0,
        }
    }

    /// The count of one grain.
    pub open spec fn get(self, g: Grain) -> i64 {
        match g {
            Grain::Second => self.seconds,
            Grain::Minute => self.minutes,
            Grain::Hour => self.hours,
            Grain::Day => self.days,
            Grain::Week => self.weeks,
            Grain::Month => self.months,
            Grain::Quarter => self.quarters,
            Grain::Year => self.years,
        }
    }

    /// The period of `n` units of one grain.
    pub open spec fn single(g: Grain, n: i64) -> Period {
        match g {
            Grain::Second => Period { seconds: n, ..Self::zero() },
            Grain::Minute => Period { minutes: n, ..Self::zero() },
            Grain::Hour => Period { hours: n, ..Self::zero() },
            Grain::Day => Period { days: n, ..Self::zero() },
            Grain::Week => Period { weeks: n, ..Self::zero() },
            Grain::Month => Period { months: n, ..Self::zero() },
            Grain::Quarter => Period { quarters: n, ..Self::zero() },
            Grain::Year => Period { years: n, ..Self::zero() },
        }
    }

    /// The finest grain with a count other than zero; `Second` for the
    /// empty period.
    pub open spec fn finest(self) -> Grain {
        if self.seconds != 0 {
            Grain::Second
        } else if self.minutes != 0 {
            Grain::Minute
        } else if self.hours != 0 {
            Grain::Hour
        } else if self.days != 0 {
            Grain::Day
        } else if self.weeks != 0 {
            Grain::Week
        } else if self.months != 0 {
            Grain::Month
        } else if self.quarters != 0 {
            Grain::Quarter
        } else if self.years != 0 {
            Grain::Year
        } else {
            Grain::Second
        }
    }

    /// Every count lies strictly between minus and plus a million million.
    pub open spec fn bounded(self) -> bool {
        forall|g: Grain| -1000000000000 < #[trigger] self.get(g) < 1000000000000
    }

    /// The period of no length.
    pub fn empty() -> (p: Period)
        ensures
            p == Self::zero(),
    {
        Period {
            seconds: 0,
            minutes: 0,
            hours: 0,
            days: 0,
            weeks: 0,
            months: 0,
            quarters: 0,
            years: 0,
        }
    }

    /// The period of `n` units of one grain.
    pub fn of(g: Grain, n: i64) -> (p: Period)
        ensures
            p == Self::single(g, n),
    {
        let z = Period::empty();
        match g {
            Grain::Second => Period { seconds: n, ..z },
            Grain::Minute => Period { minutes: n, ..z },
            Grain::Hour => Period { hours: n, ..z },
            Grain::Day => Period { days: n, ..z },
            Grain::Week => Period { weeks: n, ..z },
            Grain::Month => Period { months: n, ..z },
            Grain::Quarter => Period { quarters: n, ..z },
            Grain::Year => Period { years: n, ..z },
        }
    }

    /// The count of one grain.
    pub fn count(&self, g: Grain) -> (n: i64)
        ensures
            n == self.get(g),
    {
        match g {
            Grain::Second => self.seconds,
            Grain::Minute => self.minutes,
            Grain::Hour => self.hours,
            Grain::Day => self.days,
            Grain::Week => self.weeks,
            Grain::Month => self.months,
            Grain::Quarter => self.quarters,
            Grain::Year => self.years,
        }
    }

    /// The finest grain with a count other than zero; `Second` for the empty
    /// period.
    pub fn finest_grain(&self) -> (g: Grain)
        ensures
            g == self.finest(),
    {
        if self.seconds != 0 {
            Grain::Second
        } else if self.minutes != 0 {
            Grain::Minute
        } else if self.hours != 0 {
            Grain::Hour
        } else if self.days != 0 {
            Grain::Day
        } else if self.weeks != 0 {
            Grain::Week
        } else if self.months != 0 {
            Grain::Month
        } else if self.quarters != 0 {
            Grain::Quarter
        } else if self.years != 0 {
            Grain::Year
        } else {
            Grain::Second
        }
    }

    /// Whether every count lies strictly between minus and plus a million
    /// million.
    pub fn is_bounded(&self) -> (r: bool)
        ensures
            r == self.bounded(),
    {
        let r = Self::within(self.seconds) && Self::within(self.minutes) && Self::within(
            self.hours,
        ) && Self::within(self.days) && Self::within(self.weeks) && Self::within(self.months)
            && Self::within(self.quarters) && Self::within(self.years);
        proof {
            if r {
                assert forall|g: Grain| -1000000000000 < #[trigger] self.get(g) < 1000000000000 by {
                    match g {
                        Grain::Second => {},
                        Grain::Minute => {},
                        Grain::Hour => {},
                        Grain::Day => {},
                        Grain::Week => {},
                        Grain::Month => {},
                        Grain::Quarter => {},
                        Grain::Year => {},
                    }
                }
            } else {
                assert(!Self::small(self.get(Grain::Second)) || !Self::small(
                    self.get(Grain::Minute),
                ) || !Self::small(self.get(Grain::Hour)) || !Self::small(self.get(Grain::Day))
                    || !Self::small(self.get(Grain::Week)) || !Self::small(self.get(Grain::Month))
                    || !Self::small(self.get(Grain::Quarter)) || !Self::small(
                    self.get(Grain::Year),
                ));
            }
        }
        r
    }

    /// Whether the count lies strictly between minus and plus a million
    /// million.
    pub open spec fn small(n: i64) -> bool {
        -1000000000000 < n < 1000000000000
    }

    fn within(n: i64) -> (r: bool)
        ensures
            r == Self::small(n),
    {
        -1000000000000 < n && n < 1000000000000
    }

    /// The period with every count negated.
    pub open spec fn opposite(self) -> Period {
        Period {
            seconds: (-self.seconds) as i64,
            minutes: (-self.minutes) as i64,
            hours: (-self.hours) as i64,
            days: (-self.days) as i64,
            weeks: (-self.weeks) as i64,
            months: (-self.months) as i64,
            quarters: (-self.quarters) as i64,
            years: (-self.years) as i64,
        }
    }

    /// The period with every count negated.
    pub fn negated(&self) -> (p: Period)
        requires
            self.bounded(),
        ensures
            p == self.opposite(),
            p.bounded(),
    {
        proof {
            assert(Self::small(self.get(Grain::Second)) && Self::small(self.get(Grain::Minute))
                && Self::small(self.get(Grain::Hour)) && Self::small(self.get(Grain::Day))
                && Self::small(self.get(Grain::Week)) && Self::small(self.get(Grain::Month))
                && Self::small(self.get(Grain::Quarter)) && Self::small(self.get(Grain::Year)));
        }
        let p = Period {
            seconds: -self.seconds,
            minutes: -self.minutes,
            hours: -self.hours,
            days: -self.days,
            weeks: -self.weeks,
            months: -self.months,
            quarters: -self.quarters,
            years: -self.years,
        };
        proof {
            assert forall|g: Grain| -1000000000000 < #[trigger] p.get(g) < 1000000000000 by {
                match g {
                    Grain::Second => {},
                    Grain::Minute => {},
                    Grain::Hour => {},
                    Grain::Day => {},
                    Grain::Week => {},
                    Grain::Month => {},
                    Grain::Quarter => {},
                    Grain::Year => {},
                }
            }
        }
        p
    }
}

/// A length of time.
#[derive(Clone, Copy, Debug, PartialEq, Eq, Structural)]
pub struct DurationValue {
    pub period: Period,
    pub precision: Precision,
}

impl DurationValue {
    /// The exact duration of a period.
    pub fn new(period: Period) -> (d: DurationValue)
        ensures
            d == (DurationValue { period, precision: Precision::Exact }),
    {
        DurationValue { period, precision: Precision::Exact }
    }

    /// The same duration with another precision.
    pub fn precision(self, precision: Precision) -> (d: DurationValue)
        ensures
            d == (DurationValue { period: self.period, precision }),
    {
        DurationValue { period: self.period, precision }
    }
}

/// A unit in which a duration is counted ("hours" in "three hours").
#[derive(Clone, Copy, Debug, PartialEq, Eq, Structural)]
pub struct UnitOfDurationValue {
    pub grain: Grain,
}

impl UnitOfDurationValue {
    /// The unit of a grain.
    pub fn new(grain: Grain) -> (u: UnitOfDurationValue)
        ensures
            u.grain == grain,
    {
        UnitOfDurationValue { grain }
    }
}

/// A unit that addresses a window of the calendar ("week" in "next week").
#[derive(Clone, Copy, Debug, PartialEq, Eq, Structural)]
pub struct CycleValue {
    pub grain: Grain,
}

impl CycleValue {
    /// The cycle of a grain.
    pub fn new(grain: Grain) -> (c: CycleValue)
        ensures
            c.grain == grain,
    {
        CycleValue { grain }
    }
}

/// Minutes before or after a full hour, from -59 to 59.
#[derive(Clone, Copy, Debug, PartialEq, Eq, Structural)]
pub struct RelativeMinuteValue {
    pub minutes: i64,
}

} // verus!
