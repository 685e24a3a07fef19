//! What a parse hands out: values resolved against a reference instant.

use vstd::prelude::*;
use crate::calendar::in_range;
use crate::calendar::moment_of;
use crate::calendar::Moment;
use crate::dimension::Dimension;
use crate::duration::DurationValue;
use crate::duration::Period;
use crate::grain::Grain;
use crate::number::NumberValue;
use crate::number::Precision;
use crate::resolve::anchor;
use crate::resolve::resolve;
use crate::resolve::Interval;
use crate::time::Direction;
use crate::time::TimeValue;
use crate::time::Weekday;

verus! {

/// A whole number.
#[derive(Clone, Copy, Debug, PartialEq, Eq, Structural)]
pub struct IntegerOutput(pub i64);

/// A fractional number as `numerator / denominator`.
#[derive(Clone, Copy, Debug, PartialEq, Eq, Structural)]
pub struct FloatOutput {
    pub numerator: i64,
    pub denominator: i64,
}

/// A position in a sequence, counted from 1.
#[derive(Clone, Copy, Debug, PartialEq, Eq, Structural)]
pub struct OrdinalOutput(pub i64);

/// One window of the calendar: the moment at which it begins and its grain.
#[derive(Clone, Copy, Debug, PartialEq, Eq, Structural)]
pub struct TimeOutput {
    pub moment: Moment,
    pub grain: Grain,
    pub precision: Precision,
}

/// A stretch of the calendar. `end` is the first moment after the stretch.
#[derive(Clone, Copy, Debug, PartialEq, Eq, Structural)]
pub enum TimeIntervalOutput {
    /// Everything before `end`.
    Before { end: Moment, grain: Grain, precision: Precision },
    /// Everything from `start` on.
    After { start: Moment, grain: Grain, precision: Precision },
    Between { start: Moment, end: Moment, grain: Grain, precision: Precision },
}

/// A length of time: a count for each grain.
#[derive(Clone, Copy, Debug, PartialEq, Eq, Structural)]
pub struct DurationOutput {
    pub period: Period,
    pub precision: Precision,
}

/// What a value resolves to.
#[derive(Clone, Copy, Debug, PartialEq, Eq, Structural)]
pub enum Output {
    Integer(IntegerOutput),
    Float(FloatOutput),
    Ordinal(OrdinalOutput),
    Time(TimeOutput),
    TimeInterval(TimeIntervalOutput),
    Duration(DurationOutput),
}

/// The reference against which relative times are resolved.
#[derive(Clone, Copy, Debug, PartialEq, Eq, Structural)]
pub struct ParsingContext {
    pub reference: Moment,
}

/// The output for an interval found for a time value.
pub open spec fn time_output(t: TimeValue, i: Interval) -> Output {
    let grain = t.constraint.grain();
    match t.direction {
        Direction::Before => Output::TimeInterval(
            TimeIntervalOutput::Before {
                end: moment_of(i.start as int),
                grain,
                precision: t.precision,
            },
        ),
        Direction::After => Output::TimeInterval(
            TimeIntervalOutput::After {
                start: moment_of(i.start as int),
                grain,
                precision: t.precision,
            },
        ),
        Direction::Neither => if i.explicit {
            Output::TimeInterval(
                TimeIntervalOutput::Between {
                    start: moment_of(i.start as int),
                    end: moment_of(i.end as int),
                    grain,
                    precision: t.precision,
                },
            )
        } else {
            Output::Time(
                TimeOutput { moment: moment_of(i.start as int), grain, precision: t.precision },
            )
        },
    }
}

/// What a value resolves to at reference instant `r`: nothing for a latent
/// time, for a time that names no interval, and for the kinds that are only
/// parts of other values.
pub open spec fn resolved(d: Dimension, r: int) -> Option<Output> {
    match d {
        Dimension::Number(NumberValue::Integer(i)) => Some(Output::Integer(IntegerOutput(i.value))),
        Dimension::Number(NumberValue::Float(f)) => Some(
            Output::Float(FloatOutput { numerator: f.numerator, denominator: f.denominator }),
        ),
        Dimension::Ordinal(o) => Some(Output::Ordinal(OrdinalOutput(o.value))),
        Dimension::Duration(d) => Some(
            Output::Duration(DurationOutput { period: d.period, precision: d.precision }),
        ),
        Dimension::Time(t) => if t.latent {
            None
        } else {
            match anchor(t.constraint, r) {
                Some(i) => Some(time_output(t, i)),
                None => None,
            }
        },
        _ => None,
    }
}

/// The duration that an output states, if it is one.
pub open spec fn duration_in(o: Output) -> Option<DurationValue> {
    match o {
        Output::Duration(d) => Some(DurationValue { period: d.period, precision: d.precision }),
        _ => None,
    }
}

/// A duration comes back from its output as it went in: each grain with its
/// count, and the precision.
pub proof fn lemma_duration_round_trip(d: DurationValue, r: int)
    ensures
        resolved(Dimension::Duration(d), r) is Some,
        duration_in(resolved(Dimension::Duration(d), r)->0) == Some(d),
{
}

/// A latent time resolves to nothing.
pub proof fn lemma_latent_never_resolves(d: Dimension, r: int)
    requires
        d.is_latent(),
    ensures
        resolved(d, r) is None,
{
}

/// What resolves is not latent.
pub proof fn lemma_resolved_not_latent(d: Dimension, r: int)
    ensures
        resolved(d, r) is Some ==> !d.is_latent(),
{
}

impl Output {
    /// The duration that the output states, if it is one.
    pub fn duration_of(&self) -> (r: Option<DurationValue>)
        ensures
            r == duration_in(*self),
    {
        match self {
            Output::Duration(d) => Some(DurationValue { period: d.period, precision: d.precision }),
            _ => None,
        }
    }

    /// The whole number that the output states, if it is one.
    pub fn as_integer(&self) -> (r: Option<IntegerOutput>)
        ensures
            r == match *self {
                Output::Integer(i) => Some(i),
                _ => None,
            },
    {
        match self {
            Output::Integer(i) => Some(*i),
            _ => None,
        }
    }
}

impl ParsingContext {
    /// Whether the reference is a moment of the calendar.
    pub open spec fn wf(self) -> bool {
        self.reference.valid()
    }

    /// The context with the given reference, where that is a moment of the
    /// calendar.
    pub fn new(reference: Moment) -> (r: Option<ParsingContext>)
        ensures
            r is Some <==> reference.valid(),
            r matches Some(c) ==> c.reference == reference && c.wf(),
    {
        if reference.is_valid() {
            Some(ParsingContext { reference })
        } else {
            None
        }
    }

    /// The day of the week of the reference.
    pub fn weekday(&self) -> (w: Weekday)
        requires
            self.wf(),
        ensures
            w.number() == crate::calendar::day_number(
                self.reference.year as int,
                self.reference.month as int,
                self.reference.day as int,
            ) % 7,
    {
        let day: i64 = crate::calendar::day_of_date(
            crate::calendar::Date {
                year: self.reference.year,
                month: self.reference.month,
                day: self.reference.day,
            },
        );
        let k: i64 = day % 7;
        if k == 0 {
            Weekday::Mon
        } else if k == 1 {
            Weekday::Tue
        } else if k == 2 {
            Weekday::Wed
        } else if k == 3 {
            Weekday::Thu
        } else if k == 4 {
            Weekday::Fri
        } else if k == 5 {
            Weekday::Sat
        } else {
            Weekday::Sun
        }
    }

    /// Resolves a value against the reference.
    pub fn resolve(&self, d: &Dimension) -> (o: Option<Output>)
        requires
            self.wf(),
            d.wf(),
        ensures
            o == resolved(*d, self.reference.instant()),
    {
        match d {
            Dimension::Number(NumberValue::Integer(i)) => Some(
                Output::Integer(IntegerOutput(i.value)),
            ),
            Dimension::Number(NumberValue::Float(f)) => Some(
                Output::Float(FloatOutput { numerator: f.numerator, denominator: f.denominator }),
            ),
            Dimension::Ordinal(o) => Some(Output::Ordinal(OrdinalOutput(o.value))),
            Dimension::Duration(d) => Some(
                Output::Duration(DurationOutput { period: d.period, precision: d.precision }),
            ),
            Dimension::Time(t) => {
                if t.latent {
                    return None;
                }
                let r: i64 = self.reference.to_instant();
                match resolve(&t.constraint, r) {
                    Some(i) => {
                        let grain = t.constraint.grain_of();
                        let start = Moment::from_instant(i.start);
                        Some(
                            match t.direction {
                                Direction::Before => Output::TimeInterval(
                                    TimeIntervalOutput::Before {
                                        end: start,
                                        grain,
                                        precision: t.precision,
                                    },
                                ),
                                Direction::After => Output::TimeInterval(
                                    TimeIntervalOutput::After {
                                        start,
                                        grain,
                                        precision: t.precision,
                                    },
                                ),
                                Direction::Neither => if i.explicit {
                                    Output::TimeInterval(
                                        TimeIntervalOutput::Between {
                                            start,
                                            end: Moment::from_instant(i.end),
                                            grain,
                                            precision: t.precision,
                                        },
                                    )
                                } else {
                                    Output::Time(
                                        TimeOutput { moment: start, grain, precision: t.precision },
                                    )
                                },
                            },
                        )
                    },
                    None => None,
                }
            },
            _ => None,
        }
    }
}

} // verus!
