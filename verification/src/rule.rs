//! Production rules: an ordered pattern of matchers and a production that
//! makes a value of what the matchers matched.

use vstd::prelude::*;
use crate::dimension::Dimension;
use crate::grain::Grain;
use crate::number::NumberValue;
use crate::time::Direction;
use crate::time::Form;
use crate::time::HourForm;

verus! {

/// What a typed matcher asks of a time value.
#[derive(Clone, Copy, Debug)]
pub enum TimeFilter {
    Any,
    NotLatent,
    DayOfWeek,
    Month,
    TimeOfDay,
    /// A time of day whose full hour is known.
    HourOfDay,
    PartOfDay,
    TimeOfDayNotLatent,
}

/// One position of a rule's pattern.
#[derive(Clone, Copy, Debug)]
pub enum Matcher {
    /// No matcher: the pattern has ended.
    Nothing,
    /// A regular expression that matches a stretch of the text.
    Text(&'static str),
    /// A whole number from `min` to `max`.
    Integer { min: i64, max: i64 },
    /// A whole number from `min` to `max` that is a multiple of ten.
    RoundInteger { min: i64, max: i64 },
    Number,
    /// A number that no prefix was applied to.
    Unprefixed,
    /// A number that no suffix was applied to.
    Unsuffixed,
    Ordinal,
    Time(TimeFilter),
    Duration,
    Cycle,
    CycleOf(Grain),
    UnitOfDuration,
    RelativeMinute,
}

/// The small tables of words that stand for numbers.
#[derive(Clone, Copy, Debug)]
pub enum WordTable {
    /// 하나 to 아홉.
    NativeUnits,
    /// 한, 두, 세, 네.
    NativeCounters,
    /// 열 to 아흔.
    NativeTens,
    /// 하루 to 열하루, as numbers of days.
    NamedDays,
    /// zero to nineteen.
    EnglishUnits,
    /// twenty to ninety.
    EnglishTens,
}

/// What a rule makes of its matched children. The numbers named `child`,
/// `left` and the like are positions in the rule's pattern, from 0; `group`
/// is the number of a capture group of a text child.
#[derive(Clone, Copy, Debug)]
pub enum Production {
    /// The child as it is.
    Same { child: usize },
    IntegerText { child: usize, group: usize, separated: bool },
    DecimalText { child: usize, group: usize, separated: bool },
    Integer { value: i64, approximate: bool },
    Magnitude { value: i64, power: u8 },
    Ratio { numerator: i64, denominator: i64 },
    Numeral { child: usize },
    NumberWord { child: usize, group: usize, table: WordTable },
    Ordinal { value: i64 },
    OrdinalOf { child: usize },
    Sum { left: usize, right: usize },
    Product { left: usize, right: usize },
    Compose { left: usize, right: usize },
    DotDigits { number: usize, digits: usize, group: usize },
    Negative { child: usize },
    Quotient { top: usize, bottom: usize },
    Unit { grain: Grain },
    Span { grain: Grain, count: i64 },
    DurationOf { integer: usize, unit: usize },
    DurationPrecision { child: usize, approximate: bool },
    DecimalHours { child: usize },
    HoursAndHalf { child: usize },
    InPresent { child: usize, after: bool },
    Ago { child: usize },
    DaysWord { child: usize, group: usize },
    Cycle { grain: Grain },
    CycleNth { grain: Grain, offset: i64 },
    CycleNthOf { cycle: usize, offset: i64 },
    CycleTwice { grain: Grain, offset: i64 },
    CycleCount { integer: usize, cycle: usize, past: bool },
    CycleRange { integer: usize, cycle: usize, past: bool },
    Quarter { integer: usize },
    QuarterOf { time: usize, integer: usize },
    LastCycleOf { cycle: usize, outer: usize },
    NthCycleAfter { time: usize, ordinal: usize, cycle: usize },
    Intersect { left: usize, right: usize },
    Adjust { child: usize, clear_latent: bool, approximate: bool, direction: Direction },
    WeekdayWord { child: usize, group: usize },
    MonthOf { child: usize },
    DayOf { child: usize },
    DayNumeral { child: usize, group: usize },
    DayDigit { child: usize, group: usize },
    MonthDay { month: i64, day: i64 },
    TheNth { child: usize, n: i64 },
    LastOf { inner: usize, outer: usize },
    NthOf { left: usize, ordinal: usize, right: usize },
    YearOf { child: usize },
    HourOf { child: usize, latent: bool },
    ClockText { child: usize, seconds: bool },
    HalfDay { child: usize, afternoon: bool },
    Hour { hour: i64 },
    Minutes { minutes: i64 },
    MinutesOf { child: usize },
    HourPlusMinutes { clock: usize, minutes_at: usize, before: bool },
    HourMinuteOf { clock: usize, minute: usize },
    SecondOf { child: usize },
    DateText { child: usize, year: bool },
    PartOfDay { from_hour: i64, from_minute: i64, to_hour: i64 },
    Weekend,
    Season { from_month: i64, from_day: i64, to_month: i64, to_day: i64 },
    SpanTo { from: usize, to: usize, inclusive: bool },
    Within { child: usize },
    Until { child: usize },
    Since { child: usize },
    AfterTime { time: usize, duration: usize },
}

/// A production rule with a pattern of one to four matchers.
#[derive(Clone, Copy, Debug)]
pub struct Rule {
    pub name: &'static str,
    pub first: Matcher,
    pub second: Matcher,
    pub third: Matcher,
    pub fourth: Matcher,
    pub production: Production,
}

impl TimeFilter {
    /// Whether the filter lets a time of this form and latency pass.
    pub open spec fn passes(self, form: Form, latent: bool) -> bool {
        match self {
            TimeFilter::Any => true,
            TimeFilter::NotLatent => !latent,
            TimeFilter::DayOfWeek => form is DayOfWeek,
            TimeFilter::Month => form is Month,
            TimeFilter::TimeOfDay => form is TimeOfDay,
            TimeFilter::HourOfDay => form matches Form::TimeOfDay(HourForm::Known { .. }),
            TimeFilter::PartOfDay => form is PartOfDay,
            TimeFilter::TimeOfDayNotLatent => form is TimeOfDay && !latent,
        }
    }

    /// Whether the filter lets a time of this form and latency pass.
    pub fn admits(self, form: Form, latent: bool) -> (r: bool)
        ensures
            r == self.passes(form, latent),
    {
        match self {
            TimeFilter::Any => true,
            TimeFilter::NotLatent => !latent,
            TimeFilter::DayOfWeek => match form {
                Form::DayOfWeek(_) => true,
                _ => false,
            },
            TimeFilter::Month => match form {
                Form::Month(_) => true,
                _ => false,
            },
            TimeFilter::TimeOfDay => match form {
                Form::TimeOfDay(_) => true,
                _ => false,
            },
            TimeFilter::HourOfDay => match form {
                Form::TimeOfDay(HourForm::Known { .. }) => true,
                _ => false,
            },
            TimeFilter::PartOfDay => match form {
                Form::PartOfDay => true,
                _ => false,
            },
            TimeFilter::TimeOfDayNotLatent => match form {
                Form::TimeOfDay(_) => !latent,
                _ => false,
            },
        }
    }
}

impl Matcher {
    /// Whether a typed matcher takes the value. A text matcher and the
    /// empty matcher take none.
    pub open spec fn accepts(self, d: Dimension) -> bool {
        match self {
            Matcher::Nothing => false,
            Matcher::Text(_) => false,
            Matcher::Integer { min, max } => match d {
                Dimension::Number(NumberValue::Integer(i)) => min <= i.value <= max,
                _ => false,
            },
            Matcher::RoundInteger { min, max } => match d {
                Dimension::Number(NumberValue::Integer(i)) => min <= i.value <= max && i.value % 10
                    == 0,
                _ => false,
            },
            Matcher::Number => d is Number,
            Matcher::Unprefixed => match d {
                Dimension::Number(n) => !n.is_prefixed(),
                _ => false,
            },
            Matcher::Unsuffixed => match d {
                Dimension::Number(n) => !n.is_suffixed(),
                _ => false,
            },
            Matcher::Ordinal => d is Ordinal,
            Matcher::Time(f) => match d {
                Dimension::Time(t) => f.passes(t.form, t.latent),
                _ => false,
            },
            Matcher::Duration => d is Duration,
            Matcher::Cycle => d is Cycle,
            Matcher::CycleOf(g) => match d {
                Dimension::Cycle(c) => c.grain == g,
                _ => false,
            },
            Matcher::UnitOfDuration => d is UnitOfDuration,
            Matcher::RelativeMinute => d is RelativeMinute,
        }
    }

    /// Whether a typed matcher takes the value.
    pub fn takes(&self, d: &Dimension) -> (r: bool)
        ensures
            r == self.accepts(*d),
    {
        match self {
            Matcher::Nothing => false,
            Matcher::Text(_) => false,
            Matcher::Integer { min, max } => match d {
                Dimension::Number(NumberValue::Integer(i)) => *min <= i.value && i.value <= *max,
                _ => false,
            },
            Matcher::RoundInteger { min, max } => match d {
                Dimension::Number(NumberValue::Integer(i)) => *min <= i.value && i.value <= *max
                    && (i.value % 10 == 0),
                _ => false,
            },
            Matcher::Number => match d {
                Dimension::Number(_) => true,
                _ => false,
            },
            Matcher::Unprefixed => match d {
                Dimension::Number(n) => !n.prefixed(),
                _ => false,
            },
            Matcher::Unsuffixed => match d {
                Dimension::Number(n) => !n.suffixed(),
                _ => false,
            },
            Matcher::Ordinal => match d {
                Dimension::Ordinal(_) => true,
                _ => false,
            },
            Matcher::Time(f) => match d {
                Dimension::Time(t) => f.admits(t.form, t.latent),
                _ => false,
            },
            Matcher::Duration => match d {
                Dimension::Duration(_) => true,
                _ => false,
            },
            Matcher::Cycle => match d {
                Dimension::Cycle(_) => true,
                _ => false,
            },
            Matcher::CycleOf(g) => match d {
                Dimension::Cycle(c) => c.grain == *g,
                _ => false,
            },
            Matcher::UnitOfDuration => match d {
                Dimension::UnitOfDuration(_) => true,
                _ => false,
            },
            Matcher::RelativeMinute => match d {
                Dimension::RelativeMinute(_) => true,
                _ => false,
            },
        }
    }
}

impl Rule {
    /// The matcher at a position of the pattern; `Nothing` past the fourth.
    pub open spec fn matcher(self, i: int) -> Matcher {
        if i == 0 {
            self.first
        } else if i == 1 {
            self.second
        } else if i == 2 {
            self.third
        } else if i == 3 {
            self.fourth
        } else {
            Matcher::Nothing
        }
    }

    /// Number of matchers of the pattern: those before the first `Nothing`.
    pub open spec fn arity(self) -> int {
        if self.first is Nothing {
            0
        } else if self.second is Nothing {
            1
        } else if self.third is Nothing {
            2
        } else if self.fourth is Nothing {
            3
        } else {
            4
        }
    }

    /// The pattern has a first matcher, and nothing after its end.
    pub open spec fn wf(self) -> bool {
        &&& !(self.first is Nothing)
        &&& self.second is Nothing ==> self.third is Nothing
        &&& self.third is Nothing ==> self.fourth is Nothing
    }

    /// The matcher at a position of the pattern; `Nothing` past the fourth.
    pub fn get(&self, i: usize) -> (m: Matcher)
        ensures
            m == self.matcher(i as int),
    {
        if i == 0 {
            self.first
        } else if i == 1 {
            self.second
        } else if i == 2 {
            self.third
        } else if i == 3 {
            self.fourth
        } else {
            Matcher::Nothing
        }
    }

    /// Number of matchers of the pattern.
    pub fn len(&self) -> (n: usize)
        ensures
            n == self.arity(),
    {
        if let Matcher::Nothing = self.first {
            0
        } else if let Matcher::Nothing = self.second {
            1
        } else if let Matcher::Nothing = self.third {
            2
        } else if let Matcher::Nothing = self.fourth {
            3
        } else {
            4
        }
    }

    /// Whether the pattern has a first matcher, and nothing after its end.
    pub fn is_well_formed(&self) -> (r: bool)
        ensures
            r == self.wf(),
    {
        let a = match self.first {
            Matcher::Nothing => true,
            _ => false,
        };
        let b = match self.second {
            Matcher::Nothing => true,
            _ => false,
        };
        let c = match self.third {
            Matcher::Nothing => true,
            _ => false,
        };
        let d = match self.fourth {
            Matcher::Nothing => true,
            _ => false,
        };
        !a && (!b || c) && (!c || d)
    }
}

} // verus!
