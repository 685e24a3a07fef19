//! What each production makes of its matched children.

use vstd::prelude::*;
use crate::args::cycle_at;
use crate::args::duration_at;
use crate::args::integer_at;
use crate::args::minutes_at;
use crate::args::number_at;
use crate::args::ordinal_at;
use crate::args::text_at;
use crate::args::time_at;
use crate::args::unit_at;
use crate::args::value_at;
use crate::args::ArgView;
use crate::dimension::Dimension;
use crate::duration::CycleValue;
use crate::duration::DurationValue;
use crate::duration::Period;
use crate::duration::RelativeMinuteValue;
use crate::duration::UnitOfDurationValue;
use crate::error::ProductionError;
use crate::grain::Grain;
use crate::helpers::both;
use crate::helpers::clock;
use crate::helpers::decimal_minutes;
use crate::helpers::formed;
use crate::helpers::hour_before;
use crate::helpers::stretch;
use crate::korean::day_value;
use crate::korean::digit_value;
use crate::korean::digits_count;
use crate::korean::digits_value;
use crate::korean::numeral_value;
use crate::number::decimal_fraction;
use crate::number::fits;
use crate::number::negated;
use crate::number::parsed;
use crate::number::pow10;
use crate::number::quotient_spec;
use crate::number::sum_spec;
use crate::number::without;
use crate::number::FloatValue;
use crate::number::IntegerValue;
use crate::number::NumberValue;
use crate::number::OrdinalValue;
use crate::number::Precision;
use crate::rule::Production;
use crate::rule::WordTable;
use crate::time::joined_precision;
use crate::time::Constraint;
use crate::time::Direction;
use crate::time::Form;
use crate::time::HourForm;
use crate::time::TimeValue;
use crate::time::Weekday;
use crate::words::weekday_value;
use crate::words::word_value;

verus! {

/// The children do not have the shape that the production works on.
pub open spec fn bad() -> Result<Dimension, ProductionError> {
    Err(ProductionError::Malformed)
}

/// The plain whole number.
pub open spec fn whole(v: i64) -> Dimension {
    Dimension::Number(NumberValue::Integer(IntegerValue::plain(v)))
}

/// The time as a value, or the error.
pub open spec fn lift_time(r: Result<TimeValue, ProductionError>) -> Result<
    Dimension,
    ProductionError,
> {
    match r {
        Ok(t) => Ok(Dimension::Time(t)),
        Err(e) => Err(e),
    }
}

/// The fraction as a value, or the error.
pub open spec fn lift_float(r: Result<FloatValue, ProductionError>) -> Result<
    Dimension,
    ProductionError,
> {
    match r {
        Ok(f) => Ok(Dimension::Number(NumberValue::Float(f))),
        Err(e) => Err(e),
    }
}

/// The time value, where its fields lie within their ranges.
pub open spec fn in_bounds(ok: bool, t: TimeValue) -> Result<TimeValue, ProductionError> {
    if ok {
        Ok(t)
    } else {
        Err(ProductionError::OutOfRange)
    }
}

/// Every month `m`, from 1 to 12.
pub open spec fn month_spec(m: i64) -> Result<TimeValue, ProductionError> {
    in_bounds(1 <= m <= 12, formed(Constraint::Month(m), Form::Month(m)))
}

/// Every day `d` of a month, from 1 to 31.
pub open spec fn day_spec(d: i64) -> Result<TimeValue, ProductionError> {
    in_bounds(1 <= d <= 31, formed(Constraint::DayOfMonth(d), Form::Empty))
}

/// Every day `d` of month `m`.
pub open spec fn month_day_spec(m: i64, d: i64) -> Result<TimeValue, ProductionError> {
    in_bounds(
        1 <= m <= 12 && 1 <= d <= 31,
        formed(both(Constraint::Month(m), Constraint::DayOfMonth(d)), Form::Empty),
    )
}

/// The year `y`, from 0 to 9999.
pub open spec fn year_spec(y: i64) -> Result<TimeValue, ProductionError> {
    in_bounds(0 <= y <= 9999, formed(Constraint::Year(y), Form::Empty))
}

/// Every hour `h` of a day.
pub open spec fn hour_time(h: i64, twelve: bool) -> TimeValue {
    formed(
        Constraint::Hour { hour: h, twelve },
        Form::TimeOfDay(HourForm::Known { full_hour: h, twelve }),
    )
}

/// Every hour `h` of a day, from 0 to 23.
pub open spec fn hour_spec(h: i64, twelve: bool) -> Result<TimeValue, ProductionError> {
    in_bounds(0 <= h <= 23, hour_time(h, twelve))
}

/// As `hour_spec`, where 24 is accepted too and names midnight.
pub open spec fn hour_or_midnight_spec(h: i64, twelve: bool) -> Result<TimeValue, ProductionError> {
    if h == 24 {
        hour_spec(0, false)
    } else {
        hour_spec(h, twelve)
    }
}

/// Every minute `m` of hour `h`.
pub open spec fn hour_minute_spec(h: i64, m: i64, twelve: bool) -> Result<
    TimeValue,
    ProductionError,
> {
    in_bounds(
        0 <= h <= 23 && 0 <= m <= 59,
        formed(clock(h, m, twelve), Form::TimeOfDay(HourForm::Unknown)),
    )
}

/// Every second `s` of minute `m` of hour `h`.
pub open spec fn hour_minute_second_spec(h: i64, m: i64, s: i64, twelve: bool) -> Result<
    TimeValue,
    ProductionError,
> {
    in_bounds(
        0 <= h <= 23 && 0 <= m <= 59 && 0 <= s <= 59,
        formed(both(clock(h, m, twelve), Constraint::Second(s)), Form::TimeOfDay(HourForm::Unknown)),
    )
}

/// Every second `s` of a minute, from 0 to 59.
pub open spec fn second_spec(s: i64) -> Result<TimeValue, ProductionError> {
    in_bounds(0 <= s <= 59, formed(Constraint::Second(s), Form::Empty))
}

/// The time `m` minutes after the full hour `h`, or before it where `m` is
/// negative.
pub open spec fn relative_spec(h: i64, m: i64, twelve: bool) -> Result<TimeValue, ProductionError> {
    if !(0 <= h <= 23 && -59 <= m <= 59) {
        Err(ProductionError::OutOfRange)
    } else if m >= 0 {
        hour_minute_spec(h, m, twelve)
    } else {
        hour_minute_spec(hour_before(h, twelve), (60 + m) as i64, twelve)
    }
}

/// Day `d` of month `m` of year `y`.
pub open spec fn ymd_spec(y: i64, m: i64, d: i64) -> Result<TimeValue, ProductionError> {
    in_bounds(
        0 <= y <= 9999 && 1 <= m <= 12 && 1 <= d <= 31,
        formed(
            both(both(Constraint::Year(y), Constraint::Month(m)), Constraint::DayOfMonth(d)),
            Form::Empty,
        ),
    )
}

/// The window of the grain that lies `n` windows after the present one.
pub open spec fn cycle_spec(grain: Grain, n: i64) -> TimeValue {
    formed(Constraint::Cycle { grain, offset: n }, Form::Empty)
}

/// The window of the grain that lies `n` windows after the one in which
/// `time` begins.
pub open spec fn cycle_after_spec(grain: Grain, n: i64, time: TimeValue, whole: bool) -> TimeValue {
    formed(Constraint::CycleAfter { grain, n, base: Box::new(time.constraint), whole }, Form::Empty)
}

/// The `n` windows of the grain that follow the present one, or that
/// precede it where `n` is negative.
pub open spec fn cycle_n_spec(grain: Grain, n: i64) -> Result<TimeValue, ProductionError> {
    if n > 0 {
        Ok(
            formed(
                stretch(
                    Constraint::Cycle { grain, offset: 1 },
                    Constraint::Cycle { grain, offset: n },
                    true,
                ),
                Form::Empty,
            ),
        )
    } else if n < 0 {
        Ok(
            formed(
                stretch(
                    Constraint::Cycle { grain, offset: n },
                    Constraint::Cycle { grain, offset: 0 },
                    false,
                ),
                Form::Empty,
            ),
        )
    } else {
        Err(ProductionError::OutOfRange)
    }
}

/// The intersection of two times, where they address disjoint dimensions.
pub open spec fn intersect_spec(a: TimeValue, b: TimeValue) -> Result<TimeValue, ProductionError> {
    if a.constraint.dims().overlaps(b.constraint.dims()) {
        Err(ProductionError::Incompatible)
    } else {
        Ok(a.intersection(b))
    }
}

/// The stretch from one time to another.
pub open spec fn span_spec(a: TimeValue, b: TimeValue, inclusive: bool) -> TimeValue {
    TimeValue {
        precision: joined_precision(a.precision, b.precision),
        ..TimeValue::plain(stretch(a.constraint, b.constraint, inclusive))
    }
}

/// The occurrence number `n` of a time.
pub open spec fn nth_spec(a: TimeValue, n: i64) -> TimeValue {
    TimeValue {
        precision: a.precision,
        ..TimeValue::plain(Constraint::Nth { base: Box::new(a.constraint), n })
    }
}

/// The last occurrence of one time within another.
pub open spec fn last_of_spec(inner: TimeValue, outer: TimeValue) -> TimeValue {
    TimeValue {
        precision: joined_precision(inner.precision, outer.precision),
        ..TimeValue::plain(
            Constraint::LastOf {
                inner: Box::new(inner.constraint),
                outer: Box::new(outer.constraint),
            },
        )
    }
}

/// The last window of a grain within a time.
pub open spec fn last_cycle_spec(grain: Grain, outer: TimeValue) -> TimeValue {
    TimeValue {
        precision: outer.precision,
        ..TimeValue::plain(
            Constraint::LastOf {
                inner: Box::new(Constraint::Every(grain)),
                outer: Box::new(outer.constraint),
            },
        )
    }
}

/// The interval of an expression moved by a period, where the counts of
/// the period are bounded.
pub open spec fn shift_spec(base: Constraint, period: Period, precision: Precision) -> Result<
    TimeValue,
    ProductionError,
> {
    if !period.bounded() {
        Err(ProductionError::Overflow)
    } else {
        Ok(DurationValue::moved(base, period, precision))
    }
}

/// The present second.
pub open spec fn now() -> Constraint {
    Constraint::Cycle { grain: Grain::Second, offset: 0 }
}

/// The fraction of two numbers, with the sign carried by the numerator.
pub open spec fn ratio_spec(n: i64, d: i64) -> Result<FloatValue, ProductionError> {
    if d == 0 {
        Err(ProductionError::DivisionByZero)
    } else if d > 0 {
        Ok(FloatValue::plain(n, d))
    } else if n == i64::MIN || d == i64::MIN {
        Err(ProductionError::Overflow)
    } else {
        Ok(FloatValue::plain((-n) as i64, (-d) as i64))
    }
}

/// The exact duration of `m` minutes.
pub open spec fn minutes_duration(m: i64) -> Dimension {
    Dimension::Duration(
        DurationValue { period: Period::single(Grain::Minute, m), precision: Precision::Exact },
    )
}

/// The exact duration of `n` units of a grain.
pub open spec fn plain_duration(g: Grain, n: i64) -> Dimension {
    Dimension::Duration(DurationValue { period: Period::single(g, n), precision: Precision::Exact })
}

/// The text of a group, without its commas where `separated` holds.
pub open spec fn cleaned(s: Seq<char>, separated: bool) -> Seq<char> {
    if separated {
        without(s, ',')
    } else {
        s
    }
}

/// What the productions that make numbers and ordinals give.
pub open spec fn produced_number(p: Production, args: Seq<ArgView>) -> Result<
    Dimension,
    ProductionError,
> {
    match p {
        Production::IntegerText { child, group, separated } => match text_at(
            args,
            child as int,
            group as int,
        ) {
            Some(s) => match parsed(cleaned(s, separated)) {
                Some(v) => Ok(whole(v)),
                None => bad(),
            },
            None => bad(),
        },
        Production::DecimalText { child, group, separated } => match text_at(
            args,
            child as int,
            group as int,
        ) {
            Some(s) => lift_float(decimal_fraction(cleaned(s, separated))),
            None => bad(),
        },
        Production::Integer { value, approximate } => Ok(
            Dimension::Number(
                NumberValue::Integer(
                    IntegerValue {
                        precision: if approximate {
                            Precision::Approximate
                        } else {
                            Precision::Exact
                        },
                        ..IntegerValue::plain(value)
                    },
                ),
            ),
        ),
        Production::Magnitude { value, power } => Ok(
            Dimension::Number(
                NumberValue::Integer(IntegerValue { grain: power, ..IntegerValue::plain(value) }),
            ),
        ),
        Production::Ratio { numerator, denominator } => lift_float(
            ratio_spec(numerator, denominator),
        ),
        Production::Numeral { child } => match text_at(args, child as int, 0) {
            Some(s) => Ok(whole(numeral_value(s) as i64)),
            None => bad(),
        },
        Production::NumberWord { child, group, table } => match text_at(
            args,
            child as int,
            group as int,
        ) {
            Some(s) => match word_value(table, s) {
                Some(v) => Ok(whole(v)),
                None => bad(),
            },
            None => bad(),
        },
        Production::Ordinal { value } => Ok(Dimension::Ordinal(OrdinalValue { value })),
        Production::OrdinalOf { child } => match integer_at(args, child as int) {
            Some(i) => Ok(Dimension::Ordinal(OrdinalValue { value: i.value })),
            None => bad(),
        },
        Production::Sum { left, right } => match (
            integer_at(args, left as int),
            integer_at(args, right as int),
        ) {
            (Some(a), Some(b)) => if fits(a.value + b.value) {
                Ok(whole((a.value + b.value) as i64))
            } else {
                Err(ProductionError::Overflow)
            },
            _ => bad(),
        },
        Production::Product { left, right } => match (
            integer_at(args, left as int),
            integer_at(args, right as int),
        ) {
            (Some(a), Some(b)) => if fits(a.value * b.value) {
                Ok(
                    Dimension::Number(
                        NumberValue::Integer(
                            IntegerValue {
                                grain: b.grain,
                                ..IntegerValue::plain((a.value * b.value) as i64)
                            },
                        ),
                    ),
                )
            } else {
                Err(ProductionError::Overflow)
            },
            _ => bad(),
        },
        Production::Compose { left, right } => match (
            integer_at(args, left as int),
            integer_at(args, right as int),
        ) {
            (Some(a), Some(b)) => if a.grain <= 1 || a.grain > 18 || b.value < 0 || b.value
                >= pow10(a.grain as nat) {
                bad()
            } else if fits(a.value + b.value) {
                Ok(whole((a.value + b.value) as i64))
            } else {
                Err(ProductionError::Overflow)
            },
            _ => bad(),
        },
        Production::DotDigits { number, digits, group } => match (
            number_at(args, number as int),
            text_at(args, digits as int, group as int),
        ) {
            (Some(a), Some(s)) => if digits_count(s) == 0 || digits_count(s) > 18 {
                bad()
            } else {
                lift_float(
                    sum_spec(
                        a,
                        NumberValue::Float(
                            FloatValue::plain(
                                digits_value(s) as i64,
                                pow10(digits_count(s)) as i64,
                            ),
                        ),
                    ),
                )
            },
            _ => bad(),
        },
        Production::Negative { child } => match number_at(args, child as int) {
            Some(n) => if n.is_prefixed() {
                bad()
            } else if n.top() == i64::MIN {
                Err(ProductionError::Overflow)
            } else {
                Ok(Dimension::Number(negated(n)))
            },
            None => bad(),
        },
        Production::Quotient { top, bottom } => match (
            number_at(args, top as int),
            number_at(args, bottom as int),
        ) {
            (Some(a), Some(b)) => lift_float(quotient_spec(a, b)),
            _ => bad(),
        },
        _ => bad(),
    }
}

/// What the productions that make durations, units and cycles give.
pub open spec fn produced_span(p: Production, args: Seq<ArgView>) -> Result<
    Dimension,
    ProductionError,
> {
    match p {
        Production::Same { child } => match value_at(args, child as int) {
            Some(d) => Ok(d),
            None => bad(),
        },
        Production::Unit { grain } => Ok(Dimension::UnitOfDuration(UnitOfDurationValue { grain })),
        Production::Span { grain, count } => Ok(plain_duration(grain, count)),
        Production::DurationOf { integer, unit } => match (
            integer_at(args, integer as int),
            unit_at(args, unit as int),
        ) {
            (Some(i), Some(u)) => Ok(plain_duration(u.grain, i.value)),
            _ => bad(),
        },
        Production::DurationPrecision { child, approximate } => match duration_at(
            args,
            child as int,
        ) {
            Some(d) => Ok(
                Dimension::Duration(
                    DurationValue {
                        period: d.period,
                        precision: if approximate {
                            Precision::Approximate
                        } else {
                            Precision::Exact
                        },
                    },
                ),
            ),
            None => bad(),
        },
        Production::DecimalHours { child } => match (
            text_at(args, child as int, 1),
            text_at(args, child as int, 2),
        ) {
            (Some(w), Some(f)) => match decimal_minutes(w, f) {
                Ok(m) => Ok(minutes_duration(m)),
                Err(e) => Err(e),
            },
            _ => bad(),
        },
        Production::HoursAndHalf { child } => match integer_at(args, child as int) {
            Some(i) => if fits(i.value * 60 + 30) {
                Ok(minutes_duration((i.value * 60 + 30) as i64))
            } else {
                Err(ProductionError::Overflow)
            },
            None => bad(),
        },
        Production::InPresent { child, after } => match duration_at(args, child as int) {
            Some(d) => match shift_spec(now(), d.period, d.precision) {
                Ok(t) => Ok(
                    Dimension::Time(
                        if after {
                            TimeValue { direction: Direction::After, ..t }
                        } else {
                            t
                        },
                    ),
                ),
                Err(e) => Err(e),
            },
            None => bad(),
        },
        Production::Ago { child } => match duration_at(args, child as int) {
            Some(d) => if d.period.bounded() {
                Ok(Dimension::Time(DurationValue::moved(now(), d.period.opposite(), d.precision)))
            } else {
                Err(ProductionError::Overflow)
            },
            None => bad(),
        },
        Production::DaysWord { child, group } => match text_at(args, child as int, group as int) {
            Some(s) => match word_value(WordTable::NamedDays, s) {
                Some(v) => Ok(plain_duration(Grain::Day, v)),
                None => bad(),
            },
            None => bad(),
        },
        Production::Cycle { grain } => Ok(Dimension::Cycle(CycleValue { grain })),
        Production::CycleNth { grain, offset } => Ok(Dimension::Time(cycle_spec(grain, offset))),
        Production::CycleNthOf { cycle, offset } => match cycle_at(args, cycle as int) {
            Some(c) => Ok(Dimension::Time(cycle_spec(c.grain, offset))),
            None => bad(),
        },
        Production::CycleTwice { grain, offset } => Ok(
            Dimension::Time(cycle_after_spec(grain, offset, cycle_spec(grain, offset), false)),
        ),
        Production::CycleCount { integer, cycle, past } => match (
            integer_at(args, integer as int),
            cycle_at(args, cycle as int),
        ) {
            (Some(i), Some(c)) => if past && i.value == i64::MIN {
                Err(ProductionError::Overflow)
            } else {
                lift_time(
                    cycle_n_spec(
                        c.grain,
                        if past {
                            (-i.value) as i64
                        } else {
                            i.value
                        },
                    ),
                )
            },
            _ => bad(),
        },
        Production::CycleRange { integer, cycle, past } => match (
            integer_at(args, integer as int),
            cycle_at(args, cycle as int),
        ) {
            (Some(i), Some(c)) => if past {
                if i.value == i64::MIN {
                    Err(ProductionError::Overflow)
                } else {
                    Ok(
                        Dimension::Time(
                            span_spec(
                                cycle_spec(c.grain, (-i.value) as i64),
                                cycle_spec(c.grain, 0),
                                false,
                            ),
                        ),
                    )
                }
            } else {
                Ok(
                    Dimension::Time(
                        span_spec(cycle_spec(c.grain, 1), cycle_spec(c.grain, i.value), true),
                    ),
                )
            },
            _ => bad(),
        },
        Production::Quarter { integer } => match integer_at(args, integer as int) {
            Some(i) => if i.value == i64::MIN {
                Err(ProductionError::Overflow)
            } else {
                Ok(
                    Dimension::Time(
                        cycle_after_spec(
                            Grain::Quarter,
                            (i.value - 1) as i64,
                            cycle_spec(Grain::Year, 0),
                            false,
                        ),
                    ),
                )
            },
            None => bad(),
        },
        Production::QuarterOf { time, integer } => match (
            time_at(args, time as int),
            integer_at(args, integer as int),
        ) {
            (Some(t), Some(i)) => if i.value == i64::MIN {
                Err(ProductionError::Overflow)
            } else {
                Ok(
                    Dimension::Time(
                        cycle_after_spec(Grain::Quarter, (i.value - 1) as i64, t, false),
                    ),
                )
            },
            _ => bad(),
        },
        Production::LastCycleOf { cycle, outer } => match (
            cycle_at(args, cycle as int),
            time_at(args, outer as int),
        ) {
            (Some(c), Some(t)) => Ok(Dimension::Time(last_cycle_spec(c.grain, t))),
            _ => bad(),
        },
        Production::NthCycleAfter { time, ordinal, cycle } => match (
            time_at(args, time as int),
            ordinal_at(args, ordinal as int),
            cycle_at(args, cycle as int),
        ) {
            (Some(t), Some(o), Some(c)) => if o.value == i64::MIN {
                Err(ProductionError::Overflow)
            } else {
                Ok(Dimension::Time(cycle_after_spec(c.grain, (o.value - 1) as i64, t, true)))
            },
            _ => bad(),
        },
        _ => bad(),
    }
}

/// The time value with the changes that `Adjust` makes.
pub open spec fn adjusted(
    t: TimeValue,
    clear_latent: bool,
    approximate: bool,
    direction: Direction,
) -> TimeValue {
    TimeValue {
        latent: if clear_latent {
            false
        } else {
            t.latent
        },
        precision: if approximate {
            Precision::Approximate
        } else {
            t.precision
        },
        direction: if direction == Direction::Neither {
            t.direction
        } else {
            direction
        },
        ..t
    }
}

/// The half of the day before noon, or the half from noon on.
pub open spec fn half_day(afternoon: bool) -> TimeValue {
    if afternoon {
        span_spec(hour_time(12, false), hour_time(0, false), false)
    } else {
        span_spec(hour_time(0, false), hour_time(12, false), false)
    }
}

/// Every day that is the given day of the week.
pub open spec fn weekday_time(w: Weekday) -> TimeValue {
    formed(Constraint::DayOfWeek(w), Form::DayOfWeek(w))
}

/// From Friday at six in the evening to the start of Monday.
pub open spec fn weekend() -> TimeValue {
    span_spec(
        weekday_time(Weekday::Fri).intersection(hour_time(18, false)),
        weekday_time(Weekday::Mon).intersection(hour_time(0, false)),
        false,
    )
}

/// The start of a part of the day.
pub open spec fn part_start(h: i64, m: i64) -> Result<TimeValue, ProductionError> {
    if m == 0 {
        hour_spec(h, false)
    } else {
        hour_minute_spec(h, m, false)
    }
}

/// What the productions that make times and relative minutes give.
pub open spec fn produced_time(p: Production, args: Seq<ArgView>) -> Result<
    Dimension,
    ProductionError,
> {
    match p {
        Production::Intersect { left, right } => match (
            time_at(args, left as int),
            time_at(args, right as int),
        ) {
            (Some(a), Some(b)) => lift_time(intersect_spec(a, b)),
            _ => bad(),
        },
        Production::Adjust { child, clear_latent, approximate, direction } => match time_at(
            args,
            child as int,
        ) {
            Some(t) => Ok(Dimension::Time(adjusted(t, clear_latent, approximate, direction))),
            None => bad(),
        },
        Production::WeekdayWord { child, group } => match text_at(
            args,
            child as int,
            group as int,
        ) {
            Some(s) => match weekday_value(s) {
                Some(w) => Ok(Dimension::Time(weekday_time(w))),
                None => bad(),
            },
            None => bad(),
        },
        Production::MonthOf { child } => match integer_at(args, child as int) {
            Some(i) => lift_time(month_spec(i.value)),
            None => bad(),
        },
        Production::DayOf { child } => match integer_at(args, child as int) {
            Some(i) => lift_time(day_spec(i.value)),
            None => bad(),
        },
        Production::DayNumeral { child, group } => match text_at(args, child as int, group as int) {
            Some(s) => lift_time(day_spec(day_value(s) as i64)),
            None => bad(),
        },
        Production::DayDigit { child, group } => match text_at(args, child as int, group as int) {
            Some(s) => if s.len() == 1 {
                lift_time(day_spec(digit_value(s[0]) as i64))
            } else {
                bad()
            },
            None => bad(),
        },
        Production::MonthDay { month, day } => lift_time(month_day_spec(month, day)),
        Production::TheNth { child, n } => match time_at(args, child as int) {
            Some(t) => Ok(Dimension::Time(nth_spec(t, n))),
            None => bad(),
        },
        Production::LastOf { inner, outer } => match (
            time_at(args, inner as int),
            time_at(args, outer as int),
        ) {
            (Some(a), Some(b)) => Ok(Dimension::Time(last_of_spec(a, b))),
            _ => bad(),
        },
        Production::NthOf { left, ordinal, right } => match (
            time_at(args, left as int),
            ordinal_at(args, ordinal as int),
            time_at(args, right as int),
        ) {
            (Some(a), Some(o), Some(b)) => match intersect_spec(a, b) {
                Ok(t) => if o.value == i64::MIN {
                    Err(ProductionError::Overflow)
                } else {
                    Ok(Dimension::Time(nth_spec(t, (o.value - 1) as i64)))
                },
                Err(e) => Err(e),
            },
            _ => bad(),
        },
        Production::YearOf { child } => match integer_at(args, child as int) {
            Some(i) => lift_time(year_spec(i.value)),
            None => bad(),
        },
        Production::HourOf { child, latent } => match integer_at(args, child as int) {
            Some(i) => if latent {
                match hour_spec(i.value, true) {
                    Ok(t) => Ok(Dimension::Time(TimeValue { latent: true, ..t })),
                    Err(e) => Err(e),
                }
            } else {
                lift_time(hour_or_midnight_spec(i.value, true))
            },
            None => bad(),
        },
        Production::ClockText { child, seconds } => match (
            text_at(args, child as int, 1),
            text_at(args, child as int, 2),
        ) {
            (Some(a), Some(b)) => match (parsed(a), parsed(b)) {
                (Some(h), Some(m)) => if seconds {
                    match text_at(args, child as int, 3) {
                        Some(c) => match parsed(c) {
                            Some(s) => lift_time(hour_minute_second_spec(h, m, s, true)),
                            None => bad(),
                        },
                        None => bad(),
                    }
                } else {
                    lift_time(hour_minute_spec(h, m, true))
                },
                _ => bad(),
            },
            _ => bad(),
        },
        Production::HalfDay { child, afternoon } => match time_at(args, child as int) {
            Some(t) => match intersect_spec(t, half_day(afternoon)) {
                Ok(v) => Ok(
                    Dimension::Time(TimeValue { form: Form::TimeOfDay(HourForm::Unknown), ..v }),
                ),
                Err(e) => Err(e),
            },
            None => bad(),
        },
        Production::Hour { hour } => lift_time(hour_spec(hour, false)),
        Production::Minutes { minutes } => Ok(
            Dimension::RelativeMinute(RelativeMinuteValue { minutes }),
        ),
        Production::MinutesOf { child } => match integer_at(args, child as int) {
            Some(i) => Ok(Dimension::RelativeMinute(RelativeMinuteValue { minutes: i.value })),
            None => bad(),
        },
        Production::HourPlusMinutes { clock, minutes_at: offset, before } => match (
            time_at(args, clock as int),
            minutes_at(args, offset as int),
        ) {
            (Some(t), Some(m)) => match t.form {
                Form::TimeOfDay(HourForm::Known { full_hour, twelve }) => if before {
                    if m.minutes == i64::MIN {
                        Err(ProductionError::Overflow)
                    } else {
                        lift_time(relative_spec(full_hour, (-m.minutes) as i64, true))
                    }
                } else {
                    lift_time(relative_spec(full_hour, m.minutes, true))
                },
                _ => bad(),
            },
            _ => bad(),
        },
        Production::HourMinuteOf { clock, minute } => match (
            time_at(args, clock as int),
            integer_at(args, minute as int),
        ) {
            (Some(t), Some(i)) => match t.form {
                Form::TimeOfDay(HourForm::Known { full_hour, twelve }) => lift_time(
                    hour_minute_spec(full_hour, i.value, true),
                ),
                _ => bad(),
            },
            _ => bad(),
        },
        Production::SecondOf { child } => match integer_at(args, child as int) {
            Some(i) => lift_time(second_spec(i.value)),
            None => bad(),
        },
        Production::DateText { child, year } => if year {
            match (
                text_at(args, child as int, 1),
                text_at(args, child as int, 2),
                text_at(args, child as int, 3),
            ) {
                (Some(a), Some(b), Some(c)) => match (parsed(a), parsed(b), parsed(c)) {
                    (Some(y), Some(m), Some(d)) => lift_time(ymd_spec(y, m, d)),
                    _ => bad(),
                },
                _ => bad(),
            }
        } else {
            match (text_at(args, child as int, 1), text_at(args, child as int, 2)) {
                (Some(a), Some(b)) => match (parsed(a), parsed(b)) {
                    (Some(m), Some(d)) => lift_time(month_day_spec(m, d)),
                    _ => bad(),
                },
                _ => bad(),
            }
        },
        Production::PartOfDay { from_hour, from_minute, to_hour } => match part_start(
            from_hour,
            from_minute,
        ) {
            Ok(a) => match hour_spec(to_hour, false) {
                Ok(b) => Ok(
                    Dimension::Time(
                        TimeValue { latent: true, form: Form::PartOfDay, ..span_spec(a, b, false) },
                    ),
                ),
                Err(e) => Err(e),
            },
            Err(e) => Err(e),
        },
        Production::Weekend => Ok(Dimension::Time(weekend())),
        Production::Season { from_month, from_day, to_month, to_day } => match month_day_spec(
            from_month,
            from_day,
        ) {
            Ok(a) => match month_day_spec(to_month, to_day) {
                Ok(b) => Ok(Dimension::Time(span_spec(a, b, false))),
                Err(e) => Err(e),
            },
            Err(e) => Err(e),
        },
        Production::SpanTo { from, to, inclusive } => match (
            time_at(args, from as int),
            time_at(args, to as int),
        ) {
            (Some(a), Some(b)) => Ok(Dimension::Time(span_spec(a, b, inclusive))),
            _ => bad(),
        },
        Production::Within { child } => match duration_at(args, child as int) {
            Some(d) => match shift_spec(now(), d.period, d.precision) {
                Ok(t) => Ok(Dimension::Time(span_spec(cycle_spec(Grain::Second, 0), t, false))),
                Err(e) => Err(e),
            },
            None => bad(),
        },
        Production::Until { child } => match time_at(args, child as int) {
            Some(t) => Ok(Dimension::Time(span_spec(cycle_spec(Grain::Second, 0), t, false))),
            None => bad(),
        },
        Production::Since { child } => match time_at(args, child as int) {
            Some(t) => Ok(
                Dimension::Time(TimeValue { direction: Direction::After, ..nth_spec(t, -1i64) }),
            ),
            None => bad(),
        },
        Production::AfterTime { time, duration } => match (
            time_at(args, time as int),
            duration_at(args, duration as int),
        ) {
            (Some(t), Some(d)) => lift_time(shift_spec(t.constraint, d.period, d.precision)),
            _ => bad(),
        },
        _ => bad(),
    }
}

/// Which of the three groups a production belongs to: 0 for numbers, 1 for
/// durations and cycles, 2 for times.
pub open spec fn group_of(p: Production) -> int {
    match p {
        Production::IntegerText { .. }
        | Production::DecimalText { .. }
        | Production::Integer { .. }
        | Production::Magnitude { .. }
        | Production::Ratio { .. }
        | Production::Numeral { .. }
        | Production::NumberWord { .. }
        | Production::Ordinal { .. }
        | Production::OrdinalOf { .. }
        | Production::Sum { .. }
        | Production::Product { .. }
        | Production::Compose { .. }
        | Production::DotDigits { .. }
        | Production::Negative { .. }
        | Production::Quotient { .. } => 0,
        Production::Same { .. }
        | Production::Unit { .. }
        | Production::Span { .. }
        | Production::DurationOf { .. }
        | Production::DurationPrecision { .. }
        | Production::DecimalHours { .. }
        | Production::HoursAndHalf { .. }
        | Production::InPresent { .. }
        | Production::Ago { .. }
        | Production::DaysWord { .. }
        | Production::Cycle { .. }
        | Production::CycleNth { .. }
        | Production::CycleNthOf { .. }
        | Production::CycleTwice { .. }
        | Production::CycleCount { .. }
        | Production::CycleRange { .. }
        | Production::Quarter { .. }
        | Production::QuarterOf { .. }
        | Production::LastCycleOf { .. }
        | Production::NthCycleAfter { .. } => 1,
        _ => 2,
    }
}

/// The value that a production makes of its matched children, or why it
/// makes none.
pub open spec fn produced(p: Production, args: Seq<ArgView>) -> Result<Dimension, ProductionError> {
    if group_of(p) == 0 {
        produced_number(p, args)
    } else if group_of(p) == 1 {
        produced_span(p, args)
    } else {
        produced_time(p, args)
    }
}

/// The intersection of two times does not depend on which comes first.
pub proof fn lemma_intersect_commutes(a: TimeValue, b: TimeValue)
    ensures
        intersect_spec(a, b) == intersect_spec(b, a),
{
    crate::time::lemma_intersection_commutes(a, b);
}

/// The digits of a number below ten to the eighteenth are read back as the
/// number: the rule for numbers in digits makes the number of them, and the
/// number resolves to itself.
pub proof fn lemma_integer_text(n: nat, args: Seq<ArgView>, child: usize, group: usize, r: int)
    requires
        n < pow10(18),
        text_at(args, child as int, group as int) == Some(crate::number::decimal_digits(n)),
    ensures
        1 <= crate::number::decimal_digits(n).len() <= 18,
        crate::number::all_digits(crate::number::decimal_digits(n)),
        parsed(crate::number::decimal_digits(n)) == Some(n as i64),
        produced(Production::IntegerText { child, group, separated: false }, args) == Ok::<
            Dimension,
            ProductionError,
        >(whole(n as i64)),
        crate::output::resolved(whole(n as i64), r) == Some(
            crate::output::Output::Integer(crate::output::IntegerOutput(n as i64)),
        ),
{
    crate::number::lemma_decimal_round_trip(n);
    crate::number::lemma_decimal_length(n, 18);
    crate::number::lemma_pow10_18();
}

/// A sign is applied once: the rule for the negative prefix makes nothing
/// of a number that has a prefix, and what it makes has one.
pub proof fn lemma_negative_once(args: Seq<ArgView>, child: usize)
    ensures
        match produced(Production::Negative { child }, args) {
            Ok(v) => match (v, number_at(args, child as int)) {
                (Dimension::Number(n), Some(m)) => n.is_prefixed() && !m.is_prefixed() && n.top()
                    == -m.top() && n.bottom() == m.bottom(),
                _ => false,
            },
            Err(_) => true,
        },
{
}

} // verus!
