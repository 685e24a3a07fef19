//! Running a production on its matched children.

use vstd::prelude::*;
use crate::args::args_wf;
use crate::args::cycle_of;
use crate::args::duration_of;
use crate::args::integer_of;
use crate::args::minutes_of;
use crate::args::number_of;
use crate::args::ordinal_of;
use crate::args::text_of;
use crate::args::time_of;
use crate::args::unit_of;
use crate::args::value_of;
use crate::args::views;
use crate::args::Arg;
use crate::dimension::Dimension;
use crate::duration::CycleValue;
use crate::duration::DurationValue;
use crate::duration::Period;
use crate::duration::RelativeMinuteValue;
use crate::duration::UnitOfDurationValue;
use crate::error::ProductionError;
use crate::grain::Grain;
use crate::helpers::cycle_n_not_immediate;
use crate::helpers::cycle_nth;
use crate::helpers::cycle_nth_after;
use crate::helpers::cycle_nth_after_not_immediate;
use crate::helpers::day_of_month;
use crate::helpers::day_of_week;
use crate::helpers::decimal_hour_in_minute;
use crate::helpers::hour;
use crate::helpers::hour_minute;
use crate::helpers::hour_minute_second;
use crate::helpers::hour_or_midnight;
use crate::helpers::hour_relative_minute;
use crate::helpers::month;
use crate::helpers::month_day;
use crate::helpers::second;
use crate::helpers::year;
use crate::helpers::ymd;
use crate::korean::day_numeral;
use crate::korean::decimals;
use crate::korean::digit;
use crate::korean::numeral;
use crate::number::negate;
use crate::number::parse_decimal;
use crate::number::parse_integer;
use crate::number::plus;
use crate::number::power_of_ten;
use crate::number::quotient;
use crate::number::strip;
use crate::number::sum;
use crate::number::times;
use crate::number::FloatValue;
use crate::number::IntegerValue;
use crate::number::NumberValue;
use crate::number::OrdinalValue;
use crate::number::Precision;
use crate::produce::group_of;
use crate::produce::lift_float;
use crate::produce::lift_time;
use crate::produce::produced;
use crate::produce::produced_number;
use crate::produce::produced_span;
use crate::produce::produced_time;
use crate::rule::Production;
use crate::rule::WordTable;
use crate::time::Constraint;
use crate::time::Direction;
use crate::time::Form;
use crate::time::HourForm;
use crate::time::TimeValue;
use crate::time::Weekday;
use crate::words::weekday_word;
use crate::words::word_number;

verus! {

fn as_time(r: Result<TimeValue, ProductionError>) -> (d: Result<Dimension, ProductionError>)
    ensures
        d == lift_time(r),
{
    match r {
        Ok(t) => Ok(Dimension::Time(t)),
        Err(e) => Err(e),
    }
}

fn as_float(r: Result<FloatValue, ProductionError>) -> (d: Result<Dimension, ProductionError>)
    ensures
        d == lift_float(r),
{
    match r {
        Ok(f) => Ok(Dimension::Number(NumberValue::Float(f))),
        Err(e) => Err(e),
    }
}

fn integer(v: i64) -> (d: Dimension)
    ensures
        d == crate::produce::whole(v),
        d.wf(),
{
    Dimension::Number(NumberValue::Integer(IntegerValue::new(v)))
}

fn read_integer(s: &Vec<char>, separated: bool) -> (r: Option<i64>)
    ensures
        r == crate::number::parsed(crate::produce::cleaned(s@, separated)),
{
    if separated {
        let c = strip(s, ',');
        parse_integer(&c)
    } else {
        parse_integer(s)
    }
}

fn duration(g: Grain, n: i64) -> (d: Dimension)
    ensures
        d == crate::produce::plain_duration(g, n),
        d.wf(),
{
    Dimension::Duration(DurationValue::new(Period::of(g, n)))
}

fn make_integer_text(child: usize, group: usize, separated: bool, args: &Vec<Arg>) -> (r: Result<Dimension, ProductionError>)
    requires
        args_wf(views(args@)),
    ensures
        r == produced_number(Production::IntegerText { child, group, separated }, views(args@)),
        r matches Ok(v) ==> v.wf(),
{
    match text_of(args, child, group) {
        Some(s) => match read_integer(s, separated) {
            Some(v) => Ok(integer(v)),
            None => Err(ProductionError::Malformed),
        },
        None => Err(ProductionError::Malformed),
    }
}

fn make_decimal_text(child: usize, group: usize, separated: bool, args: &Vec<Arg>) -> (r: Result<Dimension, ProductionError>)
    requires
        args_wf(views(args@)),
    ensures
        r == produced_number(Production::DecimalText { child, group, separated }, views(args@)),
        r matches Ok(v) ==> v.wf(),
{
    match text_of(args, child, group) {
        Some(s) => {
            if separated {
                let c = strip(s, ',');
                as_float(parse_decimal(&c))
            } else {
                as_float(parse_decimal(s))
            }
        },
        None => Err(ProductionError::Malformed),
    }
}

fn make_integer(value: i64, approximate: bool, args: &Vec<Arg>) -> (r: Result<Dimension, ProductionError>)
    requires
        args_wf(views(args@)),
    ensures
        r == produced_number(Production::Integer { value, approximate }, views(args@)),
        r matches Ok(v) ==> v.wf(),
{
    {
        let precision = if approximate {
            Precision::Approximate
        } else {
            Precision::Exact
        };
        Ok(
            Dimension::Number(
                NumberValue::Integer(
                    IntegerValue {
                        value,
                        grain: 0,
                        group: false,
                        prefixed: false,
                        suffixed: false,
                        precision,
                    },
                ),
            ),
        )
    }
}

fn make_magnitude(value: i64, power: u8, args: &Vec<Arg>) -> (r: Result<Dimension, ProductionError>)
    requires
        args_wf(views(args@)),
    ensures
        r == produced_number(Production::Magnitude { value, power }, views(args@)),
        r matches Ok(v) ==> v.wf(),
{
    Ok(
        Dimension::Number(NumberValue::Integer(IntegerValue::new_with_grain(value, power))),
    )
}

fn make_ratio(numerator: i64, denominator: i64, args: &Vec<Arg>) -> (r: Result<Dimension, ProductionError>)
    requires
        args_wf(views(args@)),
    ensures
        r == produced_number(Production::Ratio { numerator, denominator }, views(args@)),
        r matches Ok(v) ==> v.wf(),
{
    as_float(
        FloatValue::new(numerator, denominator),
    )
}

fn make_numeral(child: usize, args: &Vec<Arg>) -> (r: Result<Dimension, ProductionError>)
    requires
        args_wf(views(args@)),
    ensures
        r == produced_number(Production::Numeral { child }, views(args@)),
        r matches Ok(v) ==> v.wf(),
{
    match text_of(args, child, 0) {
        Some(s) => Ok(integer(numeral(s))),
        None => Err(ProductionError::Malformed),
    }
}

fn make_number_word(child: usize, group: usize, table: WordTable, args: &Vec<Arg>) -> (r: Result<Dimension, ProductionError>)
    requires
        args_wf(views(args@)),
    ensures
        r == produced_number(Production::NumberWord { child, group, table }, views(args@)),
        r matches Ok(v) ==> v.wf(),
{
    match text_of(args, child, group) {
        Some(s) => match word_number(table, s) {
            Some(v) => Ok(integer(v)),
            None => Err(ProductionError::Malformed),
        },
        None => Err(ProductionError::Malformed),
    }
}

fn make_ordinal(value: i64, args: &Vec<Arg>) -> (r: Result<Dimension, ProductionError>)
    requires
        args_wf(views(args@)),
    ensures
        r == produced_number(Production::Ordinal { value }, views(args@)),
        r matches Ok(v) ==> v.wf(),
{
    Ok(Dimension::Ordinal(OrdinalValue { value }))
}

fn make_ordinal_of(child: usize, args: &Vec<Arg>) -> (r: Result<Dimension, ProductionError>)
    requires
        args_wf(views(args@)),
    ensures
        r == produced_number(Production::OrdinalOf { child }, views(args@)),
        r matches Ok(v) ==> v.wf(),
{
    match integer_of(args, child) {
        Some(i) => Ok(Dimension::Ordinal(OrdinalValue { value: i.value })),
        None => Err(ProductionError::Malformed),
    }
}

fn make_sum(left: usize, right: usize, args: &Vec<Arg>) -> (r: Result<Dimension, ProductionError>)
    requires
        args_wf(views(args@)),
    ensures
        r == produced_number(Production::Sum { left, right }, views(args@)),
        r matches Ok(v) ==> v.wf(),
{
    match (integer_of(args, left), integer_of(args, right)) {
        (Some(a), Some(b)) => match plus(a.value, b.value) {
            Some(v) => Ok(integer(v)),
            None => Err(ProductionError::Overflow),
        },
        _ => Err(ProductionError::Malformed),
    }
}

fn make_product(left: usize, right: usize, args: &Vec<Arg>) -> (r: Result<Dimension, ProductionError>)
    requires
        args_wf(views(args@)),
    ensures
        r == produced_number(Production::Product { left, right }, views(args@)),
        r matches Ok(v) ==> v.wf(),
{
    match (
        integer_of(args, left),
        integer_of(args, right),
    ) {
        (Some(a), Some(b)) => match times(a.value, b.value) {
            Some(v) => Ok(
                Dimension::Number(
                    NumberValue::Integer(IntegerValue::new_with_grain(v, b.grain)),
                ),
            ),
            None => Err(ProductionError::Overflow),
        },
        _ => Err(ProductionError::Malformed),
    }
}

fn make_compose(left: usize, right: usize, args: &Vec<Arg>) -> (r: Result<Dimension, ProductionError>)
    requires
        args_wf(views(args@)),
    ensures
        r == produced_number(Production::Compose { left, right }, views(args@)),
        r matches Ok(v) ==> v.wf(),
{
    match (
        integer_of(args, left),
        integer_of(args, right),
    ) {
        (Some(a), Some(b)) => {
            if a.grain <= 1 || a.grain > 18 || b.value < 0 {
                return Err(ProductionError::Malformed);
            }
            if b.value >= power_of_ten(a.grain as usize) {
                return Err(ProductionError::Malformed);
            }
            match plus(a.value, b.value) {
                Some(v) => Ok(integer(v)),
                None => Err(ProductionError::Overflow),
            }
        },
        _ => Err(ProductionError::Malformed),
    }
}

fn make_dot_digits(number: usize, digits: usize, group: usize, args: &Vec<Arg>) -> (r: Result<Dimension, ProductionError>)
    requires
        args_wf(views(args@)),
    ensures
        r == produced_number(Production::DotDigits { number, digits, group }, views(args@)),
        r matches Ok(v) ==> v.wf(),
{
    match (
        number_of(args, number),
        text_of(args, digits, group),
    ) {
        (Some(a), Some(s)) => match decimals(s) {
            Some((v, n)) => {
                if n == 0 {
                    return Err(ProductionError::Malformed);
                }
                let behind = NumberValue::Float(
                    FloatValue {
                        numerator: v,
                        denominator: power_of_ten(n),
                        prefixed: false,
                        suffixed: false,
                        precision: Precision::Exact,
                    },
                );
                as_float(sum(&a, &behind))
            },
            None => Err(ProductionError::Malformed),
        },
        _ => Err(ProductionError::Malformed),
    }
}

fn make_negative(child: usize, args: &Vec<Arg>) -> (r: Result<Dimension, ProductionError>)
    requires
        args_wf(views(args@)),
    ensures
        r == produced_number(Production::Negative { child }, views(args@)),
        r matches Ok(v) ==> v.wf(),
{
    match number_of(args, child) {
        Some(n) => if n.prefixed() {
            Err(ProductionError::Malformed)
        } else {
            match negate(n) {
                Ok(v) => Ok(Dimension::Number(v)),
                Err(e) => Err(e),
            }
        },
        None => Err(ProductionError::Malformed),
    }
}

fn make_quotient(top: usize, bottom: usize, args: &Vec<Arg>) -> (r: Result<Dimension, ProductionError>)
    requires
        args_wf(views(args@)),
    ensures
        r == produced_number(Production::Quotient { top, bottom }, views(args@)),
        r matches Ok(v) ==> v.wf(),
{
    match (
        number_of(args, top),
        number_of(args, bottom),
    ) {
        (Some(a), Some(b)) => as_float(quotient(&a, &b)),
        _ => Err(ProductionError::Malformed),
    }
}

fn make_same(child: usize, args: &Vec<Arg>) -> (r: Result<Dimension, ProductionError>)
    requires
        args_wf(views(args@)),
    ensures
        r == produced_span(Production::Same { child }, views(args@)),
        r matches Ok(v) ==> v.wf(),
{
    match value_of(args, child) {
        Some(d) => Ok(d.copy()),
        None => Err(ProductionError::Malformed),
    }
}

fn make_unit(grain: Grain, args: &Vec<Arg>) -> (r: Result<Dimension, ProductionError>)
    requires
        args_wf(views(args@)),
    ensures
        r == produced_span(Production::Unit { grain }, views(args@)),
        r matches Ok(v) ==> v.wf(),
{
    Ok(Dimension::UnitOfDuration(UnitOfDurationValue::new(grain)))
}

fn make_span(grain: Grain, count: i64, args: &Vec<Arg>) -> (r: Result<Dimension, ProductionError>)
    requires
        args_wf(views(args@)),
    ensures
        r == produced_span(Production::Span { grain, count }, views(args@)),
        r matches Ok(v) ==> v.wf(),
{
    Ok(duration(grain, count))
}

fn make_duration_of(integer: usize, unit: usize, args: &Vec<Arg>) -> (r: Result<Dimension, ProductionError>)
    requires
        args_wf(views(args@)),
    ensures
        r == produced_span(Production::DurationOf { integer, unit }, views(args@)),
        r matches Ok(v) ==> v.wf(),
{
    match (
        integer_of(args, integer),
        unit_of(args, unit),
    ) {
        (Some(i), Some(u)) => Ok(duration(u.grain, i.value)),
        _ => Err(ProductionError::Malformed),
    }
}

fn make_duration_precision(child: usize, approximate: bool, args: &Vec<Arg>) -> (r: Result<Dimension, ProductionError>)
    requires
        args_wf(views(args@)),
    ensures
        r == produced_span(Production::DurationPrecision { child, approximate }, views(args@)),
        r matches Ok(v) ==> v.wf(),
{
    match duration_of(args, child) {
        Some(d) => {
            let precision = if approximate {
                Precision::Approximate
            } else {
                Precision::Exact
            };
            Ok(Dimension::Duration(d.precision(precision)))
        },
        None => Err(ProductionError::Malformed),
    }
}

fn make_decimal_hours(child: usize, args: &Vec<Arg>) -> (r: Result<Dimension, ProductionError>)
    requires
        args_wf(views(args@)),
    ensures
        r == produced_span(Production::DecimalHours { child }, views(args@)),
        r matches Ok(v) ==> v.wf(),
{
    match (
        text_of(args, child, 1),
        text_of(args, child, 2),
    ) {
        (Some(w), Some(f)) => match decimal_hour_in_minute(w, f) {
            Ok(m) => Ok(duration(Grain::Minute, m)),
            Err(e) => Err(e),
        },
        _ => Err(ProductionError::Malformed),
    }
}

fn make_hours_and_half(child: usize, args: &Vec<Arg>) -> (r: Result<Dimension, ProductionError>)
    requires
        args_wf(views(args@)),
    ensures
        r == produced_span(Production::HoursAndHalf { child }, views(args@)),
        r matches Ok(v) ==> v.wf(),
{
    match integer_of(args, child) {
        Some(i) => match times(i.value, 60) {
            Some(m) => match plus(m, 30) {
                Some(v) => Ok(duration(Grain::Minute, v)),
                None => Err(ProductionError::Overflow),
            },
            None => Err(ProductionError::Overflow),
        },
        None => Err(ProductionError::Malformed),
    }
}

fn make_in_present(child: usize, after: bool, args: &Vec<Arg>) -> (r: Result<Dimension, ProductionError>)
    requires
        args_wf(views(args@)),
    ensures
        r == produced_span(Production::InPresent { child, after }, views(args@)),
        r matches Ok(v) ==> v.wf(),
{
    match duration_of(args, child) {
        Some(d) => match d.in_present() {
            Ok(t) => if after {
                Ok(Dimension::Time(t.direction(Direction::After)))
            } else {
                Ok(Dimension::Time(t))
            },
            Err(e) => Err(e),
        },
        None => Err(ProductionError::Malformed),
    }
}

fn make_ago(child: usize, args: &Vec<Arg>) -> (r: Result<Dimension, ProductionError>)
    requires
        args_wf(views(args@)),
    ensures
        r == produced_span(Production::Ago { child }, views(args@)),
        r matches Ok(v) ==> v.wf(),
{
    match duration_of(args, child) {
        Some(d) => as_time(d.ago()),
        None => Err(ProductionError::Malformed),
    }
}

fn make_days_word(child: usize, group: usize, args: &Vec<Arg>) -> (r: Result<Dimension, ProductionError>)
    requires
        args_wf(views(args@)),
    ensures
        r == produced_span(Production::DaysWord { child, group }, views(args@)),
        r matches Ok(v) ==> v.wf(),
{
    match text_of(args, child, group) {
        Some(s) => match word_number(WordTable::NamedDays, s) {
            Some(v) => Ok(duration(Grain::Day, v)),
            None => Err(ProductionError::Malformed),
        },
        None => Err(ProductionError::Malformed),
    }
}

fn make_cycle(grain: Grain, args: &Vec<Arg>) -> (r: Result<Dimension, ProductionError>)
    requires
        args_wf(views(args@)),
    ensures
        r == produced_span(Production::Cycle { grain }, views(args@)),
        r matches Ok(v) ==> v.wf(),
{
    Ok(Dimension::Cycle(CycleValue::new(grain)))
}

fn make_cycle_nth(grain: Grain, offset: i64, args: &Vec<Arg>) -> (r: Result<Dimension, ProductionError>)
    requires
        args_wf(views(args@)),
    ensures
        r == produced_span(Production::CycleNth { grain, offset }, views(args@)),
        r matches Ok(v) ==> v.wf(),
{
    Ok(Dimension::Time(cycle_nth(grain, offset)))
}

fn make_cycle_nth_of(cycle: usize, offset: i64, args: &Vec<Arg>) -> (r: Result<Dimension, ProductionError>)
    requires
        args_wf(views(args@)),
    ensures
        r == produced_span(Production::CycleNthOf { cycle, offset }, views(args@)),
        r matches Ok(v) ==> v.wf(),
{
    match cycle_of(args, cycle) {
        Some(c) => Ok(Dimension::Time(cycle_nth(c.grain, offset))),
        None => Err(ProductionError::Malformed),
    }
}

fn make_cycle_twice(grain: Grain, offset: i64, args: &Vec<Arg>) -> (r: Result<Dimension, ProductionError>)
    requires
        args_wf(views(args@)),
    ensures
        r == produced_span(Production::CycleTwice { grain, offset }, views(args@)),
        r matches Ok(v) ==> v.wf(),
{
    {
        let base = cycle_nth(grain, offset);
        Ok(Dimension::Time(cycle_nth_after(grain, offset, &base)))
    }
}

fn make_cycle_count(integer: usize, cycle: usize, past: bool, args: &Vec<Arg>) -> (r: Result<Dimension, ProductionError>)
    requires
        args_wf(views(args@)),
    ensures
        r == produced_span(Production::CycleCount { integer, cycle, past }, views(args@)),
        r matches Ok(v) ==> v.wf(),
{
    match (
        integer_of(args, integer),
        cycle_of(args, cycle),
    ) {
        (Some(i), Some(c)) => {
            if past && i.value == i64::MIN {
                return Err(ProductionError::Overflow);
            }
            let n: i64 = if past {
                -i.value
            } else {
                i.value
            };
            as_time(cycle_n_not_immediate(c.grain, n))
        },
        _ => Err(ProductionError::Malformed),
    }
}

fn make_cycle_range(integer: usize, cycle: usize, past: bool, args: &Vec<Arg>) -> (r: Result<Dimension, ProductionError>)
    requires
        args_wf(views(args@)),
    ensures
        r == produced_span(Production::CycleRange { integer, cycle, past }, views(args@)),
        r matches Ok(v) ==> v.wf(),
{
    match (
        integer_of(args, integer),
        cycle_of(args, cycle),
    ) {
        (Some(i), Some(c)) => {
            proof {
                reveal_with_fuel(Constraint::wf, 3);
            }
            if past {
                if i.value == i64::MIN {
                    return Err(ProductionError::Overflow);
                }
                let start = cycle_nth(c.grain, -i.value);
                let end = cycle_nth(c.grain, 0);
                Ok(Dimension::Time(start.span_to(&end, false)))
            } else {
                let start = cycle_nth(c.grain, 1);
                let end = cycle_nth(c.grain, i.value);
                Ok(Dimension::Time(start.span_to(&end, true)))
            }
        },
        _ => Err(ProductionError::Malformed),
    }
}

fn make_quarter(integer: usize, args: &Vec<Arg>) -> (r: Result<Dimension, ProductionError>)
    requires
        args_wf(views(args@)),
    ensures
        r == produced_span(Production::Quarter { integer }, views(args@)),
        r matches Ok(v) ==> v.wf(),
{
    match integer_of(args, integer) {
        Some(i) => {
            if i.value == i64::MIN {
                return Err(ProductionError::Overflow);
            }
            let base = cycle_nth(Grain::Year, 0);
            Ok(Dimension::Time(cycle_nth_after(Grain::Quarter, i.value - 1, &base)))
        },
        None => Err(ProductionError::Malformed),
    }
}

fn make_quarter_of(time: usize, integer: usize, args: &Vec<Arg>) -> (r: Result<Dimension, ProductionError>)
    requires
        args_wf(views(args@)),
    ensures
        r == produced_span(Production::QuarterOf { time, integer }, views(args@)),
        r matches Ok(v) ==> v.wf(),
{
    match (
        time_of(args, time),
        integer_of(args, integer),
    ) {
        (Some(t), Some(i)) => {
            if i.value == i64::MIN {
                return Err(ProductionError::Overflow);
            }
            Ok(Dimension::Time(cycle_nth_after(Grain::Quarter, i.value - 1, t)))
        },
        _ => Err(ProductionError::Malformed),
    }
}

fn make_last_cycle_of(cycle: usize, outer: usize, args: &Vec<Arg>) -> (r: Result<Dimension, ProductionError>)
    requires
        args_wf(views(args@)),
    ensures
        r == produced_span(Production::LastCycleOf { cycle, outer }, views(args@)),
        r matches Ok(v) ==> v.wf(),
{
    match (
        cycle_of(args, cycle),
        time_of(args, outer),
    ) {
        (Some(c), Some(t)) => Ok(Dimension::Time(c.last_of(t))),
        _ => Err(ProductionError::Malformed),
    }
}

fn make_nth_cycle_after(time: usize, ordinal: usize, cycle: usize, args: &Vec<Arg>) -> (r: Result<Dimension, ProductionError>)
    requires
        args_wf(views(args@)),
    ensures
        r == produced_span(Production::NthCycleAfter { time, ordinal, cycle }, views(args@)),
        r matches Ok(v) ==> v.wf(),
{
    match (
        time_of(args, time),
        ordinal_of(args, ordinal),
        cycle_of(args, cycle),
    ) {
        (Some(t), Some(o), Some(c)) => {
            if o.value == i64::MIN {
                return Err(ProductionError::Overflow);
            }
            Ok(Dimension::Time(cycle_nth_after_not_immediate(c.grain, o.value - 1, t)))
        },
        _ => Err(ProductionError::Malformed),
    }
}

fn make_intersect(left: usize, right: usize, args: &Vec<Arg>) -> (r: Result<Dimension, ProductionError>)
    requires
        args_wf(views(args@)),
    ensures
        r == produced_time(Production::Intersect { left, right }, views(args@)),
        r matches Ok(v) ==> v.wf(),
{
    match (time_of(args, left), time_of(args, right)) {
        (Some(a), Some(b)) => as_time(a.intersect(b)),
        _ => Err(ProductionError::Malformed),
    }
}

fn make_adjust(child: usize, clear_latent: bool, approximate: bool, direction: Direction, args: &Vec<Arg>) -> (r: Result<Dimension, ProductionError>)
    requires
        args_wf(views(args@)),
    ensures
        r == produced_time(Production::Adjust { child, clear_latent, approximate, direction }, views(args@)),
        r matches Ok(v) ==> v.wf(),
{
    match time_of(
        args,
        child,
    ) {
        Some(t) => {
            let latent = if clear_latent {
                false
            } else {
                t.latent
            };
            let precision = if approximate {
                Precision::Approximate
            } else {
                t.precision
            };
            let towards = match direction {
                Direction::Neither => t.direction,
                _ => direction,
            };
            Ok(
                Dimension::Time(
                    TimeValue {
                        constraint: t.constraint.copy(),
                        form: t.form,
                        direction: towards,
                        precision,
                        latent,
                    },
                ),
            )
        },
        None => Err(ProductionError::Malformed),
    }
}

fn make_weekday_word(child: usize, group: usize, args: &Vec<Arg>) -> (r: Result<Dimension, ProductionError>)
    requires
        args_wf(views(args@)),
    ensures
        r == produced_time(Production::WeekdayWord { child, group }, views(args@)),
        r matches Ok(v) ==> v.wf(),
{
    match text_of(args, child, group) {
        Some(s) => match weekday_word(s) {
            Some(w) => Ok(Dimension::Time(day_of_week(w))),
            None => Err(ProductionError::Malformed),
        },
        None => Err(ProductionError::Malformed),
    }
}

fn make_month_of(child: usize, args: &Vec<Arg>) -> (r: Result<Dimension, ProductionError>)
    requires
        args_wf(views(args@)),
    ensures
        r == produced_time(Production::MonthOf { child }, views(args@)),
        r matches Ok(v) ==> v.wf(),
{
    match integer_of(args, child) {
        Some(i) => as_time(month(i.value)),
        None => Err(ProductionError::Malformed),
    }
}

fn make_day_of(child: usize, args: &Vec<Arg>) -> (r: Result<Dimension, ProductionError>)
    requires
        args_wf(views(args@)),
    ensures
        r == produced_time(Production::DayOf { child }, views(args@)),
        r matches Ok(v) ==> v.wf(),
{
    match integer_of(args, child) {
        Some(i) => as_time(day_of_month(i.value)),
        None => Err(ProductionError::Malformed),
    }
}

fn make_day_numeral(child: usize, group: usize, args: &Vec<Arg>) -> (r: Result<Dimension, ProductionError>)
    requires
        args_wf(views(args@)),
    ensures
        r == produced_time(Production::DayNumeral { child, group }, views(args@)),
        r matches Ok(v) ==> v.wf(),
{
    match text_of(args, child, group) {
        Some(s) => as_time(day_of_month(day_numeral(s))),
        None => Err(ProductionError::Malformed),
    }
}

fn make_day_digit(child: usize, group: usize, args: &Vec<Arg>) -> (r: Result<Dimension, ProductionError>)
    requires
        args_wf(views(args@)),
    ensures
        r == produced_time(Production::DayDigit { child, group }, views(args@)),
        r matches Ok(v) ==> v.wf(),
{
    match text_of(args, child, group) {
        Some(s) => if s.len() == 1 {
            as_time(day_of_month(digit(s[0])))
        } else {
            Err(ProductionError::Malformed)
        },
        None => Err(ProductionError::Malformed),
    }
}

fn make_month_day(month: i64, day: i64, args: &Vec<Arg>) -> (r: Result<Dimension, ProductionError>)
    requires
        args_wf(views(args@)),
    ensures
        r == produced_time(Production::MonthDay { month, day }, views(args@)),
        r matches Ok(v) ==> v.wf(),
{
    as_time(month_day(month, day))
}

fn make_the_nth(child: usize, n: i64, args: &Vec<Arg>) -> (r: Result<Dimension, ProductionError>)
    requires
        args_wf(views(args@)),
    ensures
        r == produced_time(Production::TheNth { child, n }, views(args@)),
        r matches Ok(v) ==> v.wf(),
{
    match time_of(args, child) {
        Some(t) => Ok(Dimension::Time(t.the_nth(n))),
        None => Err(ProductionError::Malformed),
    }
}

fn make_last_of(inner: usize, outer: usize, args: &Vec<Arg>) -> (r: Result<Dimension, ProductionError>)
    requires
        args_wf(views(args@)),
    ensures
        r == produced_time(Production::LastOf { inner, outer }, views(args@)),
        r matches Ok(v) ==> v.wf(),
{
    match (time_of(args, inner), time_of(args, outer)) {
        (Some(a), Some(b)) => Ok(Dimension::Time(a.last_of(b))),
        _ => Err(ProductionError::Malformed),
    }
}

fn make_nth_of(left: usize, ordinal: usize, right: usize, args: &Vec<Arg>) -> (r: Result<Dimension, ProductionError>)
    requires
        args_wf(views(args@)),
    ensures
        r == produced_time(Production::NthOf { left, ordinal, right }, views(args@)),
        r matches Ok(v) ==> v.wf(),
{
    match (
        time_of(args, left),
        ordinal_of(args, ordinal),
        time_of(args, right),
    ) {
        (Some(a), Some(o), Some(b)) => match a.intersect(b) {
            Ok(t) => {
                if o.value == i64::MIN {
                    return Err(ProductionError::Overflow);
                }
                Ok(Dimension::Time(t.the_nth(o.value - 1)))
            },
            Err(e) => Err(e),
        },
        _ => Err(ProductionError::Malformed),
    }
}

fn make_year_of(child: usize, args: &Vec<Arg>) -> (r: Result<Dimension, ProductionError>)
    requires
        args_wf(views(args@)),
    ensures
        r == produced_time(Production::YearOf { child }, views(args@)),
        r matches Ok(v) ==> v.wf(),
{
    match integer_of(args, child) {
        Some(i) => as_time(year(i.value)),
        None => Err(ProductionError::Malformed),
    }
}

fn make_hour_of(child: usize, latent: bool, args: &Vec<Arg>) -> (r: Result<Dimension, ProductionError>)
    requires
        args_wf(views(args@)),
    ensures
        r == produced_time(Production::HourOf { child, latent }, views(args@)),
        r matches Ok(v) ==> v.wf(),
{
    match integer_of(args, child) {
        Some(i) => if latent {
            match hour(i.value, true) {
                Ok(t) => Ok(Dimension::Time(t.latent())),
                Err(e) => Err(e),
            }
        } else {
            as_time(hour_or_midnight(i.value, true))
        },
        None => Err(ProductionError::Malformed),
    }
}

fn make_clock_text(child: usize, seconds: bool, args: &Vec<Arg>) -> (r: Result<Dimension, ProductionError>)
    requires
        args_wf(views(args@)),
    ensures
        r == produced_time(Production::ClockText { child, seconds }, views(args@)),
        r matches Ok(v) ==> v.wf(),
{
    match (
        text_of(args, child, 1),
        text_of(args, child, 2),
    ) {
        (Some(a), Some(b)) => match (parse_integer(a), parse_integer(b)) {
            (Some(h), Some(m)) => if seconds {
                match text_of(args, child, 3) {
                    Some(c) => match parse_integer(c) {
                        Some(s) => as_time(hour_minute_second(h, m, s, true)),
                        None => Err(ProductionError::Malformed),
                    },
                    None => Err(ProductionError::Malformed),
                }
            } else {
                as_time(hour_minute(h, m, true))
            },
            _ => Err(ProductionError::Malformed),
        },
        _ => Err(ProductionError::Malformed),
    }
}

fn make_half_day(child: usize, afternoon: bool, args: &Vec<Arg>) -> (r: Result<Dimension, ProductionError>)
    requires
        args_wf(views(args@)),
    ensures
        r == produced_time(Production::HalfDay { child, afternoon }, views(args@)),
        r matches Ok(v) ==> v.wf(),
{
    match time_of(args, child) {
        Some(t) => {
            let window = half_day_window(afternoon);
            match t.intersect(&window) {
                Ok(v) => Ok(Dimension::Time(v.form(Form::TimeOfDay(HourForm::Unknown)))),
                Err(e) => Err(e),
            }
        },
        None => Err(ProductionError::Malformed),
    }
}

fn make_hour(h: i64, args: &Vec<Arg>) -> (r: Result<Dimension, ProductionError>)
    requires
        args_wf(views(args@)),
    ensures
        r == produced_time(Production::Hour { hour: h }, views(args@)),
        r matches Ok(v) ==> v.wf(),
{
    as_time(hour(h, false))
}

fn make_minutes(minutes: i64, args: &Vec<Arg>) -> (r: Result<Dimension, ProductionError>)
    requires
        args_wf(views(args@)),
    ensures
        r == produced_time(Production::Minutes { minutes }, views(args@)),
        r matches Ok(v) ==> v.wf(),
{
    Ok(
        Dimension::RelativeMinute(RelativeMinuteValue { minutes }),
    )
}

fn make_minutes_of(child: usize, args: &Vec<Arg>) -> (r: Result<Dimension, ProductionError>)
    requires
        args_wf(views(args@)),
    ensures
        r == produced_time(Production::MinutesOf { child }, views(args@)),
        r matches Ok(v) ==> v.wf(),
{
    match integer_of(args, child) {
        Some(i) => Ok(Dimension::RelativeMinute(RelativeMinuteValue { minutes: i.value })),
        None => Err(ProductionError::Malformed),
    }
}

fn make_hour_plus_minutes(clock: usize, offset: usize, before: bool, args: &Vec<Arg>) -> (r: Result<Dimension, ProductionError>)
    requires
        args_wf(views(args@)),
    ensures
        r == produced_time(Production::HourPlusMinutes { clock, minutes_at: offset, before }, views(args@)),
        r matches Ok(v) ==> v.wf(),
{
    match (
        time_of(args, clock),
        minutes_of(args, offset),
    ) {
        (Some(t), Some(m)) => match t.form {
            Form::TimeOfDay(HourForm::Known { full_hour, twelve }) => if before {
                if m.minutes == i64::MIN {
                    Err(ProductionError::Overflow)
                } else {
                    as_time(hour_relative_minute(full_hour, -m.minutes, true))
                }
            } else {
                as_time(hour_relative_minute(full_hour, m.minutes, true))
            },
            _ => Err(ProductionError::Malformed),
        },
        _ => Err(ProductionError::Malformed),
    }
}

fn make_hour_minute_of(clock: usize, minute: usize, args: &Vec<Arg>) -> (r: Result<Dimension, ProductionError>)
    requires
        args_wf(views(args@)),
    ensures
        r == produced_time(Production::HourMinuteOf { clock, minute }, views(args@)),
        r matches Ok(v) ==> v.wf(),
{
    match (
        time_of(args, clock),
        integer_of(args, minute),
    ) {
        (Some(t), Some(i)) => match t.form {
            Form::TimeOfDay(HourForm::Known { full_hour, twelve }) => as_time(
                hour_minute(full_hour, i.value, true),
            ),
            _ => Err(ProductionError::Malformed),
        },
        _ => Err(ProductionError::Malformed),
    }
}

fn make_second_of(child: usize, args: &Vec<Arg>) -> (r: Result<Dimension, ProductionError>)
    requires
        args_wf(views(args@)),
    ensures
        r == produced_time(Production::SecondOf { child }, views(args@)),
        r matches Ok(v) ==> v.wf(),
{
    match integer_of(args, child) {
        Some(i) => as_time(second(i.value)),
        None => Err(ProductionError::Malformed),
    }
}

fn make_date_text(child: usize, year: bool, args: &Vec<Arg>) -> (r: Result<Dimension, ProductionError>)
    requires
        args_wf(views(args@)),
    ensures
        r == produced_time(Production::DateText { child, year }, views(args@)),
        r matches Ok(v) ==> v.wf(),
{
    if year {
        match (text_of(args, child, 1), text_of(args, child, 2), text_of(args, child, 3)) {
            (Some(a), Some(b), Some(c)) => match (
                parse_integer(a),
                parse_integer(b),
                parse_integer(c),
            ) {
                (Some(y), Some(m), Some(d)) => as_time(ymd(y, m, d)),
                _ => Err(ProductionError::Malformed),
            },
            _ => Err(ProductionError::Malformed),
        }
    } else {
        match (text_of(args, child, 1), text_of(args, child, 2)) {
            (Some(a), Some(b)) => match (parse_integer(a), parse_integer(b)) {
                (Some(m), Some(d)) => as_time(month_day(m, d)),
                _ => Err(ProductionError::Malformed),
            },
            _ => Err(ProductionError::Malformed),
        }
    }
}

fn make_part_of_day(from_hour: i64, from_minute: i64, to_hour: i64, args: &Vec<Arg>) -> (r: Result<Dimension, ProductionError>)
    requires
        args_wf(views(args@)),
    ensures
        r == produced_time(Production::PartOfDay { from_hour, from_minute, to_hour }, views(args@)),
        r matches Ok(v) ==> v.wf(),
{
    {
        let start = if from_minute == 0 {
            hour(from_hour, false)
        } else {
            hour_minute(from_hour, from_minute, false)
        };
        match start {
            Ok(a) => match hour(to_hour, false) {
                Ok(b) => Ok(Dimension::Time(a.span_to(&b, false).latent().form(Form::PartOfDay))),
                Err(e) => Err(e),
            },
            Err(e) => Err(e),
        }
    }
}

fn make_weekend(args: &Vec<Arg>) -> (r: Result<Dimension, ProductionError>)
    requires
        args_wf(views(args@)),
    ensures
        r == produced_time(Production::Weekend, views(args@)),
        r matches Ok(v) ==> v.wf(),
{
    as_time(weekend_time())
}

fn make_season(from_month: i64, from_day: i64, to_month: i64, to_day: i64, args: &Vec<Arg>) -> (r: Result<Dimension, ProductionError>)
    requires
        args_wf(views(args@)),
    ensures
        r == produced_time(Production::Season { from_month, from_day, to_month, to_day }, views(args@)),
        r matches Ok(v) ==> v.wf(),
{
    match month_day(
        from_month,
        from_day,
    ) {
        Ok(a) => match month_day(to_month, to_day) {
            Ok(b) => Ok(Dimension::Time(a.span_to(&b, false))),
            Err(e) => Err(e),
        },
        Err(e) => Err(e),
    }
}

fn make_span_to(from: usize, to: usize, inclusive: bool, args: &Vec<Arg>) -> (r: Result<Dimension, ProductionError>)
    requires
        args_wf(views(args@)),
    ensures
        r == produced_time(Production::SpanTo { from, to, inclusive }, views(args@)),
        r matches Ok(v) ==> v.wf(),
{
    match (time_of(args, from), time_of(args, to)) {
        (Some(a), Some(b)) => Ok(Dimension::Time(a.span_to(b, inclusive))),
        _ => Err(ProductionError::Malformed),
    }
}

fn make_within(child: usize, args: &Vec<Arg>) -> (r: Result<Dimension, ProductionError>)
    requires
        args_wf(views(args@)),
    ensures
        r == produced_time(Production::Within { child }, views(args@)),
        r matches Ok(v) ==> v.wf(),
{
    match duration_of(args, child) {
        Some(d) => match d.in_present() {
            Ok(t) => Ok(Dimension::Time(now_time().span_to(&t, false))),
            Err(e) => Err(e),
        },
        None => Err(ProductionError::Malformed),
    }
}

fn make_until(child: usize, args: &Vec<Arg>) -> (r: Result<Dimension, ProductionError>)
    requires
        args_wf(views(args@)),
    ensures
        r == produced_time(Production::Until { child }, views(args@)),
        r matches Ok(v) ==> v.wf(),
{
    match time_of(args, child) {
        Some(t) => Ok(Dimension::Time(now_time().span_to(t, false))),
        None => Err(ProductionError::Malformed),
    }
}

fn make_since(child: usize, args: &Vec<Arg>) -> (r: Result<Dimension, ProductionError>)
    requires
        args_wf(views(args@)),
    ensures
        r == produced_time(Production::Since { child }, views(args@)),
        r matches Ok(v) ==> v.wf(),
{
    match time_of(args, child) {
        Some(t) => Ok(Dimension::Time(t.the_nth(-1).direction(Direction::After))),
        None => Err(ProductionError::Malformed),
    }
}

fn make_after_time(time: usize, duration: usize, args: &Vec<Arg>) -> (r: Result<Dimension, ProductionError>)
    requires
        args_wf(views(args@)),
    ensures
        r == produced_time(Production::AfterTime { time, duration }, views(args@)),
        r matches Ok(v) ==> v.wf(),
{
    match (
        time_of(args, time),
        duration_of(args, duration),
    ) {
        (Some(t), Some(d)) => as_time(d.after(t)),
        _ => Err(ProductionError::Malformed),
    }
}

/// Runs a production that makes a number or an ordinal.
pub fn apply_number(p: &Production, args: &Vec<Arg>) -> (r: Result<Dimension, ProductionError>)
    requires
        args_wf(views(args@)),
    ensures
        r == produced_number(*p, views(args@)),
        r matches Ok(v) ==> v.wf(),
{
    match *p {
        Production::IntegerText { child, group, separated } => make_integer_text(child, group, separated, args),
        Production::DecimalText { child, group, separated } => make_decimal_text(child, group, separated, args),
        Production::Integer { value, approximate } => make_integer(value, approximate, args),
        Production::Magnitude { value, power } => make_magnitude(value, power, args),
        Production::Ratio { numerator, denominator } => make_ratio(numerator, denominator, args),
        Production::Numeral { child } => make_numeral(child, args),
        Production::NumberWord { child, group, table } => make_number_word(child, group, table, args),
        Production::Ordinal { value } => make_ordinal(value, args),
        Production::OrdinalOf { child } => make_ordinal_of(child, args),
        Production::Sum { left, right } => make_sum(left, right, args),
        Production::Product { left, right } => make_product(left, right, args),
        Production::Compose { left, right } => make_compose(left, right, args),
        Production::DotDigits { number, digits, group } => make_dot_digits(number, digits, group, args),
        Production::Negative { child } => make_negative(child, args),
        Production::Quotient { top, bottom } => make_quotient(top, bottom, args),
        _ => Err(ProductionError::Malformed),
    }
}

/// Runs a production that makes a duration, a unit or a cycle, or a time
/// from one of these.
pub fn apply_span(p: &Production, args: &Vec<Arg>) -> (r: Result<Dimension, ProductionError>)
    requires
        args_wf(views(args@)),
    ensures
        r == produced_span(*p, views(args@)),
        r matches Ok(v) ==> v.wf(),
{
    match *p {
        Production::Same { child } => make_same(child, args),
        Production::Unit { grain } => make_unit(grain, args),
        Production::Span { grain, count } => make_span(grain, count, args),
        Production::DurationOf { integer, unit } => make_duration_of(integer, unit, args),
        Production::DurationPrecision { child, approximate } => make_duration_precision(child, approximate, args),
        Production::DecimalHours { child } => make_decimal_hours(child, args),
        Production::HoursAndHalf { child } => make_hours_and_half(child, args),
        Production::InPresent { child, after } => make_in_present(child, after, args),
        Production::Ago { child } => make_ago(child, args),
        Production::DaysWord { child, group } => make_days_word(child, group, args),
        Production::Cycle { grain } => make_cycle(grain, args),
        Production::CycleNth { grain, offset } => make_cycle_nth(grain, offset, args),
        Production::CycleNthOf { cycle, offset } => make_cycle_nth_of(cycle, offset, args),
        Production::CycleTwice { grain, offset } => make_cycle_twice(grain, offset, args),
        Production::CycleCount { integer, cycle, past } => make_cycle_count(integer, cycle, past, args),
        Production::CycleRange { integer, cycle, past } => make_cycle_range(integer, cycle, past, args),
        Production::Quarter { integer } => make_quarter(integer, args),
        Production::QuarterOf { time, integer } => make_quarter_of(time, integer, args),
        Production::LastCycleOf { cycle, outer } => make_last_cycle_of(cycle, outer, args),
        Production::NthCycleAfter { time, ordinal, cycle } => make_nth_cycle_after(time, ordinal, cycle, args),
        _ => Err(ProductionError::Malformed),
    }
}

fn half_day_window(afternoon: bool) -> (t: TimeValue)
    ensures
        t == crate::produce::half_day(afternoon),
        t.wf(),
{
    proof {
        reveal_with_fuel(Constraint::wf, 3);
    }
    let noon = TimeValue::of(Constraint::Hour { hour: 12, twelve: false }).form(
        Form::TimeOfDay(HourForm::Known { full_hour: 12, twelve: false }),
    );
    let midnight = TimeValue::of(Constraint::Hour { hour: 0, twelve: false }).form(
        Form::TimeOfDay(HourForm::Known { full_hour: 0, twelve: false }),
    );
    if afternoon {
        noon.span_to(&midnight, false)
    } else {
        midnight.span_to(&noon, false)
    }
}

fn weekend_time() -> (r: Result<TimeValue, ProductionError>)
    ensures
        r == Ok::<TimeValue, ProductionError>(crate::produce::weekend()),
        r matches Ok(v) ==> v.wf(),
{
    proof {
        reveal_with_fuel(Constraint::wf, 4);
    }
    let six = TimeValue::of(Constraint::Hour { hour: 18, twelve: false }).form(
        Form::TimeOfDay(HourForm::Known { full_hour: 18, twelve: false }),
    );
    let midnight = TimeValue::of(Constraint::Hour { hour: 0, twelve: false }).form(
        Form::TimeOfDay(HourForm::Known { full_hour: 0, twelve: false }),
    );
    let friday = day_of_week(Weekday::Fri).intersect(&six);
    let monday = day_of_week(Weekday::Mon).intersect(&midnight);
    match (friday, monday) {
        (Ok(a), Ok(b)) => Ok(a.span_to(&b, false)),
        (Err(e), _) => Err(e),
        (_, Err(e)) => Err(e),
    }
}

fn now_time() -> (t: TimeValue)
    ensures
        t == crate::produce::cycle_spec(Grain::Second, 0),
        t.wf(),
{
    cycle_nth(Grain::Second, 0)
}

/// Runs a production that makes a time or relative minutes.
pub fn apply_time(p: &Production, args: &Vec<Arg>) -> (r: Result<Dimension, ProductionError>)
    requires
        args_wf(views(args@)),
    ensures
        r == produced_time(*p, views(args@)),
        r matches Ok(v) ==> v.wf(),
{
    match *p {
        Production::Intersect { left, right } => make_intersect(left, right, args),
        Production::Adjust { child, clear_latent, approximate, direction } => make_adjust(child, clear_latent, approximate, direction, args),
        Production::WeekdayWord { child, group } => make_weekday_word(child, group, args),
        Production::MonthOf { child } => make_month_of(child, args),
        Production::DayOf { child } => make_day_of(child, args),
        Production::DayNumeral { child, group } => make_day_numeral(child, group, args),
        Production::DayDigit { child, group } => make_day_digit(child, group, args),
        Production::MonthDay { month, day } => make_month_day(month, day, args),
        Production::TheNth { child, n } => make_the_nth(child, n, args),
        Production::LastOf { inner, outer } => make_last_of(inner, outer, args),
        Production::NthOf { left, ordinal, right } => make_nth_of(left, ordinal, right, args),
        Production::YearOf { child } => make_year_of(child, args),
        Production::HourOf { child, latent } => make_hour_of(child, latent, args),
        Production::ClockText { child, seconds } => make_clock_text(child, seconds, args),
        Production::HalfDay { child, afternoon } => make_half_day(child, afternoon, args),
        Production::Hour { hour: h } => make_hour(h, args),
        Production::Minutes { minutes } => make_minutes(minutes, args),
        Production::MinutesOf { child } => make_minutes_of(child, args),
        Production::HourPlusMinutes { clock, minutes_at: offset, before } => make_hour_plus_minutes(clock, offset, before, args),
        Production::HourMinuteOf { clock, minute } => make_hour_minute_of(clock, minute, args),
        Production::SecondOf { child } => make_second_of(child, args),
        Production::DateText { child, year } => make_date_text(child, year, args),
        Production::PartOfDay { from_hour, from_minute, to_hour } => make_part_of_day(from_hour, from_minute, to_hour, args),
        Production::Weekend => make_weekend(args),
        Production::Season { from_month, from_day, to_month, to_day } => make_season(from_month, from_day, to_month, to_day, args),
        Production::SpanTo { from, to, inclusive } => make_span_to(from, to, inclusive, args),
        Production::Within { child } => make_within(child, args),
        Production::Until { child } => make_until(child, args),
        Production::Since { child } => make_since(child, args),
        Production::AfterTime { time, duration } => make_after_time(time, duration, args),
        _ => Err(ProductionError::Malformed),
    }
}

fn group(p: &Production) -> (g: u8)
    ensures
        g == group_of(*p),
{
    match p {
        Production::IntegerText { .. }
        | Production::DecimalText { .. }
        | Production::Integer { .. }
        | Production::Magnitude { .. }
        | Production::Ratio { .. }
        | Production::Numeral { .. }
        | Production::NumberWord { .. }
        | Production::Ordinal { .. }
        | Production::OrdinalOf { .. }
        | Production::Sum { .. }
        | Production::Product { .. }
        | Production::Compose { .. }
        | Production::DotDigits { .. }
        | Production::Negative { .. }
        | Production::Quotient { .. } => 0,
        Production::Same { .. }
        | Production::Unit { .. }
        | Production::Span { .. }
        | Production::DurationOf { .. }
        | Production::DurationPrecision { .. }
        | Production::DecimalHours { .. }
        | Production::HoursAndHalf { .. }
        | Production::InPresent { .. }
        | Production::Ago { .. }
        | Production::DaysWord { .. }
        | Production::Cycle { .. }
        | Production::CycleNth { .. }
        | Production::CycleNthOf { .. }
        | Production::CycleTwice { .. }
        | Production::CycleCount { .. }
        | Production::CycleRange { .. }
        | Production::Quarter { .. }
        | Production::QuarterOf { .. }
        | Production::LastCycleOf { .. }
        | Production::NthCycleAfter { .. } => 1,
        _ => 2,
    }
}

/// Runs a production on its matched children: the value that it makes, or
/// why it makes none.
pub fn produce(p: &Production, args: &Vec<Arg>) -> (r: Result<Dimension, ProductionError>)
    requires
        args_wf(views(args@)),
    ensures
        r == produced(*p, views(args@)),
        r matches Ok(v) ==> v.wf(),
{
    let g: u8 = group(p);
    if g == 0 {
        apply_number(p, args)
    } else if g == 1 {
        apply_span(p, args)
    } else {
        apply_time(p, args)
    }
}

} // verus!
