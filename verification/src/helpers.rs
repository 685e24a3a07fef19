//! Constructors of time values from calendar fields. Each rejects a field
//! that lies outside its range.

use vstd::prelude::*;
use crate::error::ProductionError;
use crate::grain::Grain;
use crate::number::all_digits;
use crate::number::decimal_value;
use crate::number::fits;
use crate::number::is_digits;
use crate::number::parse_integer;
use crate::number::pow10;
use crate::number::power_of_ten;
use crate::time::Constraint;
use crate::time::Form;
use crate::time::HourForm;
use crate::time::TimeValue;
use crate::time::Weekday;

verus! {

/// The time value of an expression with a form.
pub open spec fn formed(constraint: Constraint, form: Form) -> TimeValue {
    TimeValue { form, ..TimeValue::plain(constraint) }
}

/// The intersection of two expressions, in the order given.
pub open spec fn both(a: Constraint, b: Constraint) -> Constraint {
    Constraint::Intersect(Box::new(a), Box::new(b))
}

fn make(constraint: Constraint, form: Form) -> (t: TimeValue)
    ensures
        t == formed(constraint, form),
{
    TimeValue::of(constraint).form(form)
}

fn pair(a: Constraint, b: Constraint) -> (c: Constraint)
    ensures
        c == both(a, b),
{
    Constraint::Intersect(Box::new(a), Box::new(b))
}

/// Every day that is the given day of the week.
pub fn day_of_week(day: Weekday) -> (t: TimeValue)
    ensures
        t == formed(Constraint::DayOfWeek(day), Form::DayOfWeek(day)),
        t.wf(),
{
    make(Constraint::DayOfWeek(day), Form::DayOfWeek(day))
}

/// Every month with the given number, from 1 to 12.
pub fn month(m: i64) -> (r: Result<TimeValue, ProductionError>)
    ensures
        1 <= m <= 12 ==> r == Ok::<TimeValue, ProductionError>(
            formed(Constraint::Month(m), Form::Month(m)),
        ),
        !(1 <= m <= 12) ==> r == Err::<TimeValue, ProductionError>(ProductionError::OutOfRange),
        r matches Ok(v) ==> v.wf(),
{
    if 1 <= m && m <= 12 {
        Ok(make(Constraint::Month(m), Form::Month(m)))
    } else {
        Err(ProductionError::OutOfRange)
    }
}

/// Every day with the given number in its month, from 1 to 31.
pub fn day_of_month(d: i64) -> (r: Result<TimeValue, ProductionError>)
    ensures
        1 <= d <= 31 ==> r == Ok::<TimeValue, ProductionError>(
            formed(Constraint::DayOfMonth(d), Form::Empty),
        ),
        !(1 <= d <= 31) ==> r == Err::<TimeValue, ProductionError>(ProductionError::OutOfRange),
        r matches Ok(v) ==> v.wf(),
{
    if 1 <= d && d <= 31 {
        Ok(make(Constraint::DayOfMonth(d), Form::Empty))
    } else {
        Err(ProductionError::OutOfRange)
    }
}

/// Every day `d` of month `m`.
pub fn month_day(m: i64, d: i64) -> (r: Result<TimeValue, ProductionError>)
    ensures
        1 <= m <= 12 && 1 <= d <= 31 ==> r == Ok::<TimeValue, ProductionError>(
            formed(both(Constraint::Month(m), Constraint::DayOfMonth(d)), Form::Empty),
        ),
        !(1 <= m <= 12 && 1 <= d <= 31) ==> r == Err::<TimeValue, ProductionError>(
            ProductionError::OutOfRange,
        ),
        r matches Ok(v) ==> v.wf(),
{
    if 1 <= m && m <= 12 && 1 <= d && d <= 31 {
        proof {
            reveal_with_fuel(Constraint::wf, 3);
        }
        Ok(make(pair(Constraint::Month(m), Constraint::DayOfMonth(d)), Form::Empty))
    } else {
        Err(ProductionError::OutOfRange)
    }
}

/// The year `y`, from 0 to 9999. A year below 100 is read at resolution as
/// the year with these two digits that lies nearest to the reference.
pub fn year(y: i64) -> (r: Result<TimeValue, ProductionError>)
    ensures
        0 <= y <= 9999 ==> r == Ok::<TimeValue, ProductionError>(
            formed(Constraint::Year(y), Form::Empty),
        ),
        !(0 <= y <= 9999) ==> r == Err::<TimeValue, ProductionError>(ProductionError::OutOfRange),
        r matches Ok(v) ==> v.wf(),
{
    if 0 <= y && y <= 9999 {
        Ok(make(Constraint::Year(y), Form::Empty))
    } else {
        Err(ProductionError::OutOfRange)
    }
}

/// Every hour `h` of a day, from 0 to 23; on a twelve-hour clock also the
/// hour twelve hours from it.
pub fn hour(h: i64, twelve: bool) -> (r: Result<TimeValue, ProductionError>)
    ensures
        0 <= h <= 23 ==> r == Ok::<TimeValue, ProductionError>(
            formed(
                Constraint::Hour { hour: h, twelve },
                Form::TimeOfDay(HourForm::Known { full_hour: h, twelve }),
            ),
        ),
        !(0 <= h <= 23) ==> r == Err::<TimeValue, ProductionError>(ProductionError::OutOfRange),
        r matches Ok(v) ==> v.wf(),
{
    if 0 <= h && h <= 23 {
        Ok(
            make(
                Constraint::Hour { hour: h, twelve },
                Form::TimeOfDay(HourForm::Known { full_hour: h, twelve }),
            ),
        )
    } else {
        Err(ProductionError::OutOfRange)
    }
}

/// As `hour`, where 24 is accepted too and names midnight.
pub fn hour_or_midnight(h: i64, twelve: bool) -> (r: Result<TimeValue, ProductionError>)
    ensures
        0 <= h <= 23 ==> r == Ok::<TimeValue, ProductionError>(
            formed(
                Constraint::Hour { hour: h, twelve },
                Form::TimeOfDay(HourForm::Known { full_hour: h, twelve }),
            ),
        ),
        h == 24 ==> r == Ok::<TimeValue, ProductionError>(
            formed(
                Constraint::Hour { hour: 0, twelve: false },
                Form::TimeOfDay(HourForm::Known { full_hour: 0, twelve: false }),
            ),
        ),
        !(0 <= h <= 24) ==> r == Err::<TimeValue, ProductionError>(ProductionError::OutOfRange),
        r matches Ok(v) ==> v.wf(),
{
    if h == 24 {
        hour(0, false)
    } else {
        hour(h, twelve)
    }
}

/// Minute `m` of hour `h`.
pub open spec fn clock(h: i64, m: i64, twelve: bool) -> Constraint {
    both(Constraint::Hour { hour: h, twelve }, Constraint::Minute(m))
}

/// Every minute `m` of hour `h`.
pub fn hour_minute(h: i64, m: i64, twelve: bool) -> (r: Result<TimeValue, ProductionError>)
    ensures
        0 <= h <= 23 && 0 <= m <= 59 ==> r == Ok::<TimeValue, ProductionError>(
            formed(clock(h, m, twelve), Form::TimeOfDay(HourForm::Unknown)),
        ),
        !(0 <= h <= 23 && 0 <= m <= 59) ==> r == Err::<TimeValue, ProductionError>(
            ProductionError::OutOfRange,
        ),
        r matches Ok(v) ==> v.wf(),
{
    if 0 <= h && h <= 23 && 0 <= m && m <= 59 {
        proof {
            reveal_with_fuel(Constraint::wf, 3);
        }
        Ok(
            make(
                pair(Constraint::Hour { hour: h, twelve }, Constraint::Minute(m)),
                Form::TimeOfDay(HourForm::Unknown),
            ),
        )
    } else {
        Err(ProductionError::OutOfRange)
    }
}

/// Every second `s` of minute `m` of hour `h`.
pub fn hour_minute_second(h: i64, m: i64, s: i64, twelve: bool) -> (r: Result<
    TimeValue,
    ProductionError,
>)
    ensures
        0 <= h <= 23 && 0 <= m <= 59 && 0 <= s <= 59 ==> r == Ok::<TimeValue, ProductionError>(
            formed(
                both(clock(h, m, twelve), Constraint::Second(s)),
                Form::TimeOfDay(HourForm::Unknown),
            ),
        ),
        !(0 <= h <= 23 && 0 <= m <= 59 && 0 <= s <= 59) ==> r == Err::<
            TimeValue,
            ProductionError,
        >(ProductionError::OutOfRange),
        r matches Ok(v) ==> v.wf(),
{
    if 0 <= h && h <= 23 && 0 <= m && m <= 59 && 0 <= s && s <= 59 {
        proof {
            reveal_with_fuel(Constraint::wf, 4);
        }
        Ok(
            make(
                pair(
                    pair(Constraint::Hour { hour: h, twelve }, Constraint::Minute(m)),
                    Constraint::Second(s),
                ),
                Form::TimeOfDay(HourForm::Unknown),
            ),
        )
    } else {
        Err(ProductionError::OutOfRange)
    }
}

/// Every second `s` of a minute, from 0 to 59.
pub fn second(s: i64) -> (r: Result<TimeValue, ProductionError>)
    ensures
        0 <= s <= 59 ==> r == Ok::<TimeValue, ProductionError>(
            formed(Constraint::Second(s), Form::Empty),
        ),
        !(0 <= s <= 59) ==> r == Err::<TimeValue, ProductionError>(ProductionError::OutOfRange),
        r matches Ok(v) ==> v.wf(),
{
    if 0 <= s && s <= 59 {
        Ok(make(Constraint::Second(s), Form::Empty))
    } else {
        Err(ProductionError::OutOfRange)
    }
}

/// The hour that comes before hour `h` on the clock.
pub open spec fn hour_before(h: i64, twelve: bool) -> i64 {
    if twelve {
        if h == 1 {
            12
        } else if h == 0 {
            11
        } else {
            (h - 1) as i64
        }
    } else {
        if h == 0 {
            23
        } else {
            (h - 1) as i64
        }
    }
}

/// The time `m` minutes after the full hour `h`, or `-m` minutes before it
/// where `m` is negative; `m` from -59 to 59.
pub fn hour_relative_minute(h: i64, m: i64, twelve: bool) -> (r: Result<
    TimeValue,
    ProductionError,
>)
    ensures
        0 <= h <= 23 && 0 <= m <= 59 ==> r == Ok::<TimeValue, ProductionError>(
            formed(clock(h, m, twelve), Form::TimeOfDay(HourForm::Unknown)),
        ),
        0 <= h <= 23 && -59 <= m < 0 ==> r == Ok::<TimeValue, ProductionError>(
            formed(
                clock(hour_before(h, twelve), (60 + m) as i64, twelve),
                Form::TimeOfDay(HourForm::Unknown),
            ),
        ),
        !(0 <= h <= 23 && -59 <= m <= 59) ==> r == Err::<TimeValue, ProductionError>(
            ProductionError::OutOfRange,
        ),
        r matches Ok(v) ==> v.wf(),
{
    if !(0 <= h && h <= 23 && -59 <= m && m <= 59) {
        return Err(ProductionError::OutOfRange);
    }
    if m >= 0 {
        hour_minute(h, m, twelve)
    } else {
        let before: i64 = if twelve {
            if h == 1 {
                12
            } else if h == 0 {
                11
            } else {
                h - 1
            }
        } else {
            if h == 0 {
                23
            } else {
                h - 1
            }
        };
        hour_minute(before, 60 + m, twelve)
    }
}

/// Day `d` of month `m` of year `y`.
pub fn ymd(y: i64, m: i64, d: i64) -> (r: Result<TimeValue, ProductionError>)
    ensures
        0 <= y <= 9999 && 1 <= m <= 12 && 1 <= d <= 31 ==> r == Ok::<TimeValue, ProductionError>(
            formed(
                both(both(Constraint::Year(y), Constraint::Month(m)), Constraint::DayOfMonth(d)),
                Form::Empty,
            ),
        ),
        !(0 <= y <= 9999 && 1 <= m <= 12 && 1 <= d <= 31) ==> r == Err::<
            TimeValue,
            ProductionError,
        >(ProductionError::OutOfRange),
        r matches Ok(v) ==> v.wf(),
{
    if 0 <= y && y <= 9999 && 1 <= m && m <= 12 && 1 <= d && d <= 31 {
        proof {
            reveal_with_fuel(Constraint::wf, 4);
        }
        Ok(
            make(
                pair(pair(Constraint::Year(y), Constraint::Month(m)), Constraint::DayOfMonth(d)),
                Form::Empty,
            ),
        )
    } else {
        Err(ProductionError::OutOfRange)
    }
}

/// The window of the grain that lies `n` windows after the present one.
pub fn cycle_nth(grain: Grain, n: i64) -> (t: TimeValue)
    ensures
        t == formed(Constraint::Cycle { grain, offset: n }, Form::Empty),
        t.wf(),
{
    make(Constraint::Cycle { grain, offset: n }, Form::Empty)
}

/// The window of the grain that lies `n` windows after the one in which
/// `time` begins.
pub fn cycle_nth_after(grain: Grain, n: i64, time: &TimeValue) -> (t: TimeValue)
    ensures
        t == formed(
            Constraint::CycleAfter { grain, n, base: Box::new(time.constraint), whole: false },
            Form::Empty,
        ),
        time.wf() ==> t.wf(),
{
    make(
        Constraint::CycleAfter { grain, n, base: Box::new(time.constraint.copy()), whole: false },
        Form::Empty,
    )
}

/// As `cycle_nth_after`, counting only windows that begin within `time`.
pub fn cycle_nth_after_not_immediate(grain: Grain, n: i64, time: &TimeValue) -> (t: TimeValue)
    ensures
        t == formed(
            Constraint::CycleAfter { grain, n, base: Box::new(time.constraint), whole: true },
            Form::Empty,
        ),
        time.wf() ==> t.wf(),
{
    make(
        Constraint::CycleAfter { grain, n, base: Box::new(time.constraint.copy()), whole: true },
        Form::Empty,
    )
}

/// The stretch from one expression to another.
pub open spec fn stretch(from: Constraint, to: Constraint, inclusive: bool) -> Constraint {
    Constraint::Span { from: Box::new(from), to: Box::new(to), inclusive }
}

/// The `n` windows of the grain that follow the present one, or for a
/// negative `n` the `-n` windows that precede it.
pub fn cycle_n_not_immediate(grain: Grain, n: i64) -> (r: Result<TimeValue, ProductionError>)
    ensures
        n > 0 ==> r == Ok::<TimeValue, ProductionError>(
            formed(
                stretch(
                    Constraint::Cycle { grain, offset: 1 },
                    Constraint::Cycle { grain, offset: n },
                    true,
                ),
                Form::Empty,
            ),
        ),
        n < 0 ==> r == Ok::<TimeValue, ProductionError>(
            formed(
                stretch(
                    Constraint::Cycle { grain, offset: n },
                    Constraint::Cycle { grain, offset: 0 },
                    false,
                ),
                Form::Empty,
            ),
        ),
        n == 0 ==> r == Err::<TimeValue, ProductionError>(ProductionError::OutOfRange),
        r matches Ok(v) ==> v.wf(),
{
    proof {
        reveal_with_fuel(Constraint::wf, 3);
    }
    if n > 0 {
        Ok(
            make(
                Constraint::Span {
                    from: Box::new(Constraint::Cycle { grain, offset: 1 }),
                    to: Box::new(Constraint::Cycle { grain, offset: n }),
                    inclusive: true,
                },
                Form::Empty,
            ),
        )
    } else if n < 0 {
        Ok(
            make(
                Constraint::Span {
                    from: Box::new(Constraint::Cycle { grain, offset: n }),
                    to: Box::new(Constraint::Cycle { grain, offset: 0 }),
                    inclusive: false,
                },
                Form::Empty,
            ),
        )
    } else {
        Err(ProductionError::OutOfRange)
    }
}

/// Minutes in a decimal number of hours: sixty times the whole part, plus
/// the sixtieths that the decimals make, rounded down.
pub open spec fn decimal_hours(whole: Seq<char>, decimals: Seq<char>) -> int {
    decimal_value(whole) * 60 + decimal_value(decimals) * 60 / pow10(decimals.len())
}

/// What `decimal_hour_in_minute` gives: the minutes, where both parts are
/// runs of digits, the second of at most 16, and the minutes fit.
pub open spec fn decimal_minutes(whole: Seq<char>, decimals: Seq<char>) -> Result<
    i64,
    ProductionError,
> {
    if !(whole.len() > 0 && 0 < decimals.len() <= 16 && all_digits(whole) && all_digits(decimals)) {
        Err(ProductionError::Malformed)
    } else if !fits(decimal_hours(whole, decimals)) {
        Err(ProductionError::Overflow)
    } else {
        Ok(decimal_hours(whole, decimals) as i64)
    }
}

/// The minutes in `whole.decimals` hours.
pub fn decimal_hour_in_minute(whole: &Vec<char>, decimals: &Vec<char>) -> (r: Result<
    i64,
    ProductionError,
>)
    ensures
        r == decimal_minutes(whole@, decimals@),
{
    if whole.len() == 0 || decimals.len() == 0 || decimals.len() > 16 || !is_digits(whole)
        || !is_digits(decimals) {
        return Err(ProductionError::Malformed);
    }
    proof {
        crate::number::lemma_decimal_bound(decimals@);
        crate::number::lemma_decimal_nonnegative(whole@);
        crate::number::lemma_pow10_monotonic(decimals@.len(), 16);
        reveal_with_fuel(pow10, 17);
    }
    let b = match parse_integer(decimals) {
        Some(b) => b,
        None => {
            return Err(ProductionError::Malformed);
        },
    };
    let scale: i64 = power_of_ten(decimals.len());
    let part: i64 = b * 60 / scale;
    assert(0 <= part < 60) by (nonlinear_arith)
        requires
            part == b * 60 / (scale as int),
            0 <= b < scale,
    ;
    match parse_integer(whole) {
        Some(a) => match a.checked_mul(60) {
            Some(hours) => match hours.checked_add(part) {
                Some(v) => Ok(v),
                None => Err(ProductionError::Overflow),
            },
            None => Err(ProductionError::Overflow),
        },
        None => Err(ProductionError::Overflow),
    }
}

} // verus!
