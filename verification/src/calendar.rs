//! The proleptic Gregorian calendar on integers.
//!
//! An *instant* is a number of seconds since 0001-01-01 00:00:00; a *day
//! number* is a number of days since 0001-01-01, which was a Monday. All
//! executable functions work on the years 1 to 9999.

use vstd::prelude::*;
use crate::grain::Grain;

verus! {

/// Number of days in the years 1 to 9999.
pub const MAX_DAY: i64 = 3652059;

/// Number of seconds in the years 1 to 9999.
pub const MAX_INSTANT: i64 = 315537897600;

/// Whether year `y` has 366 days.
pub open spec fn is_leap(y: int) -> bool {
    y % 4 == 0 && (y % 100 != 0 || y % 400 == 0)
}

/// Number of days of year `y`.
pub open spec fn year_length(y: int) -> int {
    if is_leap(y) {
        366
    } else {
        365
    }
}

/// Number of days of month `m` of year `y`.
pub open spec fn days_in_month(y: int, m: int) -> int {
    if m == 2 {
        if is_leap(y) {
            29
        } else {
            28
        }
    } else if m == 4 || m == 6 || m == 9 || m == 11 {
        30
    } else {
        31
    }
}

/// Days between 0001-01-01 and the first day of year `y`.
pub open spec fn days_before_year(y: int) -> int {
    365 * (y - 1) + (y - 1) / 4 - (y - 1) / 100 + (y - 1) / 400
}

/// Days between the first day of year `y` and the first day of its month `m`.
pub open spec fn days_before_month(y: int, m: int) -> int {
    let leap: int = if is_leap(y) && m > 2 {
        1
    } else {
        0
    };
    if m <= 1 {
        0
    } else if m == 2 {
        31
    } else if m == 3 {
        59 + leap
    } else if m == 4 {
        90 + leap
    } else if m == 5 {
        120 + leap
    } else if m == 6 {
        151 + leap
    } else if m == 7 {
        181 + leap
    } else if m == 8 {
        212 + leap
    } else if m == 9 {
        243 + leap
    } else if m == 10 {
        273 + leap
    } else if m == 11 {
        304 + leap
    } else if m == 12 {
        334 + leap
    } else {
        365 + leap
    }
}

/// Whether the three numbers name a day of the years 1 to 9999.
pub open spec fn valid_date(y: int, m: int, d: int) -> bool {
    1 <= y <= 9999 && 1 <= m <= 12 && 1 <= d <= days_in_month(y, m)
}

/// The day number of a calendar date.
pub open spec fn day_number(y: int, m: int, d: int) -> int {
    days_before_year(y) + days_before_month(y, m) + d - 1
}

/// A calendar date.
#[derive(Clone, Copy, Debug, PartialEq, Eq, Structural)]
pub struct Date {
    pub year: i64,
    pub month: i64,
    pub day: i64,
}

impl Date {
    /// Whether the date is a day of the years 1 to 9999.
    pub open spec fn valid(self) -> bool {
        valid_date(self.year as int, self.month as int, self.day as int)
    }

    /// The day number of the date.
    pub open spec fn number(self) -> int {
        day_number(self.year as int, self.month as int, self.day as int)
    }
}

/// The date that has the given day number.
pub open spec fn date_of_day(day: int) -> Date {
    choose|c: Date| c.valid() && c.number() == day
}

/// The next year begins when the days of this one have passed.
pub proof fn lemma_year_step(y: int)
    requires
        y >= 1,
    ensures
        days_before_year(y + 1) == days_before_year(y) + year_length(y),
{
}

/// A later year begins later, by the length of the earlier year at least.
pub proof fn lemma_years_monotonic(a: int, b: int)
    requires
        1 <= a <= b,
    ensures
        days_before_year(a) <= days_before_year(b),
        a < b ==> days_before_year(a) + year_length(a) <= days_before_year(b),
{
    if a < b {
        lemma_year_step(a);
        assert(days_before_year(a + 1) <= days_before_year(b)) by {
            let x = a;
            let z = b - 1;
            assert(365 * x + x / 4 - x / 100 + x / 400 <= 365 * z + z / 4 - z / 100 + z / 400);
        }
    }
}

/// The next month begins when the days of this one have passed, and the
/// months of a year take up the year.
pub proof fn lemma_month_step(y: int, m: int)
    requires
        1 <= m <= 12,
    ensures
        days_before_month(y, m + 1) == days_before_month(y, m) + days_in_month(y, m),
        days_before_month(y, 13) == year_length(y),
        0 <= days_before_month(y, m),
{
}

/// A valid date lies within its year.
pub proof fn lemma_date_in_year(y: int, m: int, d: int)
    requires
        valid_date(y, m, d),
    ensures
        days_before_year(y) <= day_number(y, m, d) < days_before_year(y) + year_length(y),
        0 <= day_number(y, m, d) < MAX_DAY,
{
    lemma_month_step(y, m);
    lemma_years_monotonic(1, y);
    lemma_years_monotonic(y, 10000);
    lemma_year_step(y);
}

/// Distinct valid dates have distinct day numbers.
pub proof fn lemma_day_number_injective(a: Date, b: Date)
    requires
        a.valid(),
        b.valid(),
        a.number() == b.number(),
    ensures
        a == b,
{
    let (ya, ma, da) = (a.year as int, a.month as int, a.day as int);
    let (yb, mb, db) = (b.year as int, b.month as int, b.day as int);
    lemma_date_in_year(ya, ma, da);
    lemma_date_in_year(yb, mb, db);
    if ya < yb {
        lemma_years_monotonic(ya, yb);
        assert(false);
    }
    if yb < ya {
        lemma_years_monotonic(yb, ya);
        assert(false);
    }
    lemma_month_step(ya, ma);
    lemma_month_step(ya, mb);
    if ma < mb {
        lemma_months_monotonic(ya, ma + 1, mb);
        assert(false);
    }
    if mb < ma {
        lemma_months_monotonic(ya, mb + 1, ma);
        assert(false);
    }
}

/// A later month of a year begins later.
pub proof fn lemma_months_monotonic(y: int, a: int, b: int)
    requires
        1 <= a <= b <= 13,
    ensures
        days_before_month(y, a) <= days_before_month(y, b),
{
}

/// `date_of_day` is the one valid date with the given day number.
pub proof fn lemma_date_of_day(c: Date)
    requires
        c.valid(),
    ensures
        date_of_day(c.number()) == c,
{
    let found = date_of_day(c.number());
    lemma_day_number_injective(found, c);
}

/// Whether year `y` has 366 days.
pub fn is_leap_year(y: i64) -> (r: bool)
    ensures
        r == is_leap(y as int),
{
    y % 4 == 0 && (y % 100 != 0 || y % 400 == 0)
}

/// Number of days of month `m` of year `y`.
pub fn month_length(y: i64, m: i64) -> (r: i64)
    ensures
        r == days_in_month(y as int, m as int),
        28 <= r <= 31,
{
    if m == 2 {
        if is_leap_year(y) {
            29
        } else {
            28
        }
    } else if m == 4 || m == 6 || m == 9 || m == 11 {
        30
    } else {
        31
    }
}

/// Days between 0001-01-01 and the first day of year `y`.
pub fn year_start(y: i64) -> (r: i64)
    requires
        1 <= y <= 10000,
    ensures
        r == days_before_year(y as int),
        0 <= r <= MAX_DAY,
{
    proof {
        lemma_years_monotonic(1, y as int);
        lemma_years_monotonic(y as int, 10000);
    }
    let p: i64 = y - 1;
    365 * p + p / 4 - p / 100 + p / 400
}

/// Days between the first day of year `y` and the first day of its month `m`.
pub fn month_start(y: i64, m: i64) -> (r: i64)
    requires
        1 <= m <= 13,
    ensures
        r == days_before_month(y as int, m as int),
        0 <= r <= 366,
{
    let leap: i64 = if is_leap_year(y) && m > 2 {
        1
    } else {
        0
    };
    if m == 1 {
        0
    } else if m == 2 {
        31
    } else if m == 3 {
        59 + leap
    } else if m == 4 {
        90 + leap
    } else if m == 5 {
        120 + leap
    } else if m == 6 {
        151 + leap
    } else if m == 7 {
        181 + leap
    } else if m == 8 {
        212 + leap
    } else if m == 9 {
        243 + leap
    } else if m == 10 {
        273 + leap
    } else if m == 11 {
        304 + leap
    } else if m == 12 {
        334 + leap
    } else {
        365 + leap
    }
}

/// Whether the three numbers name a day of the calendar.
pub fn is_valid_date(y: i64, m: i64, d: i64) -> (r: bool)
    ensures
        r == valid_date(y as int, m as int, d as int),
{
    1 <= y && y <= 9999 && 1 <= m && m <= 12 && 1 <= d && d <= month_length(y, m)
}

/// The day number of a valid date.
pub fn day_of_date(c: Date) -> (r: i64)
    requires
        c.valid(),
    ensures
        r == c.number(),
        0 <= r < MAX_DAY,
{
    proof {
        lemma_date_in_year(c.year as int, c.month as int, c.day as int);
    }
    year_start(c.year) + month_start(c.year, c.month) + c.day - 1
}

/// The date of a day number.
pub fn date_from_day(day: i64) -> (c: Date)
    requires
        0 <= day < MAX_DAY,
    ensures
        c.valid(),
        c.number() == day,
        c == date_of_day(day as int),
{
    let mut y: i64 = day / 366 + 1;
    proof {
        lemma_years_monotonic(y as int, 10000);
    }
    while year_start(y + 1) <= day
        invariant
            1 <= y <= 9999,
            days_before_year(y as int) <= day,
            day < MAX_DAY,
        decreases 10000 - y,
    {
        proof {
            if y == 9999 {
                assert(days_before_year(10000) == MAX_DAY);
            }
        }
        y = y + 1;
    }
    let rest: i64 = day - year_start(y);
    proof {
        lemma_year_step(y as int);
        lemma_month_step(y as int, 12);
    }
    let mut m: i64 = 1;
    while m < 12 && month_start(y, m + 1) <= rest
        invariant
            1 <= m <= 12,
            days_before_month(y as int, m as int) <= rest,
            0 <= rest < year_length(y as int),
        decreases 12 - m,
    {
        m = m + 1;
    }
    proof {
        lemma_month_step(y as int, m as int);
    }
    let d: i64 = rest - month_start(y, m) + 1;
    let c = Date { year: y, month: m, day: d };
    proof {
        lemma_date_of_day(c);
    }
    c
}

/// A calendar date and a time of day.
#[derive(Clone, Copy, Debug, PartialEq, Eq, Structural)]
pub struct Moment {
    pub year: i64,
    pub month: i64,
    pub day: i64,
    pub hour: i64,
    pub minute: i64,
    pub second: i64,
}

/// The moment that lies `t` seconds after 0001-01-01 00:00:00.
pub open spec fn moment_of(t: int) -> Moment {
    let date = date_of_day(t / 86400);
    let rest = t % 86400;
    Moment {
        year: date.year,
        month: date.month,
        day: date.day,
        hour: (rest / 3600) as i64,
        minute: (rest % 3600 / 60) as i64,
        second: (rest % 60) as i64,
    }
}

impl Moment {
    /// Whether the moment is a second of the years 1 to 9999.
    pub open spec fn valid(self) -> bool {
        &&& valid_date(self.year as int, self.month as int, self.day as int)
        &&& 0 <= self.hour < 24
        &&& 0 <= self.minute < 60
        &&& 0 <= self.second < 60
    }

    /// Seconds since 0001-01-01 00:00:00.
    pub open spec fn instant(self) -> int {
        day_number(self.year as int, self.month as int, self.day as int) * 86400 + self.hour
            * 3600 + self.minute * 60 + self.second
    }

    /// Whether the six numbers name a second of the calendar.
    pub fn is_valid(&self) -> (r: bool)
        ensures
            r == self.valid(),
    {
        is_valid_date(self.year, self.month, self.day) && 0 <= self.hour && self.hour < 24 && 0
            <= self.minute && self.minute < 60 && 0 <= self.second && self.second < 60
    }

    /// Seconds since 0001-01-01 00:00:00.
    pub fn to_instant(&self) -> (t: i64)
        requires
            self.valid(),
        ensures
            t == self.instant(),
            0 <= t < MAX_INSTANT,
            moment_of(t as int) == *self,
    {
        let date = Date { year: self.year, month: self.month, day: self.day };
        let day: i64 = day_of_date(date);
        let t: i64 = day * 86400 + self.hour * 3600 + self.minute * 60 + self.second;
        proof {
            lemma_date_of_day(date);
            let rest = self.hour * 3600 + self.minute * 60 + self.second;
            assert(t / 86400 == day as int && t % 86400 == rest) by {
                assert(0 <= rest < 86400);
                vstd::arithmetic::div_mod::lemma_fundamental_div_mod_converse(
                    t as int,
                    86400,
                    day as int,
                    rest as int,
                );
            }
            assert(rest / 3600 == self.hour && rest % 3600 == self.minute * 60 + self.second) by {
                vstd::arithmetic::div_mod::lemma_fundamental_div_mod_converse(
                    rest as int,
                    3600,
                    self.hour as int,
                    self.minute * 60 + self.second,
                );
            }
        }
        t
    }

    /// The moment that lies `t` seconds after 0001-01-01 00:00:00.
    pub fn from_instant(t: i64) -> (m: Moment)
        requires
            0 <= t < MAX_INSTANT,
        ensures
            m.valid(),
            m.instant() == t,
            m == moment_of(t as int),
    {
        let day: i64 = t / 86400;
        let rest: i64 = t % 86400;
        let date = date_from_day(day);
        Moment {
            year: date.year,
            month: date.month,
            day: date.day,
            hour: rest / 3600,
            minute: rest % 3600 / 60,
            second: rest % 60,
        }
    }
}

/// Length in seconds of the grains that always have the same length.
pub open spec fn fixed_length(g: Grain) -> int {
    match g {
        Grain::Second => 1,
        Grain::Minute => 60,
        Grain::Hour => 3600,
        Grain::Day => 86400,
        Grain::Week => 604800,
        _ => 0,
    }
}

/// Number of months in a month, a quarter and a year.
pub open spec fn months_in(g: Grain) -> int {
    match g {
        Grain::Month => 1,
        Grain::Quarter => 3,
        Grain::Year => 12,
        _ => 0,
    }
}

/// Instant at which month number `k` begins, months counted from January of
/// year 1 as month 0.
pub open spec fn month_index_start(k: int) -> int {
    day_number(k / 12 + 1, k % 12 + 1, 1) * 86400
}

/// Months since January of year 1 of the month that holds the instant.
pub open spec fn month_index_of(t: int) -> int {
    let date = date_of_day(t / 86400);
    (date.year - 1) * 12 + date.month - 1
}

/// Start of the window of grain `g` that holds instant `t`.
pub open spec fn window_start(t: int, g: Grain) -> int {
    match g {
        Grain::Second | Grain::Minute | Grain::Hour | Grain::Day => t - t % fixed_length(g),
        Grain::Week => t - t % 604800,
        Grain::Month | Grain::Quarter | Grain::Year => {
            let k = month_index_of(t);
            month_index_start(k - k % months_in(g))
        },
    }
}

/// Start of the window of grain `g` that lies `n` windows after the one that
/// begins at `start`.
pub open spec fn window_shift(start: int, g: Grain, n: int) -> int {
    match g {
        Grain::Second | Grain::Minute | Grain::Hour | Grain::Day | Grain::Week => start + n
            * fixed_length(g),
        Grain::Month | Grain::Quarter | Grain::Year => month_index_start(
            month_index_of(start) + n * months_in(g),
        ),
    }
}

/// Whether the instant lies within the years 1 to 9999.
pub open spec fn in_range(t: int) -> bool {
    0 <= t < MAX_INSTANT
}

/// Length in seconds of a grain of fixed length; 0 for the others.
pub fn grain_seconds(g: Grain) -> (r: i64)
    ensures
        r == fixed_length(g),
{
    match g {
        Grain::Second => 1,
        Grain::Minute => 60,
        Grain::Hour => 3600,
        Grain::Day => 86400,
        Grain::Week => 604800,
        _ => 0,
    }
}

/// Number of months in a month, a quarter and a year; 0 for the others.
pub fn grain_months(g: Grain) -> (r: i64)
    ensures
        r == months_in(g),
{
    match g {
        Grain::Month => 1,
        Grain::Quarter => 3,
        Grain::Year => 12,
        _ => 0,
    }
}

/// Months since January of year 1 of the month that holds the instant.
pub fn month_index(t: i64) -> (k: i64)
    requires
        in_range(t as int),
    ensures
        k == month_index_of(t as int),
        0 <= k < 119988,
{
    let date = date_from_day(t / 86400);
    (date.year - 1) * 12 + date.month - 1
}

/// Instant at which month number `k` begins.
pub fn start_of_month_index(k: i64) -> (t: i64)
    requires
        0 <= k < 119988,
    ensures
        t == month_index_start(k as int),
        in_range(t as int),
        month_index_of(t as int) == k,
{
    let date = Date { year: k / 12 + 1, month: k % 12 + 1, day: 1 };
    let day: i64 = day_of_date(date);
    proof {
        lemma_date_of_day(date);
    }
    day * 86400
}

/// Start of the window of grain `g` that holds `t`.
pub fn truncate(t: i64, g: Grain) -> (r: i64)
    requires
        in_range(t as int),
    ensures
        r == window_start(t as int, g),
        in_range(r as int),
        r <= t,
{
    match g {
        Grain::Second => t,
        Grain::Minute => t - t % 60,
        Grain::Hour => t - t % 3600,
        Grain::Day => t - t % 86400,
        Grain::Week => t - t % 604800,
        Grain::Month | Grain::Quarter | Grain::Year => {
            let k: i64 = month_index(t);
            let k0: i64 = k - k % grain_months(g);
            proof {
                lemma_month_index_order(k0 as int, t as int);
            }
            start_of_month_index(k0)
        },
    }
}

/// A month that begins no later than the month of `t` begins no later than `t`.
pub proof fn lemma_month_index_order(k: int, t: int)
    requires
        in_range(t),
        0 <= k <= month_index_of(t),
    ensures
        month_index_start(k) <= t,
{
    let date = date_of_day(t / 86400);
    let day = t / 86400;
    assert(0 <= day < MAX_DAY);
    lemma_day_exists(day);
    let (y, m) = (k / 12 + 1, k % 12 + 1);
    lemma_date_in_year(date.year as int, date.month as int, date.day as int);
    lemma_month_step(date.year as int, date.month as int);
    if y < date.year {
        lemma_years_monotonic(y, date.year as int);
        lemma_month_step(y, m);
        lemma_months_monotonic(y, m, 13);
    } else {
        lemma_months_monotonic(y, m, date.month as int);
    }
}

/// Every day number of the supported years belongs to a valid date.
pub proof fn lemma_day_exists(day: int)
    requires
        0 <= day < MAX_DAY,
    ensures
        date_of_day(day).valid(),
        date_of_day(day).number() == day,
{
    lemma_year_exists(day, 9999);
    let y = choose|y: int|
        1 <= y <= 9999 && #[trigger] days_before_year(y) <= day < days_before_year(y + 1);
    lemma_year_step(y);
    let rest = day - days_before_year(y);
    lemma_month_exists(y, rest, 12);
    let m = choose|m: int|
        1 <= m <= 12 && #[trigger] days_before_month(y, m) <= rest < days_before_month(y, m + 1);
    lemma_month_step(y, m);
    let c = Date { year: y as i64, month: m as i64, day: (rest - days_before_month(y, m) + 1) as i64 };
    assert(c.valid() && c.number() == day);
}

proof fn lemma_year_exists(day: int, top: int)
    requires
        1 <= top <= 9999,
        0 <= day < days_before_year(top + 1),
    ensures
        exists|y: int| 1 <= y <= 9999 && #[trigger] days_before_year(y) <= day < days_before_year(y + 1),
    decreases top,
{
    if days_before_year(top) <= day {
    } else {
        lemma_year_exists(day, top - 1);
    }
}

proof fn lemma_month_exists(y: int, rest: int, top: int)
    requires
        1 <= top <= 12,
        0 <= rest < days_before_month(y, top + 1),
    ensures
        exists|m: int|
            1 <= m <= 12 && #[trigger] days_before_month(y, m) <= rest < days_before_month(
                y,
                m + 1,
            ),
    decreases top,
{
    if days_before_month(y, top) <= rest {
    } else {
        lemma_month_exists(y, rest, top - 1);
    }
}

/// Start of the window `n` windows after the one that begins at `start`, or
/// `None` where that lies outside the supported years.
pub fn shift_window(start: i64, g: Grain, n: i64) -> (r: Option<i64>)
    requires
        in_range(start as int),
    ensures
        r is Some <==> (-1000000000000 < n < 1000000000000 && in_range(
            window_shift(start as int, g, n as int),
        ) && (months_in(g) > 0 ==> 0 <= month_index_of(start as int) + n * months_in(g)
            < 119988)),
        r matches Some(t) ==> t == window_shift(start as int, g, n as int),
{
    if n <= -1000000000000 || n >= 1000000000000 {
        return None;
    }
    match g {
        Grain::Second | Grain::Minute | Grain::Hour | Grain::Day | Grain::Week => {
            let len: i64 = grain_seconds(g);
            assert(-1000000000000 * 604800 <= n * len <= 1000000000000 * 604800)
                by (nonlinear_arith)
                requires
                    -1000000000000 < n < 1000000000000,
                    1 <= len <= 604800,
            ;
            let t: i64 = start + n * len;
            if 0 <= t && t < MAX_INSTANT {
                Some(t)
            } else {
                None
            }
        },
        Grain::Month | Grain::Quarter | Grain::Year => {
            let k: i64 = month_index(start);
            let step: i64 = grain_months(g);
            assert(-1000000000000 * 12 <= n * step <= 1000000000000 * 12) by (nonlinear_arith)
                requires
                    -1000000000000 < n < 1000000000000,
                    1 <= step <= 12,
            ;
            let target: i64 = k + n * step;
            if 0 <= target && target < 119988 {
                Some(start_of_month_index(target))
            } else {
                None
            }
        },
    }
}

/// The instant `k` months after `t`: the same day of the month where the
/// month has it, else the last day of the month, at the same time of day.
pub open spec fn plus_months(t: int, k: int) -> int {
    let date = date_of_day(t / 86400);
    let idx = (date.year - 1) * 12 + date.month - 1 + k;
    let y = idx / 12 + 1;
    let m = idx % 12 + 1;
    let d = if date.day <= days_in_month(y, m) {
        date.day as int
    } else {
        days_in_month(y, m)
    };
    day_number(y, m, d) * 86400 + t % 86400
}

/// The instant `k` months after `t`, or `None` where that lies outside the
/// years 1 to 9999.
pub fn add_months(t: i64, k: i64) -> (r: Option<i64>)
    requires
        in_range(t as int),
    ensures
        r is Some <==> (-1000000000000 < k < 1000000000000 && 0 <= month_index_of(t as int) + k
            < 119988),
        r matches Some(x) ==> x == plus_months(t as int, k as int) && in_range(x as int),
{
    if k <= -1000000000000 || k >= 1000000000000 {
        return None;
    }
    let date = date_from_day(t / 86400);
    let idx: i64 = (date.year - 1) * 12 + date.month - 1 + k;
    if idx < 0 || idx >= 119988 {
        return None;
    }
    let y: i64 = idx / 12 + 1;
    let m: i64 = idx % 12 + 1;
    let len: i64 = month_length(y, m);
    let d: i64 = if date.day <= len {
        date.day
    } else {
        len
    };
    let day: i64 = day_of_date(Date { year: y, month: m, day: d });
    Some(day * 86400 + t % 86400)
}

/// The month with a given number begins in that month.
pub proof fn lemma_month_index_round_trip(k: int)
    requires
        0 <= k < 119988,
    ensures
        month_index_of(month_index_start(k)) == k,
        in_range(month_index_start(k)),
{
    let date = Date { year: (k / 12 + 1) as i64, month: (k % 12 + 1) as i64, day: 1 };
    lemma_date_of_day(date);
    lemma_date_in_year(date.year as int, date.month as int, 1);
}

/// A month that begins after the month of `t` begins after `t`.
pub proof fn lemma_month_index_after(k: int, t: int)
    requires
        in_range(t),
        month_index_of(t) < k <= 119988,
    ensures
        t < month_index_start(k),
{
    let day = t / 86400;
    lemma_day_exists(day);
    let date = date_of_day(day);
    let (y, m) = (k / 12 + 1, k % 12 + 1);
    lemma_date_in_year(date.year as int, date.month as int, date.day as int);
    lemma_month_step(date.year as int, date.month as int);
    if y > date.year {
        lemma_years_monotonic(date.year as int, y);
        lemma_months_monotonic(date.year as int, date.month as int + 1, 13);
        lemma_month_step(date.year as int, 12);
    } else {
        lemma_months_monotonic(y, date.month as int + 1, m);
    }
}

} // verus!
