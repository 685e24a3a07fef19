//! Resolution of time expressions: from an expression and a reference
//! instant to a concrete interval of the calendar.
//!
//! Every search is made from a pivot instant in one of two directions.
//! Forward, it gives the first interval of the expression that ends after the
//! pivot: the one that holds the pivot, or else the next. Backward, it gives
//! the last interval that begins before the pivot.

use vstd::prelude::*;
use crate::calendar::add_months;
use crate::calendar::date_from_day;
use crate::calendar::date_of_day;
use crate::calendar::days_before_year;
use crate::calendar::fixed_length;
use crate::calendar::grain_months;
use crate::calendar::grain_seconds;
use crate::calendar::in_range;
use crate::calendar::month_index_of;
use crate::calendar::months_in;
use crate::calendar::plus_months;
use crate::calendar::shift_window;
use crate::calendar::truncate;
use crate::calendar::window_shift;
use crate::calendar::window_start;
use crate::calendar::year_start;
use crate::calendar::MAX_INSTANT;
use crate::duration::Period;
use crate::grain::Grain;
use crate::time::Constraint;

verus! {

/// A stretch of the calendar, from `start` up to but without `end`.
/// `explicit` tells a stretch with a stated end from a window of a grain.
#[derive(Clone, Copy, Debug, PartialEq, Eq, Structural)]
pub struct Interval {
    pub start: i64,
    pub end: i64,
    pub explicit: bool,
}

impl Interval {
    /// Whether the interval is not empty and lies within the years 1 to 9999.
    pub open spec fn wf(self) -> bool {
        0 <= self.start < self.end < MAX_INSTANT
    }
}

/// Number of steps that a search through an intersection may take.
pub const SEARCH_FUEL: usize = 200;

/// Largest occurrence number, in either direction, that is looked for.
pub const NTH_LIMIT: i64 = 1000;

/// Whether the interval, if there is one, is well formed.
pub open spec fn well(i: Option<Interval>) -> bool {
    match i {
        Some(v) => v.wf(),
        None => true,
    }
}

/// The instant `n` windows of grain `g` after the window start `start`,
/// where that lies within the supported years.
pub open spec fn shifted(start: int, g: Grain, n: int) -> Option<i64> {
    if -1000000000000 < n < 1000000000000 && in_range(window_shift(start, g, n)) && (months_in(g)
        > 0 ==> 0 <= month_index_of(start) + n * months_in(g) < 119988) {
        Some(window_shift(start, g, n) as i64)
    } else {
        None
    }
}

/// The instant `k` months after `t`, where that lies within the supported
/// years.
pub open spec fn added_months(t: int, k: int) -> Option<i64> {
    if -1000000000000 < k < 1000000000000 && 0 <= month_index_of(t) + k < 119988 {
        Some(plus_months(t, k) as i64)
    } else {
        None
    }
}

/// The window of grain `g` that holds instant `t`.
pub open spec fn window_at(g: Grain, t: int) -> Option<Interval> {
    let s = window_start(t, g);
    match shifted(s, g, 1) {
        Some(e) => if 0 <= s < e {
            Some(Interval { start: s as i64, end: e, explicit: false })
        } else {
            None
        },
        None => None,
    }
}

/// The year that the number `y` of a year expression stands for: itself
/// from 100 on, else the year with these last two digits that lies nearest
/// to the reference year, the later one of two equally near.
pub open spec fn full_year(y: int, reference_year: int) -> int {
    if y >= 100 {
        y
    } else {
        let base = reference_year - reference_year % 100 + y;
        if base - reference_year > 50 {
            base - 100
        } else if reference_year - base >= 50 {
            base + 100
        } else {
            base
        }
    }
}

/// The year that holds the instant.
pub open spec fn year_of(t: int) -> int {
    date_of_day(t / 86400).year as int
}

/// The year `y` as an interval, for the years 1 to 9998.
pub open spec fn year_window(y: int) -> Option<Interval> {
    if 1 <= y <= 9998 {
        Some(
            Interval {
                start: (days_before_year(y) * 86400) as i64,
                end: (days_before_year(y + 1) * 86400) as i64,
                explicit: false,
            },
        )
    } else {
        None
    }
}

/// Length in seconds of the unit in which a calendar field is looked for.
pub open spec fn unit_length(c: Constraint) -> int {
    match c {
        Constraint::Hour { hour, twelve } => 3600,
        Constraint::Minute(_) => 60,
        Constraint::Second(_) => 1,
        _ => 86400,
    }
}

/// Whether unit number `u` has the field that the expression names.
pub open spec fn unit_matches(c: Constraint, u: int) -> bool {
    match c {
        Constraint::Month(m) => date_of_day(u).month == m,
        Constraint::DayOfMonth(d) => date_of_day(u).day == d,
        Constraint::DayOfWeek(w) => u % 7 == w.number(),
        Constraint::Hour { hour, twelve } => u % 24 == hour || (twelve && hour <= 12 && u % 24
            % 12 == hour % 12),
        Constraint::Minute(m) => u % 60 == m,
        Constraint::Second(s) => u % 60 == s,
        _ => false,
    }
}

/// Number of units within which a field that occurs at all occurs again.
pub open spec fn scan_limit(c: Constraint) -> nat {
    match c {
        Constraint::Month(_) => 366,
        Constraint::DayOfMonth(_) => 62,
        Constraint::DayOfWeek(_) => 7,
        Constraint::Hour { hour, twelve } => 24,
        _ => 60,
    }
}

/// The first of the `n` units from `u` on that has the field.
pub open spec fn first_unit(c: Constraint, u: int, n: nat) -> Option<int>
    decreases n,
{
    if n == 0 || u < 0 || u * unit_length(c) >= MAX_INSTANT {
        None
    } else if unit_matches(c, u) {
        Some(u)
    } else {
        first_unit(c, u + 1, (n - 1) as nat)
    }
}

/// The last of the `n` units up to `u` that has the field.
pub open spec fn last_unit(c: Constraint, u: int, n: nat) -> Option<int>
    decreases n,
{
    if n == 0 || u < 0 || u * unit_length(c) >= MAX_INSTANT {
        None
    } else if unit_matches(c, u) {
        Some(u)
    } else {
        last_unit(c, u - 1, (n - 1) as nat)
    }
}

/// What `first_unit` finds is the first unit from `u` on with the field.
pub proof fn lemma_first_unit(c: Constraint, u: int, n: nat)
    ensures
        first_unit(c, u, n) matches Some(x) ==> u <= x < u + n && unit_matches(c, x) && forall|
            y: int,
        |
            u <= y < x ==> !unit_matches(c, y),
        first_unit(c, u, n) is None && 0 <= u && (u + n) * unit_length(c) <= MAX_INSTANT
            ==> forall|y: int| u <= y < u + n ==> !unit_matches(c, y),
    decreases n,
{
    if n == 0 || u < 0 || u * unit_length(c) >= MAX_INSTANT {
        if 0 <= u && n > 0 && (u + n) * unit_length(c) <= MAX_INSTANT {
            assert(u * unit_length(c) < (u + n) * unit_length(c)) by (nonlinear_arith)
                requires
                    n > 0,
                    unit_length(c) > 0,
            ;
        }
    } else if unit_matches(c, u) {
    } else {
        lemma_first_unit(c, u + 1, (n - 1) as nat);
    }
}

/// What `last_unit` finds is the last unit up to `u` with the field.
pub proof fn lemma_last_unit(c: Constraint, u: int, n: nat)
    ensures
        last_unit(c, u, n) matches Some(x) ==> u - n < x <= u && unit_matches(c, x) && forall|
            y: int,
        |
            x < y <= u ==> !unit_matches(c, y),
    decreases n,
{
    if n == 0 || u < 0 || u * unit_length(c) >= MAX_INSTANT {
    } else if unit_matches(c, u) {
    } else {
        lemma_last_unit(c, u - 1, (n - 1) as nat);
    }
}

/// The occurrence of a calendar field that a search from `t` finds.
pub open spec fn scan(c: Constraint, t: int, forward: bool) -> Option<Interval> {
    let len = unit_length(c);
    let found = if forward {
        first_unit(c, t / len, scan_limit(c))
    } else if t > 0 {
        last_unit(c, (t - 1) / len, scan_limit(c))
    } else {
        None
    };
    match found {
        Some(u) => window_at(c.grain(), u * len),
        None => None,
    }
}

/// The one interval `i`, where the search from `t` meets it.
pub open spec fn pick(i: Option<Interval>, t: int, forward: bool) -> Option<Interval> {
    match i {
        Some(v) => if (forward && v.end > t) || (!forward && v.start < t) {
            Some(v)
        } else {
            None
        },
        None => None,
    }
}

/// The part that two intervals have in common. It has a stated end where
/// the one that begins later has, or of two that begin together the one that
/// ends earlier.
pub open spec fn overlap(a: Interval, b: Interval) -> Option<Interval> {
    let lo = if a.start >= b.start {
        a.start
    } else {
        b.start
    };
    let hi = if a.end <= b.end {
        a.end
    } else {
        b.end
    };
    let explicit = if a.start > b.start {
        a.explicit
    } else if b.start > a.start {
        b.explicit
    } else if a.end < b.end {
        a.explicit
    } else if b.end < a.end {
        b.explicit
    } else {
        a.explicit && b.explicit
    };
    if lo < hi {
        Some(Interval { start: lo, end: hi, explicit })
    } else {
        None
    }
}

/// The pivot from which the search through an intersection goes on after
/// two intervals that have nothing in common.
pub open spec fn next_pivot(a: Interval, b: Interval, forward: bool) -> int {
    if forward {
        if a.start >= b.start {
            a.start as int
        } else {
            b.start as int
        }
    } else {
        if a.end <= b.end {
            a.end as int
        } else {
            b.end as int
        }
    }
}

/// The window `offset` windows after the one that holds the reference.
pub open spec fn cycle_window(g: Grain, offset: int, r: int) -> Option<Interval> {
    match shifted(window_start(r, g), g, offset) {
        Some(s) => window_at(g, s as int),
        None => None,
    }
}

/// The window `n` windows after the one in which `anchor` begins; where
/// `whole` holds and that window began before `anchor`, one window later.
pub open spec fn cycle_after(g: Grain, n: int, anchor: Option<Interval>, whole: bool) -> Option<
    Interval,
> {
    match anchor {
        Some(o) => {
            let w = window_start(o.start as int, g);
            let k = if whole && w < o.start {
                n + 1
            } else {
                n
            };
            match shifted(w, g, k) {
                Some(s) => window_at(g, s as int),
                None => None,
            }
        },
        None => None,
    }
}

/// Seconds in the weeks, days, hours, minutes and seconds of a period.
pub open spec fn period_seconds(p: Period) -> int {
    p.weeks * 604800 + p.days * 86400 + p.hours * 3600 + p.minutes * 60 + p.seconds
}

/// Months in the years, quarters and months of a period.
pub open spec fn period_months(p: Period) -> int {
    p.years * 12 + p.quarters * 3 + p.months
}

/// The instant that lies the period after `t`: first the months, then the
/// seconds.
pub open spec fn plus_period(t: int, p: Period) -> Option<i64> {
    match added_months(t, period_months(p)) {
        Some(m) => if in_range(m + period_seconds(p)) {
            Some((m + period_seconds(p)) as i64)
        } else {
            None
        },
        None => None,
    }
}

/// The instant one unit of grain `g` after `s`.
pub open spec fn unit_end(s: int, g: Grain) -> Option<i64> {
    if months_in(g) > 0 {
        added_months(s, months_in(g))
    } else if in_range(s + fixed_length(g)) {
        Some((s + fixed_length(g)) as i64)
    } else {
        None
    }
}

/// The interval of one unit of the period's finest grain that begins the
/// period after `anchor` begins.
pub open spec fn moved(anchor: Option<Interval>, p: Period) -> Option<Interval> {
    match anchor {
        Some(o) => match plus_period(o.start as int, p) {
            Some(s) => match unit_end(s as int, p.finest()) {
                Some(e) => if s < e {
                    Some(Interval { start: s, end: e, explicit: false })
                } else {
                    None
                },
                None => None,
            },
            None => None,
        },
        None => None,
    }
}

/// The interval of the expression that a search from pivot `t` finds, with
/// reference instant `r`.
pub open spec fn seek(c: Constraint, r: int, t: int, forward: bool, fuel: nat) -> Option<Interval>
    decreases c, 0nat, fuel,
{
    match c {
        Constraint::Year(y) => pick(year_window(full_year(y as int, year_of(r))), t, forward),
        Constraint::Month(_) => scan(c, t, forward),
        Constraint::DayOfMonth(_) => scan(c, t, forward),
        Constraint::DayOfWeek(_) => scan(c, t, forward),
        Constraint::Hour { hour, twelve } => scan(c, t, forward),
        Constraint::Minute(_) => scan(c, t, forward),
        Constraint::Second(_) => scan(c, t, forward),
        Constraint::Every(g) => if forward {
            window_at(g, t)
        } else if t > 0 {
            window_at(g, t - 1)
        } else {
            None
        },
        Constraint::Cycle { grain, offset } => pick(
            cycle_window(grain, offset as int, r),
            t,
            forward,
        ),
        Constraint::Intersect(a, b) => if fuel == 0 {
            None
        } else {
            match (
                seek(*a, r, t, forward, SEARCH_FUEL as nat),
                seek(*b, r, t, forward, SEARCH_FUEL as nat),
            ) {
                (Some(x), Some(y)) => match overlap(x, y) {
                    Some(o) => Some(o),
                    None => seek(c, r, next_pivot(x, y, forward), forward, (fuel - 1) as nat),
                },
                _ => None,
            }
        },
        Constraint::Span { from, to, inclusive } => if forward {
            let running = if in_range(t + 1) {
                span_from(seek(*from, r, t + 1, false, SEARCH_FUEL as nat), *to, r, inclusive)
            } else {
                None
            };
            if running is Some && running->0.end > t {
                running
            } else {
                pick(span_from(after(*from, r, t), *to, r, inclusive), t, true)
            }
        } else {
            pick(
                span_from(seek(*from, r, t, false, SEARCH_FUEL as nat), *to, r, inclusive),
                t,
                false,
            )
        },
        Constraint::Nth { base, n } => pick(nth(*base, r, n as int), t, forward),
        Constraint::LastOf { inner, outer } => pick(
            last_within(*inner, anchor(*outer, r), r),
            t,
            forward,
        ),
        Constraint::CycleAfter { grain, n, base, whole } => pick(
            cycle_after(grain, n as int, anchor(*base, r), whole),
            t,
            forward,
        ),
        Constraint::Shift { base, period } => pick(moved(anchor(*base, r), period), t, forward),
    }
}

/// The stretch that begins with interval `a`: up to the first interval of
/// `to` that ends after `a` begins.
pub open spec fn span_from(a: Option<Interval>, to: Constraint, r: int, inclusive: bool) -> Option<
    Interval,
>
    decreases to, 1nat, 0nat,
{
    match a {
        Some(x) => match seek(to, r, x.start as int, true, SEARCH_FUEL as nat) {
            Some(y) => {
                let end = if inclusive {
                    y.end
                } else {
                    y.start
                };
                if x.start < end {
                    Some(Interval { start: x.start, end, explicit: true })
                } else {
                    None
                }
            },
            None => None,
        },
        None => None,
    }
}

/// The first interval that begins after `t`.
pub open spec fn after(c: Constraint, r: int, t: int) -> Option<Interval>
    decreases c, 1nat, 0nat,
{
    match seek(c, r, t, true, SEARCH_FUEL as nat) {
        Some(a) => if a.start > t {
            Some(a)
        } else {
            seek(c, r, a.end as int, true, SEARCH_FUEL as nat)
        },
        None => None,
    }
}

/// The last interval that has ended by `t`.
pub open spec fn past(c: Constraint, r: int, t: int) -> Option<Interval>
    decreases c, 1nat, 0nat,
{
    match seek(c, r, t, false, SEARCH_FUEL as nat) {
        Some(p) => if p.end <= t {
            Some(p)
        } else {
            seek(c, r, p.start as int, false, SEARCH_FUEL as nat)
        },
        None => None,
    }
}

/// The interval that the expression names at reference `r`: the one that
/// holds `r` or else the next, and where there is none, the last before `r`.
pub open spec fn anchor(c: Constraint, r: int) -> Option<Interval>
    decreases c, 1nat, 0nat,
{
    match seek(c, r, r, true, SEARCH_FUEL as nat) {
        Some(i) => Some(i),
        None => seek(c, r, r, false, SEARCH_FUEL as nat),
    }
}

/// The last interval of `inner` that lies within `outer`.
pub open spec fn last_within(inner: Constraint, outer: Option<Interval>, r: int) -> Option<
    Interval,
>
    decreases inner, 1nat, 0nat,
{
    match outer {
        Some(o) => match seek(inner, r, o.end as int, false, SEARCH_FUEL as nat) {
            Some(i) => {
                let j = if i.end <= o.end {
                    Some(i)
                } else {
                    seek(inner, r, i.start as int, false, SEARCH_FUEL as nat)
                };
                match j {
                    Some(v) => if v.start >= o.start && v.end <= o.end {
                        Some(v)
                    } else {
                        None
                    },
                    None => None,
                }
            },
            None => None,
        },
        None => None,
    }
}

/// Forward: the interval `k` intervals after the first one that ends after
/// `t`. Backward: the interval `k - 1` intervals before the last one that
/// has ended by `t`.
pub open spec fn walk(c: Constraint, r: int, t: int, k: nat, forward: bool) -> Option<Interval>
    decreases c, 2nat, k,
{
    if forward {
        match seek(c, r, t, true, SEARCH_FUEL as nat) {
            Some(i) => if k == 0 {
                Some(i)
            } else {
                walk(c, r, i.end as int, (k - 1) as nat, true)
            },
            None => None,
        }
    } else {
        match past(c, r, t) {
            Some(p) => if k <= 1 {
                Some(p)
            } else {
                walk(c, r, p.start as int, (k - 1) as nat, false)
            },
            None => None,
        }
    }
}

/// The interval number `n` from the reference.
pub open spec fn nth(base: Constraint, r: int, n: int) -> Option<Interval>
    decreases base, 3nat, 0nat,
{
    if n > NTH_LIMIT || n < -NTH_LIMIT {
        None
    } else if n >= 0 {
        walk(base, r, r, n as nat, true)
    } else {
        walk(base, r, r, (-n) as nat, false)
    }
}

fn shift(start: i64, g: Grain, n: i64) -> (r: Option<i64>)
    requires
        in_range(start as int),
    ensures
        r == shifted(start as int, g, n as int),
        r matches Some(v) ==> in_range(v as int),
{
    shift_window(start, g, n)
}

fn months_added(t: i64, k: i64) -> (r: Option<i64>)
    requires
        in_range(t as int),
    ensures
        r == added_months(t as int, k as int),
        r matches Some(v) ==> in_range(v as int),
{
    add_months(t, k)
}

/// The window of grain `g` that holds instant `t`.
pub fn window(g: Grain, t: i64) -> (r: Option<Interval>)
    requires
        in_range(t as int),
    ensures
        r == window_at(g, t as int),
        well(r),
{
    let s: i64 = truncate(t, g);
    match shift(s, g, 1) {
        Some(e) => if s < e {
            Some(Interval { start: s, end: e, explicit: false })
        } else {
            None
        },
        None => None,
    }
}

/// The year that a year expression stands for at a reference year.
pub fn century_year(y: i64, reference_year: i64) -> (v: i64)
    requires
        0 <= y <= 9999,
        1 <= reference_year <= 9999,
    ensures
        v == full_year(y as int, reference_year as int),
        -200 <= v <= 10200,
{
    if y >= 100 {
        y
    } else {
        let base: i64 = reference_year - reference_year % 100 + y;
        if base - reference_year > 50 {
            base - 100
        } else if reference_year - base >= 50 {
            base + 100
        } else {
            base
        }
    }
}

fn window_of_year(y: i64) -> (r: Option<Interval>)
    ensures
        r == year_window(y as int),
        well(r),
{
    if 1 <= y && y <= 9998 {
        proof {
            crate::calendar::lemma_year_step(y as int);
            crate::calendar::lemma_years_monotonic(y as int + 1, 9999);
            crate::calendar::lemma_years_monotonic(1, y as int);
        }
        Some(Interval { start: year_start(y) * 86400, end: year_start(y + 1) * 86400, explicit: false })
    } else {
        None
    }
}

fn unit_seconds(c: &Constraint) -> (len: i64)
    ensures
        len == unit_length(*c),
        len == 1 || len == 60 || len == 3600 || len == 86400,
{
    match c {
        Constraint::Hour { .. } => 3600,
        Constraint::Minute(_) => 60,
        Constraint::Second(_) => 1,
        _ => 86400,
    }
}

fn limit_of(c: &Constraint) -> (n: usize)
    ensures
        n == scan_limit(*c),
{
    match c {
        Constraint::Month(_) => 366,
        Constraint::DayOfMonth(_) => 62,
        Constraint::DayOfWeek(_) => 7,
        Constraint::Hour { .. } => 24,
        _ => 60,
    }
}

fn unit_in_range(u: i64, len: i64) -> (b: bool)
    requires
        len == 1 || len == 60 || len == 3600 || len == 86400,
        -1 <= u <= MAX_INSTANT,
    ensures
        b == (0 <= u && u * len < MAX_INSTANT),
{
    if u < 0 {
        false
    } else if len == 1 {
        u < MAX_INSTANT
    } else if len == 60 {
        u * 60 < MAX_INSTANT
    } else if len == 3600 {
        u * 3600 < MAX_INSTANT
    } else {
        u * 86400 < MAX_INSTANT
    }
}

fn has_field(c: &Constraint, u: i64) -> (b: bool)
    requires
        c.wf(),
        0 <= u,
        u * unit_length(*c) < MAX_INSTANT,
    ensures
        b == unit_matches(*c, u as int),
{
    match c {
        Constraint::Month(m) => date_from_day(u).month == *m,
        Constraint::DayOfMonth(d) => date_from_day(u).day == *d,
        Constraint::DayOfWeek(w) => u % 7 == w.index(),
        Constraint::Hour { hour, twelve } => u % 24 == *hour || (*twelve && *hour <= 12 && u % 24
            % 12 == *hour % 12),
        Constraint::Minute(m) => u % 60 == *m,
        Constraint::Second(s) => u % 60 == *s,
        _ => false,
    }
}

fn find_unit(c: &Constraint, u: i64, n: usize, forward: bool) -> (r: Option<i64>)
    requires
        c.wf(),
        0 <= u < MAX_INSTANT,
        n <= 366,
    ensures
        forward ==> match r {
            Some(x) => first_unit(*c, u as int, n as nat) == Some(x as int),
            None => first_unit(*c, u as int, n as nat) is None,
        },
        !forward ==> match r {
            Some(x) => last_unit(*c, u as int, n as nat) == Some(x as int),
            None => last_unit(*c, u as int, n as nat) is None,
        },
        r matches Some(x) ==> 0 <= x && x * unit_length(*c) < MAX_INSTANT,
{
    let len: i64 = unit_seconds(c);
    let mut cur: i64 = u;
    let mut left: usize = n;
    while left > 0 && unit_in_range(cur, len)
        invariant
            c.wf(),
            len == unit_length(*c),
            len == 1 || len == 60 || len == 3600 || len == 86400,
            -1 <= cur <= MAX_INSTANT,
            left <= 366,
            forward ==> first_unit(*c, u as int, n as nat) == first_unit(
                *c,
                cur as int,
                left as nat,
            ),
            !forward ==> last_unit(*c, u as int, n as nat) == last_unit(
                *c,
                cur as int,
                left as nat,
            ),
        decreases left,
    {
        if has_field(c, cur) {
            return Some(cur);
        }
        if forward {
            cur = cur + 1;
        } else {
            cur = cur - 1;
        }
        left = left - 1;
    }
    None
}

fn scan_for(c: &Constraint, t: i64, forward: bool) -> (r: Option<Interval>)
    requires
        c.wf(),
        in_range(t as int),
    ensures
        r == scan(*c, t as int, forward),
        well(r),
{
    let len: i64 = unit_seconds(c);
    let found = if forward {
        find_unit(c, t / len, limit_of(c), true)
    } else if t > 0 {
        find_unit(c, (t - 1) / len, limit_of(c), false)
    } else {
        None
    };
    match found {
        Some(u) => {
            assert(u * len == u * unit_length(*c));
            window(c.grain_of(), u * len)
        },
        None => None,
    }
}

fn choose_one(i: Option<Interval>, t: i64, forward: bool) -> (r: Option<Interval>)
    ensures
        r == pick(i, t as int, forward),
        well(i) ==> well(r),
{
    match i {
        Some(v) => if (forward && v.end > t) || (!forward && v.start < t) {
            Some(v)
        } else {
            None
        },
        None => None,
    }
}

fn common(a: Interval, b: Interval) -> (r: Option<Interval>)
    ensures
        r == overlap(a, b),
        a.wf() && b.wf() ==> well(r),
{
    let lo: i64 = if a.start >= b.start {
        a.start
    } else {
        b.start
    };
    let hi: i64 = if a.end <= b.end {
        a.end
    } else {
        b.end
    };
    let explicit = if a.start > b.start {
        a.explicit
    } else if b.start > a.start {
        b.explicit
    } else if a.end < b.end {
        a.explicit
    } else if b.end < a.end {
        b.explicit
    } else {
        a.explicit && b.explicit
    };
    if lo < hi {
        Some(Interval { start: lo, end: hi, explicit })
    } else {
        None
    }
}

fn window_of_cycle(g: Grain, offset: i64, r: i64) -> (res: Option<Interval>)
    requires
        in_range(r as int),
    ensures
        res == cycle_window(g, offset as int, r as int),
        well(res),
{
    match shift(truncate(r, g), g, offset) {
        Some(s) => window(g, s),
        None => None,
    }
}

fn window_after(g: Grain, n: i64, anchor: Option<Interval>, whole: bool) -> (res: Option<
    Interval,
>)
    requires
        well(anchor),
    ensures
        res == cycle_after(g, n as int, anchor, whole),
        well(res),
{
    match anchor {
        Some(o) => {
            let w: i64 = truncate(o.start, g);
            if n >= 1000000000000 {
                return None;
            }
            let k: i64 = if whole && w < o.start {
                n + 1
            } else {
                n
            };
            match shift(w, g, k) {
                Some(s) => window(g, s),
                None => None,
            }
        },
        None => None,
    }
}

fn seconds_of(p: &Period) -> (v: i64)
    requires
        p.bounded(),
    ensures
        v == period_seconds(*p),
        -700000000000000000 < v < 700000000000000000,
{
    proof {
        assert(Period::small(p.get(Grain::Second)) && Period::small(p.get(Grain::Minute))
            && Period::small(p.get(Grain::Hour)) && Period::small(p.get(Grain::Day))
            && Period::small(p.get(Grain::Week)));
    }
    p.weeks * 604800 + p.days * 86400 + p.hours * 3600 + p.minutes * 60 + p.seconds
}

fn months_of(p: &Period) -> (v: i64)
    requires
        p.bounded(),
    ensures
        v == period_months(*p),
{
    proof {
        assert(Period::small(p.get(Grain::Month)) && Period::small(p.get(Grain::Quarter))
            && Period::small(p.get(Grain::Year)));
    }
    p.years * 12 + p.quarters * 3 + p.months
}

fn add_period(t: i64, p: &Period) -> (r: Option<i64>)
    requires
        in_range(t as int),
        p.bounded(),
    ensures
        r == plus_period(t as int, *p),
        r matches Some(v) ==> in_range(v as int),
{
    match months_added(t, months_of(p)) {
        Some(m) => {
            let v: i64 = m + seconds_of(p);
            if 0 <= v && v < MAX_INSTANT {
                Some(v)
            } else {
                None
            }
        },
        None => None,
    }
}

fn end_of_unit(s: i64, g: Grain) -> (r: Option<i64>)
    requires
        in_range(s as int),
    ensures
        r == unit_end(s as int, g),
        r matches Some(v) ==> in_range(v as int),
{
    if grain_months(g) > 0 {
        months_added(s, grain_months(g))
    } else {
        let e: i64 = s + grain_seconds(g);
        if 0 <= e && e < MAX_INSTANT {
            Some(e)
        } else {
            None
        }
    }
}

fn move_by(anchor: Option<Interval>, p: &Period) -> (r: Option<Interval>)
    requires
        well(anchor),
        p.bounded(),
    ensures
        r == moved(anchor, *p),
        well(r),
{
    match anchor {
        Some(o) => match add_period(o.start, p) {
            Some(s) => match end_of_unit(s, p.finest_grain()) {
                Some(e) => if s < e {
                    Some(Interval { start: s, end: e, explicit: false })
                } else {
                    None
                },
                None => None,
            },
            None => None,
        },
        None => None,
    }
}

/// The interval of the expression that a search from pivot `t` finds.
pub fn search(c: &Constraint, r: i64, t: i64, forward: bool, fuel: usize) -> (res: Option<
    Interval,
>)
    requires
        c.wf(),
        in_range(r as int),
        in_range(t as int),
    ensures
        res == seek(*c, r as int, t as int, forward, fuel as nat),
        well(res),
    decreases c, 0nat, fuel,
{
    match c {
        Constraint::Year(y) => {
            let reference_year: i64 = date_from_day(r / 86400).year;
            choose_one(window_of_year(century_year(*y, reference_year)), t, forward)
        },
        Constraint::Month(_) => scan_for(c, t, forward),
        Constraint::DayOfMonth(_) => scan_for(c, t, forward),
        Constraint::DayOfWeek(_) => scan_for(c, t, forward),
        Constraint::Hour { .. } => scan_for(c, t, forward),
        Constraint::Minute(_) => scan_for(c, t, forward),
        Constraint::Second(_) => scan_for(c, t, forward),
        Constraint::Every(g) => if forward {
            window(*g, t)
        } else if t > 0 {
            window(*g, t - 1)
        } else {
            None
        },
        Constraint::Cycle { grain, offset } => choose_one(
            window_of_cycle(*grain, *offset, r),
            t,
            forward,
        ),
        Constraint::Intersect(a, b) => {
            if fuel == 0 {
                return None;
            }
            let first = search(&**a, r, t, forward, SEARCH_FUEL);
            let second = search(&**b, r, t, forward, SEARCH_FUEL);
            match (first, second) {
                (Some(x), Some(y)) => match common(x, y) {
                    Some(o) => Some(o),
                    None => {
                        let pivot: i64 = if forward {
                            if x.start >= y.start {
                                x.start
                            } else {
                                y.start
                            }
                        } else {
                            if x.end <= y.end {
                                x.end
                            } else {
                                y.end
                            }
                        };
                        search(c, r, pivot, forward, fuel - 1)
                    },
                },
                _ => None,
            }
        },
        Constraint::Span { from, to, inclusive } => {
            if forward {
                let running = if t + 1 < MAX_INSTANT {
                    span_of(search(&**from, r, t + 1, false, SEARCH_FUEL), &**to, r, *inclusive)
                } else {
                    None
                };
                let holds = match running {
                    Some(s) => s.end > t,
                    None => false,
                };
                if holds {
                    running
                } else {
                    choose_one(span_of(find_after(&**from, r, t), &**to, r, *inclusive), t, true)
                }
            } else {
                choose_one(
                    span_of(search(&**from, r, t, false, SEARCH_FUEL), &**to, r, *inclusive),
                    t,
                    false,
                )
            }
        },
        Constraint::Nth { base, n } => choose_one(find_nth(&**base, r, *n), t, forward),
        Constraint::LastOf { inner, outer } => choose_one(
            find_last_within(&**inner, resolve(&**outer, r), r),
            t,
            forward,
        ),
        Constraint::CycleAfter { grain, n, base, whole } => choose_one(
            window_after(*grain, *n, resolve(&**base, r), *whole),
            t,
            forward,
        ),
        Constraint::Shift { base, period } => choose_one(
            move_by(resolve(&**base, r), period),
            t,
            forward,
        ),
    }
}

fn span_of(a: Option<Interval>, to: &Constraint, r: i64, inclusive: bool) -> (res: Option<
    Interval,
>)
    requires
        to.wf(),
        in_range(r as int),
        well(a),
    ensures
        res == span_from(a, *to, r as int, inclusive),
        well(res),
    decreases to, 1nat, 0nat,
{
    match a {
        Some(x) => match search(to, r, x.start, true, SEARCH_FUEL) {
            Some(y) => {
                let end: i64 = if inclusive {
                    y.end
                } else {
                    y.start
                };
                if x.start < end {
                    Some(Interval { start: x.start, end, explicit: true })
                } else {
                    None
                }
            },
            None => None,
        },
        None => None,
    }
}

fn find_after(c: &Constraint, r: i64, t: i64) -> (res: Option<Interval>)
    requires
        c.wf(),
        in_range(r as int),
        in_range(t as int),
    ensures
        res == after(*c, r as int, t as int),
        well(res),
    decreases c, 1nat, 0nat,
{
    match search(c, r, t, true, SEARCH_FUEL) {
        Some(a) => if a.start > t {
            Some(a)
        } else {
            search(c, r, a.end, true, SEARCH_FUEL)
        },
        None => None,
    }
}

fn find_past(c: &Constraint, r: i64, t: i64) -> (res: Option<Interval>)
    requires
        c.wf(),
        in_range(r as int),
        in_range(t as int),
    ensures
        res == past(*c, r as int, t as int),
        well(res),
    decreases c, 1nat, 0nat,
{
    match search(c, r, t, false, SEARCH_FUEL) {
        Some(p) => if p.end <= t {
            Some(p)
        } else {
            search(c, r, p.start, false, SEARCH_FUEL)
        },
        None => None,
    }
}

/// The interval that the expression names at reference instant `r`.
pub fn resolve(c: &Constraint, r: i64) -> (res: Option<Interval>)
    requires
        c.wf(),
        in_range(r as int),
    ensures
        res == anchor(*c, r as int),
        well(res),
    decreases c, 1nat, 0nat,
{
    match search(c, r, r, true, SEARCH_FUEL) {
        Some(i) => Some(i),
        None => search(c, r, r, false, SEARCH_FUEL),
    }
}

fn find_last_within(inner: &Constraint, outer: Option<Interval>, r: i64) -> (res: Option<
    Interval,
>)
    requires
        inner.wf(),
        in_range(r as int),
        well(outer),
    ensures
        res == last_within(*inner, outer, r as int),
        well(res),
    decreases inner, 1nat, 0nat,
{
    match outer {
        Some(o) => match search(inner, r, o.end, false, SEARCH_FUEL) {
            Some(i) => {
                let j = if i.end <= o.end {
                    Some(i)
                } else {
                    search(inner, r, i.start, false, SEARCH_FUEL)
                };
                match j {
                    Some(v) => if v.start >= o.start && v.end <= o.end {
                        Some(v)
                    } else {
                        None
                    },
                    None => None,
                }
            },
            None => None,
        },
        None => None,
    }
}

fn walk_from(c: &Constraint, r: i64, t: i64, k: usize, forward: bool) -> (res: Option<Interval>)
    requires
        c.wf(),
        in_range(r as int),
        in_range(t as int),
    ensures
        res == walk(*c, r as int, t as int, k as nat, forward),
        well(res),
    decreases c, 2nat, k,
{
    if forward {
        match search(c, r, t, true, SEARCH_FUEL) {
            Some(i) => if k == 0 {
                Some(i)
            } else {
                walk_from(c, r, i.end, k - 1, true)
            },
            None => None,
        }
    } else {
        match find_past(c, r, t) {
            Some(p) => if k <= 1 {
                Some(p)
            } else {
                walk_from(c, r, p.start, k - 1, false)
            },
            None => None,
        }
    }
}

fn find_nth(base: &Constraint, r: i64, n: i64) -> (res: Option<Interval>)
    requires
        base.wf(),
        in_range(r as int),
    ensures
        res == nth(*base, r as int, n as int),
        well(res),
    decreases base, 3nat, 0nat,
{
    if n > NTH_LIMIT || n < -NTH_LIMIT {
        None
    } else if n >= 0 {
        walk_from(base, r, r, n as usize, true)
    } else {
        walk_from(base, r, r, (-n) as usize, false)
    }
}

/// The window of a grain that holds an instant begins by the instant and
/// ends after it.
pub proof fn lemma_window_holds(g: Grain, t: int)
    requires
        in_range(t),
    ensures
        window_at(g, t) matches Some(i) ==> i.start <= t < i.end,
{
    if months_in(g) > 0 && window_at(g, t) is Some {
        let k = month_index_of(t);
        let k0 = k - k % months_in(g);
        let s = window_start(t, g);
        crate::calendar::lemma_month_index_order(k0, t);
        crate::calendar::lemma_month_index_round_trip(k0);
        crate::calendar::lemma_month_index_after(k0 + months_in(g), t);
    }
}

/// What a search finds lies on the side of the pivot that was searched:
/// forward it ends after the pivot, backward it begins before it.
pub proof fn lemma_seek_side(c: Constraint, r: int, t: int, forward: bool, fuel: nat)
    requires
        c.wf(),
        in_range(r),
        in_range(t),
    ensures
        seek(c, r, t, forward, fuel) matches Some(i) ==> on_side(i, t, forward),
    decreases c, 1nat, fuel,
{
    match c {
        Constraint::Year(y) => {
            lemma_side_year(y as int, r);
        },
        Constraint::Month(_) => {
            lemma_scan_side(c, t, forward);
        },
        Constraint::DayOfMonth(_) => {
            lemma_scan_side(c, t, forward);
        },
        Constraint::DayOfWeek(_) => {
            lemma_scan_side(c, t, forward);
        },
        Constraint::Hour { hour, twelve } => {
            lemma_scan_side(c, t, forward);
        },
        Constraint::Minute(_) => {
            lemma_scan_side(c, t, forward);
        },
        Constraint::Second(_) => {
            lemma_scan_side(c, t, forward);
        },
        Constraint::Every(g) => {
            lemma_window_holds(g, t);
            lemma_window_wf(g, t);
            if t > 0 {
                lemma_window_holds(g, t - 1);
                lemma_window_wf(g, t - 1);
            }
        },
        Constraint::Cycle { grain, offset } => {
            lemma_cycle_wf(grain, offset as int, r);
        },
        Constraint::Intersect(a, b) => {
            lemma_side_intersect(*a, *b, r, t, forward, fuel);
        },
        Constraint::Span { from, to, inclusive } => {
            lemma_side_span(*from, *to, inclusive, r, t, forward, fuel);
        },
        Constraint::Nth { base, n } => {
            lemma_nth_wf(*base, r, n as int);
        },
        Constraint::LastOf { inner, outer } => {
            lemma_anchor_wf(*outer, r);
            lemma_last_within_wf(*inner, anchor(*outer, r), r);
        },
        Constraint::CycleAfter { grain, n, base, whole } => {
            lemma_anchor_wf(*base, r);
            lemma_cycle_after_wf(grain, n as int, anchor(*base, r), whole);
        },
        Constraint::Shift { base, period } => {
            lemma_anchor_wf(*base, r);
            lemma_moved_wf(anchor(*base, r), period);
        },
    }
}

/// Whether the interval is well formed and lies on the searched side of
/// the pivot.
pub open spec fn on_side(i: Interval, t: int, forward: bool) -> bool {
    i.wf() && if forward {
        i.end > t
    } else {
        i.start < t
    }
}

proof fn lemma_side_year(y: int, r: int)
    ensures
        well(year_window(full_year(y, year_of(r)))),
{
    let year = full_year(y, year_of(r));
    if 1 <= year <= 9998 {
        crate::calendar::lemma_year_step(year);
        crate::calendar::lemma_years_monotonic(year + 1, 9999);
        crate::calendar::lemma_years_monotonic(1, year);
    }
}

proof fn lemma_cycle_wf(g: Grain, offset: int, r: int)
    ensures
        well(cycle_window(g, offset, r)),
{
    match shifted(window_start(r, g), g, offset) {
        Some(s) => {
            lemma_window_wf(g, s as int);
        },
        None => {},
    }
}

proof fn lemma_cycle_after_wf(g: Grain, n: int, anchor: Option<Interval>, whole: bool)
    ensures
        well(cycle_after(g, n, anchor, whole)),
{
    match anchor {
        Some(o) => {
            let w = window_start(o.start as int, g);
            let k = if whole && w < o.start {
                n + 1
            } else {
                n
            };
            match shifted(w, g, k) {
                Some(s) => {
                    lemma_window_wf(g, s as int);
                },
                None => {},
            }
        },
        None => {},
    }
}

proof fn lemma_moved_wf(anchor: Option<Interval>, p: Period)
    requires
        well(anchor),
    ensures
        well(moved(anchor, p)),
{
    match anchor {
        Some(o) => {
            match plus_period(o.start as int, p) {
                Some(s) => {
                    if months_in(p.finest()) > 0 {
                        lemma_added_months(s as int, months_in(p.finest()));
                    }
                },
                None => {},
            }
        },
        None => {},
    }
}

/// The instant some months after an instant of the supported years lies
/// within them.
pub proof fn lemma_added_months(t: int, k: int)
    requires
        in_range(t),
    ensures
        added_months(t, k) matches Some(x) ==> in_range(x as int) && x == crate::calendar::plus_months(
            t,
            k,
        ),
{
    if added_months(t, k) is Some {
        crate::calendar::lemma_day_exists(t / 86400);
        let date = date_of_day(t / 86400);
        let idx = (date.year - 1) * 12 + date.month - 1 + k;
        let y = idx / 12 + 1;
        let m = idx % 12 + 1;
        let d = if date.day <= crate::calendar::days_in_month(y, m) {
            date.day as int
        } else {
            crate::calendar::days_in_month(y, m)
        };
        crate::calendar::lemma_date_in_year(y, m, d);
    }
}

proof fn lemma_side_intersect(a: Constraint, b: Constraint, r: int, t: int, forward: bool, fuel: nat)
    requires
        a.wf(),
        b.wf(),
        in_range(r),
        in_range(t),
    ensures
        seek(crate::helpers::both(a, b), r, t, forward, fuel) matches Some(i)
            ==> on_side(i, t, forward),
    decreases crate::helpers::both(a, b), 0nat, fuel,
{
    let c = crate::helpers::both(a, b);
    if fuel > 0 {
        lemma_seek_side(a, r, t, forward, SEARCH_FUEL as nat);
        lemma_seek_side(b, r, t, forward, SEARCH_FUEL as nat);
        match (
            seek(a, r, t, forward, SEARCH_FUEL as nat),
            seek(b, r, t, forward, SEARCH_FUEL as nat),
        ) {
            (Some(x), Some(y)) => {
                if overlap(x, y) is None {
                    lemma_side_intersect(a, b, r, next_pivot(x, y, forward), forward, (fuel - 1) as nat);
                }
            },
            _ => {},
        }
    }
}

proof fn lemma_side_span(
    from: Constraint,
    to: Constraint,
    inclusive: bool,
    r: int,
    t: int,
    forward: bool,
    fuel: nat,
)
    requires
        from.wf(),
        to.wf(),
        in_range(r),
        in_range(t),
    ensures
        seek(crate::helpers::stretch(from, to, inclusive), r, t, forward, fuel) matches Some(i)
            ==> on_side(i, t, forward),
    decreases crate::helpers::stretch(from, to, inclusive), 0nat, 0nat,
{
    if in_range(t + 1) {
        lemma_seek_side(from, r, t + 1, false, SEARCH_FUEL as nat);
        lemma_span_wf(seek(from, r, t + 1, false, SEARCH_FUEL as nat), to, r, inclusive);
    }
    lemma_after_wf(from, r, t);
    lemma_span_wf(after(from, r, t), to, r, inclusive);
    lemma_seek_side(from, r, t, false, SEARCH_FUEL as nat);
    lemma_span_wf(seek(from, r, t, false, SEARCH_FUEL as nat), to, r, inclusive);
}

proof fn lemma_last_within_wf(inner: Constraint, outer: Option<Interval>, r: int)
    requires
        inner.wf(),
        in_range(r),
        well(outer),
    ensures
        well(last_within(inner, outer, r)),
    decreases inner, 2nat, 0nat,
{
    match outer {
        Some(o) => {
            lemma_seek_side(inner, r, o.end as int, false, SEARCH_FUEL as nat);
            match seek(inner, r, o.end as int, false, SEARCH_FUEL as nat) {
                Some(i) => {
                    lemma_seek_side(inner, r, i.start as int, false, SEARCH_FUEL as nat);
                },
                None => {},
            }
        },
        None => {},
    }
}

/// A window of a grain is well formed.
pub proof fn lemma_window_wf(g: Grain, t: int)
    ensures
        window_at(g, t) matches Some(i) ==> i.wf(),
{
}

proof fn lemma_scan_side(c: Constraint, t: int, forward: bool)
    requires
        in_range(t),
        c is Month || c is DayOfMonth || c is DayOfWeek || c is Hour || c is Minute || c is Second,
    ensures
        scan(c, t, forward) matches Some(i) ==> on_side(i, t, forward),
{
    let len = unit_length(c);
    if forward {
        lemma_first_unit(c, t / len, scan_limit(c));
        match first_unit(c, t / len, scan_limit(c)) {
            Some(u) => {
                lemma_window_wf(c.grain(), u * len);
                lemma_first_in_range(c, t / len, scan_limit(c));
                lemma_window_holds(c.grain(), u * len);
                if u == t / len {
                    if c is Month {
                        assert((u * 86400) / 86400 == t / 86400);
                        lemma_window_holds(c.grain(), t);
                    }
                } else {
                    assert(u * len > t) by (nonlinear_arith)
                        requires
                            u >= t / len + 1,
                            len > 0,
                            t >= 0,
                    ;
                }
            },
            None => {},
        }
    } else if t > 0 {
        lemma_last_unit(c, (t - 1) / len, scan_limit(c));
        match last_unit(c, (t - 1) / len, scan_limit(c)) {
            Some(u) => {
                lemma_window_wf(c.grain(), u * len);
                lemma_last_in_range(c, (t - 1) / len, scan_limit(c));
                lemma_window_holds(c.grain(), u * len);
                assert(u * len <= t - 1) by (nonlinear_arith)
                    requires
                        u <= (t - 1) / len,
                        len > 0,
                        t - 1 >= 0,
                ;
            },
            None => {},
        }
    }
}

proof fn lemma_first_in_range(c: Constraint, u: int, n: nat)
    ensures
        first_unit(c, u, n) matches Some(x) ==> in_range(x * unit_length(c)),
    decreases n,
{
    if n == 0 || u < 0 || u * unit_length(c) >= MAX_INSTANT {
    } else if unit_matches(c, u) {
        assert(u * unit_length(c) >= 0) by (nonlinear_arith)
            requires
                u >= 0,
                unit_length(c) > 0,
        ;
    } else {
        lemma_first_in_range(c, u + 1, (n - 1) as nat);
    }
}

proof fn lemma_last_in_range(c: Constraint, u: int, n: nat)
    ensures
        last_unit(c, u, n) matches Some(x) ==> in_range(x * unit_length(c)),
    decreases n,
{
    if n == 0 || u < 0 || u * unit_length(c) >= MAX_INSTANT {
    } else if unit_matches(c, u) {
        assert(u * unit_length(c) >= 0) by (nonlinear_arith)
            requires
                u >= 0,
                unit_length(c) > 0,
        ;
    } else {
        lemma_last_in_range(c, u - 1, (n - 1) as nat);
    }
}

proof fn lemma_span_wf(a: Option<Interval>, to: Constraint, r: int, inclusive: bool)
    requires
        to.wf(),
        in_range(r),
        well(a),
    ensures
        well(span_from(a, to, r, inclusive)),
    decreases to, 2nat, 0nat,
{
    match a {
        Some(x) => {
            lemma_seek_side(to, r, x.start as int, true, SEARCH_FUEL as nat);
        },
        None => {},
    }
}

proof fn lemma_after_wf(c: Constraint, r: int, t: int)
    requires
        c.wf(),
        in_range(r),
        in_range(t),
    ensures
        well(after(c, r, t)),
    decreases c, 2nat, 0nat,
{
    lemma_seek_side(c, r, t, true, SEARCH_FUEL as nat);
    match seek(c, r, t, true, SEARCH_FUEL as nat) {
        Some(a) => {
            lemma_seek_side(c, r, a.end as int, true, SEARCH_FUEL as nat);
        },
        None => {},
    }
}

proof fn lemma_past_wf(c: Constraint, r: int, t: int)
    requires
        c.wf(),
        in_range(r),
        in_range(t),
    ensures
        well(past(c, r, t)),
    decreases c, 2nat, 0nat,
{
    lemma_seek_side(c, r, t, false, SEARCH_FUEL as nat);
    match seek(c, r, t, false, SEARCH_FUEL as nat) {
        Some(p) => {
            lemma_seek_side(c, r, p.start as int, false, SEARCH_FUEL as nat);
        },
        None => {},
    }
}

/// The interval that an expression names at a reference is well formed.
pub proof fn lemma_anchor_wf(c: Constraint, r: int)
    requires
        c.wf(),
        in_range(r),
    ensures
        well(anchor(c, r)),
    decreases c, 2nat, 0nat,
{
    lemma_seek_side(c, r, r, true, SEARCH_FUEL as nat);
    lemma_seek_side(c, r, r, false, SEARCH_FUEL as nat);
}

proof fn lemma_walk_wf(c: Constraint, r: int, t: int, k: nat, forward: bool)
    requires
        c.wf(),
        in_range(r),
        in_range(t),
    ensures
        well(walk(c, r, t, k, forward)),
    decreases c, 3nat, k,
{
    if forward {
        lemma_seek_side(c, r, t, true, SEARCH_FUEL as nat);
        match seek(c, r, t, true, SEARCH_FUEL as nat) {
            Some(i) => {
                if k > 0 {
                    lemma_walk_wf(c, r, i.end as int, (k - 1) as nat, true);
                }
            },
            None => {},
        }
    } else {
        lemma_past_wf(c, r, t);
        match past(c, r, t) {
            Some(p) => {
                if k > 1 {
                    lemma_walk_wf(c, r, p.start as int, (k - 1) as nat, false);
                }
            },
            None => {},
        }
    }
}

proof fn lemma_nth_wf(base: Constraint, r: int, n: int)
    requires
        base.wf(),
        in_range(r),
    ensures
        well(nth(base, r, n)),
    decreases base, 4nat, 0nat,
{
    if n > NTH_LIMIT || n < -NTH_LIMIT {
    } else if n >= 0 {
        lemma_walk_wf(base, r, r, n as nat, true);
    } else {
        lemma_walk_wf(base, r, r, (-n) as nat, false);
    }
}

/// The expression for the interval number `n` of an expression.
pub open spec fn numbered(base: Constraint, n: i64) -> Constraint {
    Constraint::Nth { base: Box::new(base), n }
}

/// The interval number 0 of an expression is the first one that ends after
/// the reference: the one that holds the reference or else the next.
pub proof fn lemma_nth_zero(base: Constraint, r: int)
    requires
        base.wf(),
        in_range(r),
    ensures
        anchor(numbered(base, 0), r) == seek(base, r, r, true, SEARCH_FUEL as nat),
        anchor(numbered(base, 0), r) matches Some(i) ==> i.end > r,
{
    lemma_seek_side(base, r, r, true, SEARCH_FUEL as nat);
    lemma_seek_side(base, r, r, false, SEARCH_FUEL as nat);
    let c = numbered(base, 0);
    assert(nth(base, r, 0) == walk(base, r, r, 0, true));
    assert(walk(base, r, r, 0, true) == seek(base, r, r, true, SEARCH_FUEL as nat));
    assert(seek(c, r, r, true, SEARCH_FUEL as nat) == pick(nth(base, r, 0), r, true));
    assert(seek(c, r, r, false, SEARCH_FUEL as nat) == pick(nth(base, r, 0), r, false));
}

/// A year of two digits stands for a year within fifty years of the
/// reference that ends in the two digits; a year from 100 on stands for
/// itself.
pub proof fn lemma_full_year(y: int, reference_year: int)
    requires
        0 <= y,
    ensures
        y >= 100 ==> full_year(y, reference_year) == y,
        y < 100 ==> full_year(y, reference_year) % 100 == y && -50 <= full_year(y, reference_year)
            - reference_year <= 50,
{
}

/// Whether `i` is the common part of the intervals of the two expressions
/// that a search from pivot `p` finds.
pub open spec fn common_at(
    a: Constraint,
    b: Constraint,
    r: int,
    p: int,
    forward: bool,
    i: Interval,
) -> bool {
    match (seek(a, r, p, forward, SEARCH_FUEL as nat), seek(b, r, p, forward, SEARCH_FUEL as nat)) {
        (Some(x), Some(y)) => overlap(x, y) == Some(i),
        _ => false,
    }
}

/// Whether `i` is the common part of intervals of the two expressions found
/// from some pivot on the searched side of `t`.
pub open spec fn common_beyond(
    a: Constraint,
    b: Constraint,
    r: int,
    t: int,
    forward: bool,
    i: Interval,
) -> bool {
    exists|p: int|
        in_range(p) && (if forward {
            p >= t
        } else {
            p <= t
        }) && #[trigger] common_at(a, b, r, p, forward, i)
}

/// What a search through an intersection finds is the common part of an
/// interval of the one operand and an interval of the other.
pub proof fn lemma_intersect_within(
    a: Constraint,
    b: Constraint,
    r: int,
    t: int,
    forward: bool,
    fuel: nat,
)
    requires
        a.wf(),
        b.wf(),
        in_range(r),
        in_range(t),
    ensures
        seek(crate::helpers::both(a, b), r, t, forward, fuel) matches Some(i) ==> common_beyond(
            a,
            b,
            r,
            t,
            forward,
            i,
        ),
    decreases fuel,
{
    if fuel > 0 {
        lemma_seek_side(a, r, t, forward, SEARCH_FUEL as nat);
        lemma_seek_side(b, r, t, forward, SEARCH_FUEL as nat);
        match (
            seek(a, r, t, forward, SEARCH_FUEL as nat),
            seek(b, r, t, forward, SEARCH_FUEL as nat),
        ) {
            (Some(x), Some(y)) => {
                match overlap(x, y) {
                    Some(o) => {
                        assert(common_at(a, b, r, t, forward, o));
                    },
                    None => {
                        let next = next_pivot(x, y, forward);
                        lemma_intersect_within(a, b, r, next, forward, (fuel - 1) as nat);
                        match seek(crate::helpers::both(a, b), r, next, forward, (fuel - 1) as nat) {
                            Some(i) => {
                                let p = choose|p: int|
                                    in_range(p) && (if forward {
                                        p >= next
                                    } else {
                                        p <= next
                                    }) && #[trigger] common_at(a, b, r, p, forward, i);
                                assert(common_at(a, b, r, p, forward, i));
                            },
                            None => {},
                        }
                    },
                }
            },
            _ => {},
        }
    }
}

/// Whether some search for the expression finds the interval.
pub open spec fn occurs(c: Constraint, r: int, x: Interval) -> bool {
    exists|p: int, forward: bool| #[trigger]
        seek(c, r, p, forward, SEARCH_FUEL as nat) == Some(x)
}

/// Whether `i` is the stretch that begins with some interval of `from`.
pub open spec fn stretched(
    from: Constraint,
    to: Constraint,
    inclusive: bool,
    r: int,
    i: Interval,
) -> bool {
    exists|x: Interval| #[trigger]
        occurs(from, r, x) && span_from(Some(x), to, r, inclusive) == Some(i)
}

/// The first interval after a pivot is an interval of the expression.
proof fn lemma_after_occurs(c: Constraint, r: int, t: int)
    ensures
        after(c, r, t) matches Some(x) ==> occurs(c, r, x),
{
    match seek(c, r, t, true, SEARCH_FUEL as nat) {
        Some(a) => {
            if a.start > t {
                assert(occurs(c, r, a));
            } else {
                match seek(c, r, a.end as int, true, SEARCH_FUEL as nat) {
                    Some(x) => {
                        assert(occurs(c, r, x));
                    },
                    None => {},
                }
            }
        },
        None => {},
    }
}

/// What begins with an interval of the first expression is a stretch.
proof fn lemma_stretch_of(
    from: Constraint,
    to: Constraint,
    inclusive: bool,
    r: int,
    x: Option<Interval>,
)
    requires
        x matches Some(v) ==> occurs(from, r, v),
    ensures
        span_from(x, to, r, inclusive) matches Some(i) ==> i.explicit && stretched(
            from,
            to,
            inclusive,
            r,
            i,
        ),
{
    match x {
        Some(v) => {
            match span_from(x, to, r, inclusive) {
                Some(i) => {
                    assert(occurs(from, r, v) && span_from(Some(v), to, r, inclusive) == Some(i));
                },
                None => {},
            }
        },
        None => {},
    }
}

/// What a search through a stretch finds begins with an interval of the
/// first expression and reaches to the first interval of the second that
/// ends after that beginning.
pub proof fn lemma_span_within(
    from: Constraint,
    to: Constraint,
    inclusive: bool,
    r: int,
    t: int,
    forward: bool,
    fuel: nat,
)
    ensures
        seek(crate::helpers::stretch(from, to, inclusive), r, t, forward, fuel) matches Some(i)
            ==> i.explicit && stretched(from, to, inclusive, r, i),
{
    let back = seek(from, r, t + 1, false, SEARCH_FUEL as nat);
    let behind = seek(from, r, t, false, SEARCH_FUEL as nat);
    if back is Some {
        assert(occurs(from, r, back->0));
    }
    if behind is Some {
        assert(occurs(from, r, behind->0));
    }
    lemma_after_occurs(from, r, t);
    lemma_stretch_of(from, to, inclusive, r, back);
    lemma_stretch_of(from, to, inclusive, r, behind);
    lemma_stretch_of(from, to, inclusive, r, after(from, r, t));
}

} // verus!
