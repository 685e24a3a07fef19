//! Time expressions: descriptions of periodic sets of calendar intervals,
//! and the operations that compose them.

use vstd::prelude::*;
use crate::duration::CycleValue;
use crate::duration::DurationValue;
use crate::duration::Period;
use crate::error::ProductionError;
use crate::grain::Grain;
use crate::number::Precision;

verus! {

/// The days of the week.
#[derive(Clone, Copy, Debug, PartialEq, Eq, Structural)]
pub enum Weekday {
    Mon,
    Tue,
    Wed,
    Thu,
    Fri,
    Sat,
    Sun,
}

impl Weekday {
    /// Days since Monday.
    pub open spec fn number(self) -> int {
        match self {
            Weekday::Mon => 0,
            Weekday::Tue => 1,
            Weekday::Wed => 2,
            Weekday::Thu => 3,
            Weekday::Fri => 4,
            Weekday::Sat => 5,
            Weekday::Sun => 6,
        }
    }

    /// Days since Monday.
    pub fn index(self) -> (r: i64)
        ensures
            r == self.number(),
    {
        match self {
            Weekday::Mon => 0,
            Weekday::Tue => 1,
            Weekday::Wed => 2,
            Weekday::Thu => 3,
            Weekday::Fri => 4,
            Weekday::Sat => 5,
            Weekday::Sun => 6,
        }
    }
}

/// What is known of the hour of a time of day.
#[derive(Clone, Copy, Debug, PartialEq, Eq, Structural)]
pub enum HourForm {
    /// The time of day is more than a full hour, or is an hour within a
    /// part of the day.
    Unknown,
    /// The time of day is the full hour `full_hour`, read on a twelve-hour
    /// clock where `twelve` holds.
    Known { full_hour: i64, twelve: bool },
}

/// The kind of thing that a time expression names.
#[derive(Clone, Copy, Debug, PartialEq, Eq, Structural)]
pub enum Form {
    DayOfWeek(Weekday),
    Month(i64),
    TimeOfDay(HourForm),
    PartOfDay,
    Empty,
}

/// Whether a time names its occurrences, or all that lies before or after
/// one.
#[derive(Clone, Copy, Debug, PartialEq, Eq, Structural)]
pub enum Direction {
    /// The expression names its occurrences themselves.
    Neither,
    /// Everything before the occurrence.
    Before,
    /// Everything from the occurrence on.
    After,
}

/// The calendar dimensions that a time expression fixes.
#[derive(Clone, Copy, Debug, PartialEq, Eq, Structural)]
pub struct Dims {
    pub year: bool,
    pub month: bool,
    pub day: bool,
    pub weekday: bool,
    pub part: bool,
    pub hour: bool,
    pub minute: bool,
    pub second: bool,
}

impl Dims {
    /// No dimension.
    pub open spec fn none() -> Dims {
        Dims {
            year: false,
            month: false,
            day: false,
            weekday: false,
            part: false,
            hour: false,
            minute: false,
            second: false,
        }
    }

    /// Every dimension.
    pub open spec fn all() -> Dims {
        Dims {
            year: true,
            month: true,
            day: true,
            weekday: true,
            part: true,
            hour: true,
            minute: true,
            second: true,
        }
    }

    /// The dimensions that either fixes.
    pub open spec fn union(self, o: Dims) -> Dims {
        Dims {
            year: self.year || o.year,
            month: self.month || o.month,
            day: self.day || o.day,
            weekday: self.weekday || o.weekday,
            part: self.part || o.part,
            hour: self.hour || o.hour,
            minute: self.minute || o.minute,
            second: self.second || o.second,
        }
    }

    /// Whether the two fix a common dimension.
    pub open spec fn overlaps(self, o: Dims) -> bool {
        (self.year && o.year) || (self.month && o.month) || (self.day && o.day) || (self.weekday
            && o.weekday) || (self.part && o.part) || (self.hour && o.hour) || (self.minute
            && o.minute) || (self.second && o.second)
    }

    /// Whether nothing coarser than the hour is fixed.
    pub open spec fn clock_only(self) -> bool {
        !self.year && !self.month && !self.day && !self.weekday && !self.part
    }

    /// The dimensions that a window of the given grain fixes.
    pub open spec fn of_window(g: Grain) -> Dims {
        match g {
            Grain::Year => Dims { year: true, ..Self::none() },
            Grain::Quarter | Grain::Month => Dims { year: true, month: true, ..Self::none() },
            Grain::Week | Grain::Day => Dims {
                year: true,
                month: true,
                day: true,
                weekday: true,
                ..Self::none()
            },
            Grain::Hour => Dims { minute: false, second: false, ..Self::all() },
            Grain::Minute => Dims { second: false, ..Self::all() },
            Grain::Second => Self::all(),
        }
    }

    /// No dimension.
    pub fn empty() -> (d: Dims)
        ensures
            d == Self::none(),
    {
        Dims {
            year: false,
            month: false,
            day: false,
            weekday: false,
            part: false,
            hour: false,
            minute: false,
            second: false,
        }
    }

    /// Every dimension.
    pub fn full() -> (d: Dims)
        ensures
            d == Self::all(),
    {
        Dims {
            year: true,
            month: true,
            day: true,
            weekday: true,
            part: true,
            hour: true,
            minute: true,
            second: true,
        }
    }

    /// The dimensions that either fixes.
    pub fn join(self, o: Dims) -> (d: Dims)
        ensures
            d == self.union(o),
    {
        Dims {
            year: self.year || o.year,
            month: self.month || o.month,
            day: self.day || o.day,
            weekday: self.weekday || o.weekday,
            part: self.part || o.part,
            hour: self.hour || o.hour,
            minute: self.minute || o.minute,
            second: self.second || o.second,
        }
    }

    /// Whether the two fix a common dimension.
    pub fn meets(self, o: Dims) -> (r: bool)
        ensures
            r == self.overlaps(o),
    {
        (self.year && o.year) || (self.month && o.month) || (self.day && o.day) || (self.weekday
            && o.weekday) || (self.part && o.part) || (self.hour && o.hour) || (self.minute
            && o.minute) || (self.second && o.second)
    }

    /// Whether nothing coarser than the hour is fixed.
    pub fn is_clock_only(self) -> (r: bool)
        ensures
            r == self.clock_only(),
    {
        !self.year && !self.month && !self.day && !self.weekday && !self.part
    }

    /// The dimensions that a window of the given grain fixes.
    pub fn window(g: Grain) -> (d: Dims)
        ensures
            d == Self::of_window(g),
    {
        let n = Dims::empty();
        let a = Dims::full();
        match g {
            Grain::Year => Dims { year: true, ..n },
            Grain::Quarter | Grain::Month => Dims { year: true, month: true, ..n },
            Grain::Week | Grain::Day => Dims {
                year: true,
                month: true,
                day: true,
                weekday: true,
                ..n
            },
            Grain::Hour => Dims { minute: false, second: false, ..a },
            Grain::Minute => Dims { second: false, ..a },
            Grain::Second => a,
        }
    }
}

/// A periodic set of calendar intervals, as an expression.
///
/// The first eight variants name every window of the calendar that has the
/// given field: every March, every Tuesday, every minute 30 of an hour.
/// `Every` names each window of a grain. The others are built from
/// expressions and name the intervals described with each.
#[derive(Debug, PartialEq, Eq)]
pub enum Constraint {
    /// The year; one below 100 stands for the year with these last two
    /// digits that lies nearest to the reference.
    Year(i64),
    Month(i64),
    DayOfMonth(i64),
    DayOfWeek(Weekday),
    /// The hour `hour`, and where `twelve` holds also the hour twelve hours
    /// from it.
    Hour { hour: i64, twelve: bool },
    Minute(i64),
    Second(i64),
    Every(Grain),
    /// The window of the grain that lies `offset` windows after the one that
    /// holds the reference.
    Cycle { grain: Grain, offset: i64 },
    /// The overlaps of an interval of the first with one of the second.
    Intersect(Box<Constraint>, Box<Constraint>),
    /// For each interval of `from`, the stretch from its start to the first
    /// interval of `to` that ends after that start: up to its end where
    /// `inclusive` holds, up to its start otherwise.
    Span { from: Box<Constraint>, to: Box<Constraint>, inclusive: bool },
    /// The interval of `base` that is number `n` from the reference: 0 is the
    /// one that holds the reference or else follows it, -1 the last one that
    /// ended by the reference.
    Nth { base: Box<Constraint>, n: i64 },
    /// The last interval of `inner` that lies within the interval of `outer`.
    LastOf { inner: Box<Constraint>, outer: Box<Constraint> },
    /// The window of the grain that lies `n` windows after the one that
    /// holds the start of the interval of `base`; where `whole` holds and
    /// that window began before the interval, counting starts one later.
    CycleAfter { grain: Grain, n: i64, base: Box<Constraint>, whole: bool },
    /// The interval of `base`, moved by the period.
    Shift { base: Box<Constraint>, period: Period },
}

impl Constraint {
    /// Every calendar field lies within its range, at every level.
    pub open spec fn wf(self) -> bool
        decreases self,
    {
        match self {
            Constraint::Year(y) => 0 <= y <= 9999,
            Constraint::Month(m) => 1 <= m <= 12,
            Constraint::DayOfMonth(d) => 1 <= d <= 31,
            Constraint::DayOfWeek(_) => true,
            Constraint::Hour { hour, twelve } => 0 <= hour <= 23,
            Constraint::Minute(m) => 0 <= m <= 59,
            Constraint::Second(s) => 0 <= s <= 59,
            Constraint::Every(_) => true,
            Constraint::Cycle { grain, offset } => true,
            Constraint::Intersect(a, b) => a.wf() && b.wf(),
            Constraint::Span { from, to, inclusive } => from.wf() && to.wf(),
            Constraint::Nth { base, n } => base.wf(),
            Constraint::LastOf { inner, outer } => inner.wf() && outer.wf(),
            Constraint::CycleAfter { grain, n, base, whole } => base.wf(),
            Constraint::Shift { base, period } => base.wf() && period.bounded(),
        }
    }

    /// The grain in which the intervals are measured.
    pub open spec fn grain(self) -> Grain
        decreases self,
    {
        match self {
            Constraint::Year(_) => Grain::Year,
            Constraint::Month(_) => Grain::Month,
            Constraint::DayOfMonth(_) => Grain::Day,
            Constraint::DayOfWeek(_) => Grain::Day,
            Constraint::Hour { hour, twelve } => Grain::Hour,
            Constraint::Minute(_) => Grain::Minute,
            Constraint::Second(_) => Grain::Second,
            Constraint::Every(g) => g,
            Constraint::Cycle { grain, offset } => grain,
            Constraint::Intersect(a, b) => a.grain().finer_spec(b.grain()),
            Constraint::Span { from, to, inclusive } => from.grain().finer_spec(to.grain()),
            Constraint::Nth { base, n } => base.grain(),
            Constraint::LastOf { inner, outer } => inner.grain(),
            Constraint::CycleAfter { grain, n, base, whole } => grain,
            Constraint::Shift { base, period } => period.finest(),
        }
    }

    /// The calendar dimensions that the expression fixes.
    pub open spec fn dims(self) -> Dims
        decreases self,
    {
        match self {
            Constraint::Year(_) => Dims { year: true, ..Dims::none() },
            Constraint::Month(_) => Dims { month: true, ..Dims::none() },
            Constraint::DayOfMonth(_) => Dims { day: true, ..Dims::none() },
            Constraint::DayOfWeek(_) => Dims { weekday: true, ..Dims::none() },
            Constraint::Hour { hour, twelve } => Dims { hour: true, ..Dims::none() },
            Constraint::Minute(_) => Dims { minute: true, ..Dims::none() },
            Constraint::Second(_) => Dims { second: true, ..Dims::none() },
            Constraint::Every(_) => Dims::none(),
            Constraint::Cycle { grain, offset } => Dims::of_window(grain),
            Constraint::Intersect(a, b) => a.dims().union(b.dims()),
            Constraint::Span { from, to, inclusive } => {
                let both = from.dims().union(to.dims());
                if both.clock_only() {
                    Dims { part: true, ..Dims::none() }
                } else {
                    both
                }
            },
            Constraint::Nth { base, n } => base.dims(),
            Constraint::LastOf { inner, outer } => inner.dims().union(outer.dims()),
            Constraint::CycleAfter { grain, n, base, whole } => Dims::of_window(grain).union(
                base.dims(),
            ),
            Constraint::Shift { base, period } => Dims::all(),
        }
    }

    /// The grain in which the intervals are measured.
    pub fn grain_of(&self) -> (g: Grain)
        ensures
            g == self.grain(),
        decreases self,
    {
        match self {
            Constraint::Year(_) => Grain::Year,
            Constraint::Month(_) => Grain::Month,
            Constraint::DayOfMonth(_) => Grain::Day,
            Constraint::DayOfWeek(_) => Grain::Day,
            Constraint::Hour { .. } => Grain::Hour,
            Constraint::Minute(_) => Grain::Minute,
            Constraint::Second(_) => Grain::Second,
            Constraint::Every(g) => *g,
            Constraint::Cycle { grain, .. } => *grain,
            Constraint::Intersect(a, b) => a.grain_of().finer(b.grain_of()),
            Constraint::Span { from, to, .. } => from.grain_of().finer(to.grain_of()),
            Constraint::Nth { base, .. } => base.grain_of(),
            Constraint::LastOf { inner, .. } => inner.grain_of(),
            Constraint::CycleAfter { grain, .. } => *grain,
            Constraint::Shift { period, .. } => period.finest_grain(),
        }
    }

    /// The calendar dimensions that the expression fixes.
    pub fn dims_of(&self) -> (d: Dims)
        ensures
            d == self.dims(),
        decreases self,
    {
        let n = Dims::empty();
        match self {
            Constraint::Year(_) => Dims { year: true, ..n },
            Constraint::Month(_) => Dims { month: true, ..n },
            Constraint::DayOfMonth(_) => Dims { day: true, ..n },
            Constraint::DayOfWeek(_) => Dims { weekday: true, ..n },
            Constraint::Hour { .. } => Dims { hour: true, ..n },
            Constraint::Minute(_) => Dims { minute: true, ..n },
            Constraint::Second(_) => Dims { second: true, ..n },
            Constraint::Every(_) => n,
            Constraint::Cycle { grain, .. } => Dims::window(*grain),
            Constraint::Intersect(a, b) => a.dims_of().join(b.dims_of()),
            Constraint::Span { from, to, .. } => {
                let both = from.dims_of().join(to.dims_of());
                if both.is_clock_only() {
                    Dims { part: true, ..n }
                } else {
                    both
                }
            },
            Constraint::Nth { base, .. } => base.dims_of(),
            Constraint::LastOf { inner, outer } => inner.dims_of().join(outer.dims_of()),
            Constraint::CycleAfter { grain, base, .. } => Dims::window(*grain).join(
                base.dims_of(),
            ),
            Constraint::Shift { .. } => Dims::full(),
        }
    }

    /// A copy of the expression.
    pub fn copy(&self) -> (c: Constraint)
        ensures
            c == *self,
        decreases self,
    {
        match self {
            Constraint::Year(y) => Constraint::Year(*y),
            Constraint::Month(m) => Constraint::Month(*m),
            Constraint::DayOfMonth(d) => Constraint::DayOfMonth(*d),
            Constraint::DayOfWeek(w) => Constraint::DayOfWeek(*w),
            Constraint::Hour { hour, twelve } => Constraint::Hour { hour: *hour, twelve: *twelve },
            Constraint::Minute(m) => Constraint::Minute(*m),
            Constraint::Second(s) => Constraint::Second(*s),
            Constraint::Every(g) => Constraint::Every(*g),
            Constraint::Cycle { grain, offset } => Constraint::Cycle {
                grain: *grain,
                offset: *offset,
            },
            Constraint::Intersect(a, b) => Constraint::Intersect(
                Box::new(a.copy()),
                Box::new(b.copy()),
            ),
            Constraint::Span { from, to, inclusive } => Constraint::Span {
                from: Box::new(from.copy()),
                to: Box::new(to.copy()),
                inclusive: *inclusive,
            },
            Constraint::Nth { base, n } => Constraint::Nth { base: Box::new(base.copy()), n: *n },
            Constraint::LastOf { inner, outer } => Constraint::LastOf {
                inner: Box::new(inner.copy()),
                outer: Box::new(outer.copy()),
            },
            Constraint::CycleAfter { grain, n, base, whole } => Constraint::CycleAfter {
                grain: *grain,
                n: *n,
                base: Box::new(base.copy()),
                whole: *whole,
            },
            Constraint::Shift { base, period } => Constraint::Shift {
                base: Box::new(base.copy()),
                period: *period,
            },
        }
    }

    /// Whether two expressions are the same expression.
    pub fn same(&self, other: &Constraint) -> (r: bool)
        ensures
            r == (*self == *other),
        decreases self,
    {
        match self {
            Constraint::Year(y) => match other {
                Constraint::Year(z) => *y == *z,
                _ => false,
            },
            Constraint::Month(y) => match other {
                Constraint::Month(z) => *y == *z,
                _ => false,
            },
            Constraint::DayOfMonth(y) => match other {
                Constraint::DayOfMonth(z) => *y == *z,
                _ => false,
            },
            Constraint::DayOfWeek(y) => match other {
                Constraint::DayOfWeek(z) => *y == *z,
                _ => false,
            },
            Constraint::Hour { hour, twelve } => match other {
                Constraint::Hour { hour: h, twelve: t } => *hour == *h && *twelve == *t,
                _ => false,
            },
            Constraint::Minute(y) => match other {
                Constraint::Minute(z) => *y == *z,
                _ => false,
            },
            Constraint::Second(y) => match other {
                Constraint::Second(z) => *y == *z,
                _ => false,
            },
            Constraint::Every(y) => match other {
                Constraint::Every(z) => *y == *z,
                _ => false,
            },
            Constraint::Cycle { grain, offset } => match other {
                Constraint::Cycle { grain: g, offset: o } => *grain == *g && *offset == *o,
                _ => false,
            },
            Constraint::Intersect(a, b) => match other {
                Constraint::Intersect(c, d) => a.same(c) && b.same(d),
                _ => false,
            },
            Constraint::Span { from, to, inclusive } => match other {
                Constraint::Span { from: f, to: t, inclusive: i } => from.same(f) && to.same(t)
                    && *inclusive == *i,
                _ => false,
            },
            Constraint::Nth { base, n } => match other {
                Constraint::Nth { base: b, n: m } => base.same(b) && *n == *m,
                _ => false,
            },
            Constraint::LastOf { inner, outer } => match other {
                Constraint::LastOf { inner: i, outer: o } => inner.same(i) && outer.same(o),
                _ => false,
            },
            Constraint::CycleAfter { grain, n, base, whole } => match other {
                Constraint::CycleAfter { grain: g, n: m, base: b, whole: w } => *grain == *g
                    && *n == *m && base.same(b) && *whole == *w,
                _ => false,
            },
            Constraint::Shift { base, period } => match other {
                Constraint::Shift { base: b, period: p } => base.same(b) && *period == *p,
                _ => false,
            },
        }
    }
}

impl Clone for Constraint {
    fn clone(&self) -> (c: Constraint)
        ensures
            c == *self,
    {
        self.copy()
    }
}

/// A time expression with what the grammar knows of it.
///
/// A `latent` value is a guess that needs more context ("3" as an hour); it
/// never surfaces by itself.
#[derive(Debug, PartialEq, Eq)]
pub struct TimeValue {
    pub constraint: Constraint,
    pub form: Form,
    pub direction: Direction,
    pub precision: Precision,
    pub latent: bool,
}

impl Clone for TimeValue {
    fn clone(&self) -> (t: TimeValue)
        ensures
            t == *self,
    {
        self.copy()
    }
}

/// Two time values have the same intersection whichever comes first.
pub proof fn lemma_intersection_commutes(a: TimeValue, b: TimeValue)
    ensures
        a.intersection(b) == b.intersection(a),
        a.constraint.dims().overlaps(b.constraint.dims()) == b.constraint.dims().overlaps(
            a.constraint.dims(),
        ),
{
    crate::order::lemma_joined_commutes(a.constraint, b.constraint);
}

/// The intersection of two times is measured in the finer of their grains.
pub proof fn lemma_intersection_grain(a: TimeValue, b: TimeValue)
    ensures
        a.intersection(b).constraint.grain() == a.constraint.grain().finer_spec(
            b.constraint.grain(),
        ),
{
    if a.constraint.grain().rank() == b.constraint.grain().rank() {
        crate::grain::lemma_rank_injective(a.constraint.grain(), b.constraint.grain());
    }
}

/// The form of an intersection: that of the one operand that has one.
pub open spec fn joined_form(a: Form, b: Form) -> Form {
    if a == Form::Empty {
        b
    } else if b == Form::Empty {
        a
    } else {
        Form::Empty
    }
}

/// The direction of an intersection: that of the one operand that has one,
/// or the one that both have.
pub open spec fn joined_direction(a: Direction, b: Direction) -> Direction {
    if a == Direction::Neither {
        b
    } else if b == Direction::Neither || a == b {
        a
    } else {
        Direction::Neither
    }
}

/// The precision of a time made of two: approximate where either is.
pub open spec fn joined_precision(a: Precision, b: Precision) -> Precision {
    if a == Precision::Approximate || b == Precision::Approximate {
        Precision::Approximate
    } else {
        Precision::Exact
    }
}

impl TimeValue {
    /// Whether every calendar field lies within its range.
    pub open spec fn wf(self) -> bool {
        self.constraint.wf()
    }

    /// The plain time value of an expression: no form, no direction, exact,
    /// not latent.
    pub open spec fn plain(constraint: Constraint) -> TimeValue {
        TimeValue {
            constraint,
            form: Form::Empty,
            direction: Direction::Neither,
            precision: Precision::Exact,
            latent: false,
        }
    }

    /// The plain time value of an expression: no form, no direction, exact,
    /// not latent.
    pub fn of(constraint: Constraint) -> (t: TimeValue)
        ensures
            t == Self::plain(constraint),
    {
        TimeValue {
            constraint,
            form: Form::Empty,
            direction: Direction::Neither,
            precision: Precision::Exact,
            latent: false,
        }
    }

    /// A copy of the time value.
    pub fn copy(&self) -> (t: TimeValue)
        ensures
            t == *self,
    {
        TimeValue {
            constraint: self.constraint.copy(),
            form: self.form,
            direction: self.direction,
            precision: self.precision,
            latent: self.latent,
        }
    }

    /// Whether two time values are the same.
    pub fn same(&self, other: &TimeValue) -> (r: bool)
        ensures
            r == (*self == *other),
    {
        self.constraint.same(&other.constraint) && self.form == other.form && self.direction
            == other.direction && self.precision == other.precision && self.latent == other.latent
    }

    /// The grain in which the time is measured.
    pub fn grain(&self) -> (g: Grain)
        ensures
            g == self.constraint.grain(),
    {
        self.constraint.grain_of()
    }

    /// What `intersect` gives where the two address disjoint dimensions.
    pub open spec fn intersection(self, other: TimeValue) -> TimeValue {
        TimeValue {
            constraint: crate::order::joined(self.constraint, other.constraint),
            form: joined_form(self.form, other.form),
            direction: joined_direction(self.direction, other.direction),
            precision: joined_precision(self.precision, other.precision),
            latent: self.latent && other.latent,
        }
    }

    /// The times that are both `self` and `other`. Defined where the two
    /// address disjoint calendar dimensions.
    pub fn intersect(&self, other: &TimeValue) -> (r: Result<TimeValue, ProductionError>)
        ensures
            self.constraint.dims().overlaps(other.constraint.dims()) ==> r == Err::<
                TimeValue,
                ProductionError,
            >(ProductionError::Incompatible),
            !self.constraint.dims().overlaps(other.constraint.dims()) ==> r == Ok::<
                TimeValue,
                ProductionError,
            >(self.intersection(*other)),
            self.wf() && other.wf() ==> (r matches Ok(v) ==> v.wf()),
    {
        if self.constraint.dims_of().meets(other.constraint.dims_of()) {
            return Err(ProductionError::Incompatible);
        }
        let form = if self.form == Form::Empty {
            other.form
        } else if other.form == Form::Empty {
            self.form
        } else {
            Form::Empty
        };
        let direction = if self.direction == Direction::Neither {
            other.direction
        } else if other.direction == Direction::Neither || self.direction == other.direction {
            self.direction
        } else {
            Direction::Neither
        };
        let precision = if self.precision == Precision::Approximate || other.precision
            == Precision::Approximate {
            Precision::Approximate
        } else {
            Precision::Exact
        };
        Ok(
            TimeValue {
                constraint: if crate::order::compare(&self.constraint, &other.constraint) <= 0 {
                    Constraint::Intersect(
                        Box::new(self.constraint.copy()),
                        Box::new(other.constraint.copy()),
                    )
                } else {
                    Constraint::Intersect(
                        Box::new(other.constraint.copy()),
                        Box::new(self.constraint.copy()),
                    )
                },
                form,
                direction,
                precision,
                latent: self.latent && other.latent,
            },
        )
    }

    /// The stretch from `self` to `other`.
    pub fn span_to(&self, other: &TimeValue, inclusive: bool) -> (t: TimeValue)
        ensures
            t == (TimeValue {
                precision: joined_precision(self.precision, other.precision),
                ..Self::plain(
                    Constraint::Span {
                        from: Box::new(self.constraint),
                        to: Box::new(other.constraint),
                        inclusive,
                    },
                )
            }),
            self.wf() && other.wf() ==> t.wf(),
    {
        let precision = if self.precision == Precision::Approximate || other.precision
            == Precision::Approximate {
            Precision::Approximate
        } else {
            Precision::Exact
        };
        TimeValue {
            constraint: Constraint::Span {
                from: Box::new(self.constraint.copy()),
                to: Box::new(other.constraint.copy()),
                inclusive,
            },
            form: Form::Empty,
            direction: Direction::Neither,
            precision,
            latent: false,
        }
    }

    /// The occurrence number `n` from the reference.
    pub fn the_nth(&self, n: i64) -> (t: TimeValue)
        ensures
            t == (TimeValue {
                precision: self.precision,
                ..Self::plain(Constraint::Nth { base: Box::new(self.constraint), n })
            }),
            self.wf() ==> t.wf(),
    {
        TimeValue {
            constraint: Constraint::Nth { base: Box::new(self.constraint.copy()), n },
            form: Form::Empty,
            direction: Direction::Neither,
            precision: self.precision,
            latent: false,
        }
    }

    /// The last occurrence of `self` within `outer`.
    pub fn last_of(&self, outer: &TimeValue) -> (t: TimeValue)
        ensures
            t == (TimeValue {
                precision: joined_precision(self.precision, outer.precision),
                ..Self::plain(
                    Constraint::LastOf {
                        inner: Box::new(self.constraint),
                        outer: Box::new(outer.constraint),
                    },
                )
            }),
            self.wf() && outer.wf() ==> t.wf(),
    {
        let precision = if self.precision == Precision::Approximate || outer.precision
            == Precision::Approximate {
            Precision::Approximate
        } else {
            Precision::Exact
        };
        TimeValue {
            constraint: Constraint::LastOf {
                inner: Box::new(self.constraint.copy()),
                outer: Box::new(outer.constraint.copy()),
            },
            form: Form::Empty,
            direction: Direction::Neither,
            precision,
            latent: false,
        }
    }

    /// The same time with a direction.
    pub fn direction(self, direction: Direction) -> (t: TimeValue)
        ensures
            t == (TimeValue { direction, ..self }),
    {
        TimeValue { direction, ..self }
    }

    /// The same time with another precision.
    pub fn precision(self, precision: Precision) -> (t: TimeValue)
        ensures
            t == (TimeValue { precision, ..self }),
    {
        TimeValue { precision, ..self }
    }

    /// The same time, marked as a guess that needs more context.
    pub fn latent(self) -> (t: TimeValue)
        ensures
            t == (TimeValue { latent: true, ..self }),
    {
        TimeValue { latent: true, ..self }
    }

    /// The same time, no longer marked as a guess.
    pub fn not_latent(self) -> (t: TimeValue)
        ensures
            t == (TimeValue { latent: false, ..self }),
    {
        TimeValue { latent: false, ..self }
    }

    /// The same time with another form.
    pub fn form(self, form: Form) -> (t: TimeValue)
        ensures
            t == (TimeValue { form, ..self }),
    {
        TimeValue { form, ..self }
    }

    /// The full hour of a time of day whose hour is known.
    pub fn form_time_of_day(&self) -> (r: Result<(i64, bool), ProductionError>)
        ensures
            r == match self.form {
                Form::TimeOfDay(HourForm::Known { full_hour, twelve }) => Ok::<
                    (i64, bool),
                    ProductionError,
                >((full_hour, twelve)),
                _ => Err::<(i64, bool), ProductionError>(ProductionError::Malformed),
            },
    {
        match self.form {
            Form::TimeOfDay(HourForm::Known { full_hour, twelve }) => Ok((full_hour, twelve)),
            _ => Err(ProductionError::Malformed),
        }
    }
}

impl CycleValue {
    /// The last window of the cycle within `outer`.
    pub fn last_of(&self, outer: &TimeValue) -> (t: TimeValue)
        ensures
            t == (TimeValue {
                precision: outer.precision,
                ..TimeValue::plain(
                    Constraint::LastOf {
                        inner: Box::new(Constraint::Every(self.grain)),
                        outer: Box::new(outer.constraint),
                    },
                )
            }),
            outer.wf() ==> t.wf(),
    {
        proof {
            reveal_with_fuel(Constraint::wf, 3);
        }
        TimeValue {
            constraint: Constraint::LastOf {
                inner: Box::new(Constraint::Every(self.grain)),
                outer: Box::new(outer.constraint.copy()),
            },
            form: Form::Empty,
            direction: Direction::Neither,
            precision: outer.precision,
            latent: false,
        }
    }
}

impl DurationValue {
    /// What `in_present`, `ago` and `after` give: the interval of `base`
    /// moved by the period.
    pub open spec fn moved(base: Constraint, period: Period, precision: Precision) -> TimeValue {
        TimeValue {
            precision,
            ..TimeValue::plain(Constraint::Shift { base: Box::new(base), period })
        }
    }

    /// The time that lies this duration after the present second.
    pub fn in_present(&self) -> (r: Result<TimeValue, ProductionError>)
        ensures
            !self.period.bounded() ==> r == Err::<TimeValue, ProductionError>(
                ProductionError::Overflow,
            ),
            self.period.bounded() ==> r == Ok::<TimeValue, ProductionError>(
                Self::moved(
                    Constraint::Cycle { grain: Grain::Second, offset: 0 },
                    self.period,
                    self.precision,
                ),
            ),
            r matches Ok(v) ==> v.wf(),
    {
        if !self.period.is_bounded() {
            return Err(ProductionError::Overflow);
        }
        proof {
            reveal_with_fuel(Constraint::wf, 3);
        }
        Ok(
            TimeValue {
                constraint: Constraint::Shift {
                    base: Box::new(Constraint::Cycle { grain: Grain::Second, offset: 0 }),
                    period: self.period,
                },
                form: Form::Empty,
                direction: Direction::Neither,
                precision: self.precision,
                latent: false,
            },
        )
    }

    /// The time that lies this duration before the present second.
    pub fn ago(&self) -> (r: Result<TimeValue, ProductionError>)
        ensures
            !self.period.bounded() ==> r == Err::<TimeValue, ProductionError>(
                ProductionError::Overflow,
            ),
            self.period.bounded() ==> r == Ok::<TimeValue, ProductionError>(
                Self::moved(
                    Constraint::Cycle { grain: Grain::Second, offset: 0 },
                    self.period.opposite(),
                    self.precision,
                ),
            ),
            r matches Ok(v) ==> v.wf(),
    {
        if !self.period.is_bounded() {
            return Err(ProductionError::Overflow);
        }
        proof {
            reveal_with_fuel(Constraint::wf, 3);
        }
        Ok(
            TimeValue {
                constraint: Constraint::Shift {
                    base: Box::new(Constraint::Cycle { grain: Grain::Second, offset: 0 }),
                    period: self.period.negated(),
                },
                form: Form::Empty,
                direction: Direction::Neither,
                precision: self.precision,
                latent: false,
            },
        )
    }

    /// The time that lies this duration after `time`.
    pub fn after(&self, time: &TimeValue) -> (r: Result<TimeValue, ProductionError>)
        ensures
            !self.period.bounded() ==> r == Err::<TimeValue, ProductionError>(
                ProductionError::Overflow,
            ),
            self.period.bounded() ==> r == Ok::<TimeValue, ProductionError>(
                Self::moved(time.constraint, self.period, self.precision),
            ),
            time.wf() ==> (r matches Ok(v) ==> v.wf()),
    {
        if !self.period.is_bounded() {
            return Err(ProductionError::Overflow);
        }
        Ok(
            TimeValue {
                constraint: Constraint::Shift {
                    base: Box::new(time.constraint.copy()),
                    period: self.period,
                },
                form: Form::Empty,
                direction: Direction::Neither,
                precision: self.precision,
                latent: false,
            },
        )
    }
}

} // verus!
