//! An order on time expressions, by which the two operands of an
//! intersection are placed: the smaller first. Two expressions are neither
//! before nor after each other only where they are the same expression.

use vstd::prelude::*;
use crate::duration::Period;
use crate::grain::lemma_rank_injective;
use crate::time::Constraint;

verus! {

/// -1, 0 or 1 as `x` is below, equal to or above `y`.
pub open spec fn three(x: int, y: int) -> int {
    if x < y {
        -1
    } else if x > y {
        1
    } else {
        0
    }
}

/// The first of two comparisons that is not 0.
pub open spec fn then(a: int, b: int) -> int {
    if a != 0 {
        a
    } else {
        b
    }
}

/// 1 for true, 0 for false.
pub open spec fn flag(b: bool) -> int {
    if b {
        1
    } else {
        0
    }
}

/// The place of an expression's variant among the variants.
pub open spec fn tag(c: Constraint) -> int {
    match c {
        Constraint::Year(_) => 0,
        Constraint::Month(_) => 1,
        Constraint::DayOfMonth(_) => 2,
        Constraint::DayOfWeek(_) => 3,
        Constraint::Hour { hour, twelve } => 4,
        Constraint::Minute(_) => 5,
        Constraint::Second(_) => 6,
        Constraint::Every(_) => 7,
        Constraint::Cycle { grain, offset } => 8,
        Constraint::Intersect(_, _) => 9,
        Constraint::Span { from, to, inclusive } => 10,
        Constraint::Nth { base, n } => 11,
        Constraint::LastOf { inner, outer } => 12,
        Constraint::CycleAfter { grain, n, base, whole } => 13,
        Constraint::Shift { base, period } => 14,
    }
}

/// The order of two periods: by their counts, the finest grain first.
pub open spec fn period_order(p: Period, q: Period) -> int {
    then(
        three(p.seconds as int, q.seconds as int),
        then(
            three(p.minutes as int, q.minutes as int),
            then(
                three(p.hours as int, q.hours as int),
                then(
                    three(p.days as int, q.days as int),
                    then(
                        three(p.weeks as int, q.weeks as int),
                        then(
                            three(p.months as int, q.months as int),
                            then(
                                three(p.quarters as int, q.quarters as int),
                                three(p.years as int, q.years as int),
                            ),
                        ),
                    ),
                ),
            ),
        ),
    )
}

/// The order of two expressions: -1 where `a` comes first, 1 where `b`
/// does, 0 where they are the same. Expressions of different variants go by
/// their variants, those of one variant by their parts from left to right.
pub open spec fn order(a: Constraint, b: Constraint) -> int
    decreases a,
{
    if tag(a) != tag(b) {
        three(tag(a), tag(b))
    } else {
        match a {
            Constraint::Year(x) => match b {
                Constraint::Year(y) => three(x as int, y as int),
                _ => 0,
            },
            Constraint::Month(x) => match b {
                Constraint::Month(y) => three(x as int, y as int),
                _ => 0,
            },
            Constraint::DayOfMonth(x) => match b {
                Constraint::DayOfMonth(y) => three(x as int, y as int),
                _ => 0,
            },
            Constraint::DayOfWeek(x) => match b {
                Constraint::DayOfWeek(y) => three(x.number(), y.number()),
                _ => 0,
            },
            Constraint::Hour { hour, twelve } => match b {
                Constraint::Hour { hour: h, twelve: t } => then(
                    three(hour as int, h as int),
                    three(flag(twelve), flag(t)),
                ),
                _ => 0,
            },
            Constraint::Minute(x) => match b {
                Constraint::Minute(y) => three(x as int, y as int),
                _ => 0,
            },
            Constraint::Second(x) => match b {
                Constraint::Second(y) => three(x as int, y as int),
                _ => 0,
            },
            Constraint::Every(x) => match b {
                Constraint::Every(y) => three(x.rank(), y.rank()),
                _ => 0,
            },
            Constraint::Cycle { grain, offset } => match b {
                Constraint::Cycle { grain: g, offset: o } => then(
                    three(grain.rank(), g.rank()),
                    three(offset as int, o as int),
                ),
                _ => 0,
            },
            Constraint::Intersect(x, y) => match b {
                Constraint::Intersect(u, v) => then(order(*x, *u), order(*y, *v)),
                _ => 0,
            },
            Constraint::Span { from, to, inclusive } => match b {
                Constraint::Span { from: f, to: t, inclusive: i } => then(
                    order(*from, *f),
                    then(order(*to, *t), three(flag(inclusive), flag(i))),
                ),
                _ => 0,
            },
            Constraint::Nth { base, n } => match b {
                Constraint::Nth { base: c, n: m } => then(order(*base, *c), three(n as int, m as int)),
                _ => 0,
            },
            Constraint::LastOf { inner, outer } => match b {
                Constraint::LastOf { inner: i, outer: o } => then(
                    order(*inner, *i),
                    order(*outer, *o),
                ),
                _ => 0,
            },
            Constraint::CycleAfter { grain, n, base, whole } => match b {
                Constraint::CycleAfter { grain: g, n: m, base: c, whole: w } => then(
                    three(grain.rank(), g.rank()),
                    then(
                        three(n as int, m as int),
                        then(order(*base, *c), three(flag(whole), flag(w))),
                    ),
                ),
                _ => 0,
            },
            Constraint::Shift { base, period } => match b {
                Constraint::Shift { base: c, period: p } => then(
                    order(*base, *c),
                    period_order(period, p),
                ),
                _ => 0,
            },
        }
    }
}

/// The order is an order: turned round it is the opposite, and it is 0 of
/// the same expression and of nothing else.
pub proof fn lemma_order(a: Constraint, b: Constraint)
    ensures
        order(a, b) == -order(b, a),
        -1 <= order(a, b) <= 1,
        (order(a, b) == 0) == (a == b),
    decreases a,
{
    if tag(a) == tag(b) {
        match a {
            Constraint::Every(x) => match b {
                Constraint::Every(y) => {
                    if x.rank() == y.rank() {
                        lemma_rank_injective(x, y);
                    }
                },
                _ => {},
            },
            Constraint::Cycle { grain, offset } => match b {
                Constraint::Cycle { grain: g, offset: o } => {
                    if grain.rank() == g.rank() {
                        lemma_rank_injective(grain, g);
                    }
                },
                _ => {},
            },
            Constraint::Intersect(x, y) => match b {
                Constraint::Intersect(u, v) => {
                    lemma_order(*x, *u);
                    lemma_order(*y, *v);
                },
                _ => {},
            },
            Constraint::Span { from, to, inclusive } => match b {
                Constraint::Span { from: f, to: t, inclusive: i } => {
                    lemma_order(*from, *f);
                    lemma_order(*to, *t);
                },
                _ => {},
            },
            Constraint::Nth { base, n } => match b {
                Constraint::Nth { base: c, n: m } => {
                    lemma_order(*base, *c);
                },
                _ => {},
            },
            Constraint::LastOf { inner, outer } => match b {
                Constraint::LastOf { inner: i, outer: o } => {
                    lemma_order(*inner, *i);
                    lemma_order(*outer, *o);
                },
                _ => {},
            },
            Constraint::CycleAfter { grain, n, base, whole } => match b {
                Constraint::CycleAfter { grain: g, n: m, base: c, whole: w } => {
                    lemma_order(*base, *c);
                    if grain.rank() == g.rank() {
                        lemma_rank_injective(grain, g);
                    }
                },
                _ => {},
            },
            Constraint::Shift { base, period } => match b {
                Constraint::Shift { base: c, period: p } => {
                    lemma_order(*base, *c);
                },
                _ => {},
            },
            _ => {},
        }
    }
}

/// The intersection of two expressions, the smaller operand first.
pub open spec fn joined(a: Constraint, b: Constraint) -> Constraint {
    if order(a, b) <= 0 {
        Constraint::Intersect(Box::new(a), Box::new(b))
    } else {
        Constraint::Intersect(Box::new(b), Box::new(a))
    }
}

/// The operands of an intersection can change places.
pub proof fn lemma_joined_commutes(a: Constraint, b: Constraint)
    ensures
        joined(a, b) == joined(b, a),
{
    lemma_order(a, b);
}

fn compare_numbers(x: i64, y: i64) -> (r: i8)
    ensures
        r == three(x as int, y as int),
{
    if x < y {
        -1
    } else if x > y {
        1
    } else {
        0
    }
}

fn compare_flags(x: bool, y: bool) -> (r: i8)
    ensures
        r == three(flag(x), flag(y)),
{
    if x == y {
        0
    } else if y {
        -1
    } else {
        1
    }
}

fn first_of(a: i8, b: i8) -> (r: i8)
    ensures
        r == then(a as int, b as int),
{
    if a != 0 {
        a
    } else {
        b
    }
}

fn variant(c: &Constraint) -> (r: i64)
    ensures
        r == tag(*c),
{
    match c {
        Constraint::Year(_) => 0,
        Constraint::Month(_) => 1,
        Constraint::DayOfMonth(_) => 2,
        Constraint::DayOfWeek(_) => 3,
        Constraint::Hour { .. } => 4,
        Constraint::Minute(_) => 5,
        Constraint::Second(_) => 6,
        Constraint::Every(_) => 7,
        Constraint::Cycle { .. } => 8,
        Constraint::Intersect(_, _) => 9,
        Constraint::Span { .. } => 10,
        Constraint::Nth { .. } => 11,
        Constraint::LastOf { .. } => 12,
        Constraint::CycleAfter { .. } => 13,
        Constraint::Shift { .. } => 14,
    }
}

fn compare_periods(p: &Period, q: &Period) -> (r: i8)
    ensures
        r == period_order(*p, *q),
{
    first_of(
        compare_numbers(p.seconds, q.seconds),
        first_of(
            compare_numbers(p.minutes, q.minutes),
            first_of(
                compare_numbers(p.hours, q.hours),
                first_of(
                    compare_numbers(p.days, q.days),
                    first_of(
                        compare_numbers(p.weeks, q.weeks),
                        first_of(
                            compare_numbers(p.months, q.months),
                            first_of(
                                compare_numbers(p.quarters, q.quarters),
                                compare_numbers(p.years, q.years),
                            ),
                        ),
                    ),
                ),
            ),
        ),
    )
}

/// The order of two expressions.
pub fn compare(a: &Constraint, b: &Constraint) -> (r: i8)
    ensures
        r == order(*a, *b),
    decreases a,
{
    let ta: i64 = variant(a);
    let tb: i64 = variant(b);
    if ta != tb {
        return compare_numbers(ta, tb);
    }
    match a {
        Constraint::Year(x) => match b {
            Constraint::Year(y) => compare_numbers(*x, *y),
            _ => 0,
        },
        Constraint::Month(x) => match b {
            Constraint::Month(y) => compare_numbers(*x, *y),
            _ => 0,
        },
        Constraint::DayOfMonth(x) => match b {
            Constraint::DayOfMonth(y) => compare_numbers(*x, *y),
            _ => 0,
        },
        Constraint::DayOfWeek(x) => match b {
            Constraint::DayOfWeek(y) => compare_numbers(x.index(), y.index()),
            _ => 0,
        },
        Constraint::Hour { hour, twelve } => match b {
            Constraint::Hour { hour: h, twelve: t } => first_of(
                compare_numbers(*hour, *h),
                compare_flags(*twelve, *t),
            ),
            _ => 0,
        },
        Constraint::Minute(x) => match b {
            Constraint::Minute(y) => compare_numbers(*x, *y),
            _ => 0,
        },
        Constraint::Second(x) => match b {
            Constraint::Second(y) => compare_numbers(*x, *y),
            _ => 0,
        },
        Constraint::Every(x) => match b {
            Constraint::Every(y) => compare_numbers(x.index() as i64, y.index() as i64),
            _ => 0,
        },
        Constraint::Cycle { grain, offset } => match b {
            Constraint::Cycle { grain: g, offset: o } => first_of(
                compare_numbers(grain.index() as i64, g.index() as i64),
                compare_numbers(*offset, *o),
            ),
            _ => 0,
        },
        Constraint::Intersect(x, y) => match b {
            Constraint::Intersect(u, v) => {
                let left = compare(&**x, &**u);
                if left != 0 {
                    left
                } else {
                    compare(&**y, &**v)
                }
            },
            _ => 0,
        },
        Constraint::Span { from, to, inclusive } => match b {
            Constraint::Span { from: f, to: t, inclusive: i } => {
                let left = compare(&**from, &**f);
                if left != 0 {
                    left
                } else {
                    first_of(compare(&**to, &**t), compare_flags(*inclusive, *i))
                }
            },
            _ => 0,
        },
        Constraint::Nth { base, n } => match b {
            Constraint::Nth { base: c, n: m } => first_of(
                compare(&**base, &**c),
                compare_numbers(*n, *m),
            ),
            _ => 0,
        },
        Constraint::LastOf { inner, outer } => match b {
            Constraint::LastOf { inner: i, outer: o } => {
                let left = compare(&**inner, &**i);
                if left != 0 {
                    left
                } else {
                    compare(&**outer, &**o)
                }
            },
            _ => 0,
        },
        Constraint::CycleAfter { grain, n, base, whole } => match b {
            Constraint::CycleAfter { grain: g, n: m, base: c, whole: w } => first_of(
                compare_numbers(grain.index() as i64, g.index() as i64),
                first_of(
                    compare_numbers(*n, *m),
                    first_of(compare(&**base, &**c), compare_flags(*whole, *w)),
                ),
            ),
            _ => 0,
        },
        Constraint::Shift { base, period } => match b {
            Constraint::Shift { base: c, period: p } => first_of(
                compare(&**base, &**c),
                compare_periods(period, p),
            ),
            _ => 0,
        },
    }
}

} // verus!
