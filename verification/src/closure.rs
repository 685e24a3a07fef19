//! The chart is complete: whatever a rule makes of a chain of children
//! among the matches and the nodes of the chart is in the chart, unless the
//! chart is full.

use vstd::prelude::*;
use crate::chart::after_candidate;
use crate::chart::candidate;
use crate::chart::candidates;
use crate::chart::chain_ok;
use crate::chart::chart_of;
use crate::chart::continues;
use crate::chart::extends;
use crate::chart::finish;
use crate::chart::grow;
use crate::chart::lemma_chain_stable;
use crate::chart::link_ok;
use crate::chart::part_end;
use crate::chart::part_start;
use crate::chart::parts_args;
use crate::chart::present;
use crate::chart::saturate;
use crate::chart::sweep;
use crate::chart::Ground;
use crate::chart::Node;
use crate::chart::Part;
use crate::chart::Parts;
use crate::chart::CAPACITY;
use crate::dimension::Dimension;
use crate::error::ProductionError;
use crate::produce::produced;

verus! {

/// The number of a child: of its match, or of its node.
pub open spec fn number_of(part: Part) -> int {
    match part {
        Part::Text { hit } => hit as int,
        Part::Node { index } => index as int,
    }
}

/// Whether rule `r` makes the value `v` of the full chain of children
/// `full` among the matches and the first `limit` nodes.
pub open spec fn yields(
    full: Seq<Part>,
    g: Ground,
    r: int,
    chart: Seq<Node>,
    limit: int,
    v: Dimension,
) -> bool {
    &&& 0 <= r < g.rules.len()
    &&& full.len() == g.rules[r].arity()
    &&& full.len() > 0
    &&& chain_ok(full, g, r, chart, limit)
    &&& produced(g.rules[r].production, parts_args(full, g, r, chart)) == Ok::<
        Dimension,
        ProductionError,
    >(v)
}

/// Where the chain begins.
pub open spec fn chain_start(full: Seq<Part>, g: Ground, r: int, chart: Seq<Node>) -> int {
    part_start(full[0], g.found(r, 0), chart)
}

/// Where the chain ends.
pub open spec fn chain_end(full: Seq<Part>, g: Ground, r: int, chart: Seq<Node>) -> int {
    part_end(full.last(), g.found(r, full.len() - 1), chart)
}

/// Whether the chart holds the value over the stretch, or is full.
pub open spec fn holds(chart: Seq<Node>, start: int, end: int, v: Dimension) -> bool {
    present(chart, start, end, v) || chart.len() >= CAPACITY
}

/// Whether the chart holds whatever the rules make of the chains among its
/// own nodes.
pub open spec fn closed(chart: Seq<Node>, g: Ground) -> bool {
    forall|full: Seq<Part>, r: int, v: Dimension| #[trigger]
        yields(full, g, r, chart, chart.len() as int, v) ==> present(
            chart,
            chain_start(full, g, r, chart),
            chain_end(full, g, r, chart),
            v,
        )
}

/// What the chart holds, a longer chart holds.
pub proof fn lemma_holds_extends(
    longer: Seq<Node>,
    shorter: Seq<Node>,
    start: int,
    end: int,
    v: Dimension,
)
    requires
        extends(longer, shorter),
        holds(shorter, start, end, v),
    ensures
        holds(longer, start, end, v),
{
    if present(shorter, start, end, v) {
        let i = choose|i: int|
            0 <= i < shorter.len() && (#[trigger] shorter[i]).start == start && shorter[i].end
                == end && shorter[i].value == v;
        assert(longer[i] == shorter[i]);
    }
}

/// Growing a chart adds to its end.
pub proof fn lemma_grow_extends(
    g: Ground,
    r: int,
    parts: Parts,
    start: int,
    end: int,
    chart: Seq<Node>,
    limit: int,
    k: int,
)
    ensures
        extends(grow(g, r, parts, start, end, chart, limit, k), chart),
    decreases g.rules[r].arity() - parts.list().len(), candidates(
        g,
        r,
        parts.list().len() as int,
        limit,
    ) - k,
{
    let pos = parts.list().len() as int;
    if pos >= g.rules[r].arity() {
    } else if k < 0 || k >= candidates(g, r, pos, limit) {
    } else {
        let part = candidate(g, r, pos, k);
        let after = after_candidate(g, r, parts, start, end, chart, limit, k);
        if continues(g, r, pos, k, end, chart) {
            lemma_with(parts, part, g, r);
            lemma_grow_extends(
                g,
                r,
                parts.with(part),
                if pos == 0 {
                    part_start(part, g.found(r, pos), chart)
                } else {
                    start
                },
                part_end(part, g.found(r, pos), chart),
                chart,
                limit,
                0,
            );
        }
        lemma_grow_extends(g, r, parts, start, end, after, limit, k + 1);
        lemma_extends_trans(grow(g, r, parts, start, end, after, limit, k + 1), after, chart);
    }
}

/// A chain with room for another child holds fewer than four, and with one
/// more child it is the list with the child at its end.
pub proof fn lemma_with(parts: Parts, part: Part, g: Ground, r: int)
    requires
        parts.list().len() < g.rules[r].arity(),
    ensures
        parts.with(part).list() == parts.list().push(part),
        parts.with(part).list().len() == parts.list().len() + 1,
{
    assert(parts.with(part).list() =~= parts.list().push(part));
}

/// A chart that begins with a second, which begins with a third, begins
/// with the third.
pub proof fn lemma_extends_trans(a: Seq<Node>, b: Seq<Node>, c: Seq<Node>)
    requires
        extends(a, b),
        extends(b, c),
    ensures
        extends(a, c),
{
    assert forall|i: int| 0 <= i < c.len() implies #[trigger] a[i] == c[i] by {
        assert(b[i] == c[i]);
    }
}

/// What rule `r` makes of a full chain stays the same on a longer chart.
pub proof fn lemma_yields_stable(
    full: Seq<Part>,
    g: Ground,
    r: int,
    c1: Seq<Node>,
    c2: Seq<Node>,
    limit: int,
    v: Dimension,
)
    requires
        extends(c2, c1),
        limit <= c1.len(),
        yields(full, g, r, c1, limit, v),
    ensures
        yields(full, g, r, c2, limit, v),
        chain_start(full, g, r, c2) == chain_start(full, g, r, c1),
        chain_end(full, g, r, c2) == chain_end(full, g, r, c1),
{
    lemma_chain_stable(full, g, r, c1, c2, limit);
}

/// The end of the children so far does not change on a longer chart.
proof fn lemma_prefix_end(
    full: Seq<Part>,
    pos: int,
    g: Ground,
    r: int,
    c1: Seq<Node>,
    c2: Seq<Node>,
    limit: int,
)
    requires
        extends(c2, c1),
        limit <= c1.len(),
        chain_ok(full, g, r, c1, limit),
        0 < pos <= full.len(),
    ensures
        part_end(full[pos - 1], g.found(r, pos - 1), c2) == part_end(
            full[pos - 1],
            g.found(r, pos - 1),
            c1,
        ),
{
    assert(pos - 1 < 4);
    assert(link_ok(full, pos - 1, g, r, c1, limit));
}

/// Applying the rule to a full chain puts what it makes into the chart,
/// unless the chart is full.
proof fn lemma_finish_covers(
    g: Ground,
    r: int,
    parts: Parts,
    chart: Seq<Node>,
    limit: int,
    v: Dimension,
)
    requires
        yields(parts.list(), g, r, chart, limit, v),
    ensures
        holds(
            finish(
                g,
                r,
                parts,
                chain_start(parts.list(), g, r, chart),
                chain_end(parts.list(), g, r, chart),
                chart,
            ),
            chain_start(parts.list(), g, r, chart),
            chain_end(parts.list(), g, r, chart),
            v,
        ),
{
    let a = chain_start(parts.list(), g, r, chart);
    let b = chain_end(parts.list(), g, r, chart);
    let done = finish(g, r, parts, a, b, chart);
    if chart.len() < CAPACITY && !present(chart, a, b, v) {
        let full = parts.list();
        assert(link_ok(full, 0, g, r, chart, limit));
        assert(link_ok(full, full.len() - 1, g, r, chart, limit));
        let node = Node { rule: r as usize, start: a as usize, end: b as usize, value: v, parts };
        assert(done == chart.push(node));
        assert(done[chart.len() as int] == node);
        assert(node.start == a && node.end == b && node.value == v);
    }
}

/// The child of a full chain at a position is one of the candidates for
/// the position, and continues the chain.
proof fn lemma_child_is_candidate(
    full: Seq<Part>,
    pos: int,
    g: Ground,
    r: int,
    chart: Seq<Node>,
    limit: int,
)
    requires
        chain_ok(full, g, r, chart, limit),
        limit <= chart.len(),
        0 <= pos < full.len(),
        full.len() == g.rules[r].arity(),
    ensures
        0 <= number_of(full[pos]) < candidates(g, r, pos, limit),
        candidate(g, r, pos, number_of(full[pos])) == full[pos],
        continues(
            g,
            r,
            pos,
            number_of(full[pos]),
            if pos > 0 {
                part_end(full[pos - 1], g.found(r, pos - 1), chart)
            } else {
                0
            },
            chart,
        ),
        pos == 0 ==> forall|end: int| continues(g, r, pos, number_of(full[pos]), end, chart),
{
    assert(pos < 4);
    assert(link_ok(full, pos, g, r, chart, limit));
}

/// Growing a chart from the children `parts` with the candidates from `k`
/// on covers every full chain that begins with `parts` and goes on with a
/// candidate from `k` on: what the rule makes of it is in the grown chart,
/// or that chart is full.
pub proof fn lemma_grow_covers(
    g: Ground,
    r: int,
    parts: Parts,
    start: int,
    end: int,
    chart: Seq<Node>,
    limit: int,
    k: int,
    full: Seq<Part>,
    v: Dimension,
)
    requires
        limit <= chart.len(),
        k >= 0,
        yields(full, g, r, chart, limit, v),
        parts.list().len() <= full.len(),
        full.take(parts.list().len() as int) == parts.list(),
        parts.list().len() > 0 ==> start == chain_start(full, g, r, chart) && end == part_end(
            full[parts.list().len() - 1],
            g.found(r, parts.list().len() - 1),
            chart,
        ),
        parts.list().len() < full.len() ==> number_of(full[parts.list().len() as int]) >= k,
    ensures
        holds(
            grow(g, r, parts, start, end, chart, limit, k),
            chain_start(full, g, r, chart),
            chain_end(full, g, r, chart),
            v,
        ),
    decreases g.rules[r].arity() - parts.list().len(), candidates(
        g,
        r,
        parts.list().len() as int,
        limit,
    ) - k,
{
    let pos = parts.list().len() as int;
    let a = chain_start(full, g, r, chart);
    let b = chain_end(full, g, r, chart);
    if pos >= g.rules[r].arity() {
        assert(full.take(pos) =~= full);
        lemma_finish_covers(g, r, parts, chart, limit, v);
    } else {
        let part = full[pos];
        let j = number_of(part);
        lemma_child_is_candidate(full, pos, g, r, chart, limit);
        let after = after_candidate(g, r, parts, start, end, chart, limit, k);
        lemma_after_extends(g, r, parts, start, end, chart, limit, k);
        let res = grow(g, r, parts, start, end, after, limit, k + 1);
        assert(grow(g, r, parts, start, end, chart, limit, k) == res) by {
            crate::chart::lemma_grow_step(g, r, parts, start, end, chart, limit, k);
        }
        lemma_grow_extends(g, r, parts, start, end, after, limit, k + 1);
        if j == k {
            lemma_with(parts, part, g, r);
            assert(full.take(pos + 1) =~= parts.list().push(part));
            let s = if pos == 0 {
                part_start(part, g.found(r, pos), chart)
            } else {
                start
            };
            let e = part_end(part, g.found(r, pos), chart);
            lemma_grow_covers(g, r, parts.with(part), s, e, chart, limit, 0, full, v);
            assert(after == grow(g, r, parts.with(part), s, e, chart, limit, 0));
            lemma_holds_extends(res, after, a, b, v);
        } else {
            lemma_yields_stable(full, g, r, chart, after, limit, v);
            if pos > 0 {
                lemma_prefix_end(full, pos, g, r, chart, after, limit);
            }
            lemma_grow_covers(g, r, parts, start, end, after, limit, k + 1, full, v);
        }
    }
}

/// Trying a candidate adds to the end of the chart.
proof fn lemma_after_extends(
    g: Ground,
    r: int,
    parts: Parts,
    start: int,
    end: int,
    chart: Seq<Node>,
    limit: int,
    k: int,
)
    requires
        parts.list().len() < g.rules[r].arity(),
    ensures
        extends(after_candidate(g, r, parts, start, end, chart, limit, k), chart),
{
    let pos = parts.list().len() as int;
    let part = candidate(g, r, pos, k);
    if continues(g, r, pos, k, end, chart) {
        lemma_grow_extends(
            g,
            r,
            parts.with(part),
            if pos == 0 {
                part_start(part, g.found(r, pos), chart)
            } else {
                start
            },
            part_end(part, g.found(r, pos), chart),
            chart,
            limit,
            0,
        );
    }
}

/// A sweep adds to the end of the chart.
pub proof fn lemma_sweep_extends(g: Ground, chart: Seq<Node>, limit: int, r: int)
    ensures
        extends(sweep(g, chart, limit, r), chart),
    decreases g.rules.len() - r,
{
    if r < 0 || r >= g.rules.len() {
    } else {
        let next = grow(g, r, Parts::none(), 0, 0, chart, limit, 0);
        lemma_grow_extends(g, r, Parts::none(), 0, 0, chart, limit, 0);
        lemma_sweep_extends(g, next, limit, r + 1);
        lemma_extends_trans(sweep(g, next, limit, r + 1), next, chart);
    }
}

/// A sweep from rule `r` on covers every full chain of a rule from `r` on.
pub proof fn lemma_sweep_covers(
    g: Ground,
    chart: Seq<Node>,
    limit: int,
    r: int,
    full: Seq<Part>,
    q: int,
    v: Dimension,
)
    requires
        limit <= chart.len(),
        0 <= r <= q,
        yields(full, g, q, chart, limit, v),
    ensures
        holds(
            sweep(g, chart, limit, r),
            chain_start(full, g, q, chart),
            chain_end(full, g, q, chart),
            v,
        ),
    decreases g.rules.len() - r,
{
    let next = grow(g, r, Parts::none(), 0, 0, chart, limit, 0);
    lemma_grow_extends(g, r, Parts::none(), 0, 0, chart, limit, 0);
    if r == q {
        assert(full.take(0) =~= Parts::none().list());
        lemma_grow_covers(g, r, Parts::none(), 0, 0, chart, limit, 0, full, v);
        lemma_sweep_extends(g, next, limit, r + 1);
        lemma_holds_extends(
            sweep(g, next, limit, r + 1),
            next,
            chain_start(full, g, q, chart),
            chain_end(full, g, q, chart),
            v,
        );
    } else {
        lemma_yields_stable(full, g, q, chart, next, limit, v);
        lemma_sweep_covers(g, next, limit, r + 1, full, q, v);
    }
}

/// A chart that a round leaves as it is, and that is not full, is closed.
pub proof fn lemma_fixpoint_closed(g: Ground, chart: Seq<Node>)
    requires
        sweep(g, chart, chart.len() as int, 0).len() == chart.len(),
        chart.len() < CAPACITY,
    ensures
        closed(chart, g),
{
    let next = sweep(g, chart, chart.len() as int, 0);
    lemma_sweep_extends(g, chart, chart.len() as int, 0);
    assert(next =~= chart);
    assert forall|full: Seq<Part>, r: int, v: Dimension| #[trigger]
        yields(full, g, r, chart, chart.len() as int, v) implies present(
        chart,
        chain_start(full, g, r, chart),
        chain_end(full, g, r, chart),
        v,
    ) by {
        lemma_sweep_covers(g, chart, chart.len() as int, 0, full, r, v);
    }
}

/// Rounds made until one adds nothing end with a closed chart or a full
/// one.
pub proof fn lemma_saturate_closed(g: Ground, chart: Seq<Node>, fuel: nat)
    requires
        chart.len() + fuel >= CAPACITY,
    ensures
        closed(saturate(g, chart, fuel), g) || saturate(g, chart, fuel).len() >= CAPACITY,
    decreases fuel,
{
    if fuel > 0 {
        let next = sweep(g, chart, chart.len() as int, 0);
        lemma_sweep_extends(g, chart, chart.len() as int, 0);
        if next.len() == chart.len() {
            assert(next =~= chart);
            if chart.len() < CAPACITY {
                lemma_fixpoint_closed(g, chart);
            }
        } else {
            lemma_saturate_closed(g, next, (fuel - 1) as nat);
        }
    }
}

/// The chart of a text is closed, unless it is full.
pub proof fn lemma_chart_closed(g: Ground)
    ensures
        chart_of(g).len() < CAPACITY ==> closed(chart_of(g), g),
{
    lemma_saturate_closed(g, Seq::empty(), CAPACITY as nat);
}

} // verus!
