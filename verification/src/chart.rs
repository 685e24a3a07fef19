//! The chart: every derivation of every stretch of the text.
//!
//! A node of the chart is a value that a rule made of adjacent children.
//! Each child is a match of a regular expression or an earlier node. The
//! chart is grown in rounds: a round applies every rule to every chain of
//! children among the matches and the nodes that were there when the round
//! began, and the chart is complete when a round adds nothing.

use vstd::prelude::*;
use crate::apply::produce;
use crate::args::args_wf;
use crate::args::views;
use crate::args::Arg;
use crate::args::ArgView;
use crate::dimension::Dimension;
use crate::pattern::captures;
use crate::pattern::hit_views;
use crate::pattern::hits_wf;
use crate::pattern::matches_of;
use crate::pattern::read_hits;
use crate::pattern::regex_accepts;
use crate::pattern::regex_captures;
use crate::pattern::Hit;
use crate::pattern::HitView;
use crate::produce::produced;
use crate::rule::Matcher;
use crate::rule::Rule;
use crate::ruleset::rules_wf;
use crate::text::byte_offset;
use crate::text::copy_chars;
use crate::text::is_space;
use crate::text::is_space_char;

verus! {

/// Largest number of nodes that a chart holds.
pub const CAPACITY: usize = 4096;

/// A child of a node: the match with the given number among the matches of
/// the rule's matcher at the child's position, or the node with the given
/// number in the chart.
#[derive(Clone, Copy, Debug, PartialEq, Eq)]
pub enum Part {
    Text { hit: usize },
    Node { index: usize },
}

/// The children of a node: the first `count` of the four, in order.
#[derive(Clone, Copy, Debug, PartialEq, Eq)]
pub struct Parts {
    pub count: usize,
    pub first: Part,
    pub second: Part,
    pub third: Part,
    pub fourth: Part,
}

impl Parts {
    /// The children in order.
    pub open spec fn list(self) -> Seq<Part> {
        if self.count == 0 {
            Seq::empty()
        } else if self.count == 1 {
            seq![self.first]
        } else if self.count == 2 {
            seq![self.first, self.second]
        } else if self.count == 3 {
            seq![self.first, self.second, self.third]
        } else {
            seq![self.first, self.second, self.third, self.fourth]
        }
    }

    /// No children.
    pub open spec fn none() -> Parts {
        Parts {
            count: 0,
            first: Part::Text { hit: 0 },
            second: Part::Text { hit: 0 },
            third: Part::Text { hit: 0 },
            fourth: Part::Text { hit: 0 },
        }
    }

    /// The children with one more at the end; unchanged where there are four.
    pub open spec fn with(self, part: Part) -> Parts {
        if self.count == 0 {
            Parts { count: 1, first: part, ..self }
        } else if self.count == 1 {
            Parts { count: 2, second: part, ..self }
        } else if self.count == 2 {
            Parts { count: 3, third: part, ..self }
        } else if self.count == 3 {
            Parts { count: 4, fourth: part, ..self }
        } else {
            self
        }
    }

    /// No children.
    pub fn empty() -> (p: Parts)
        ensures
            p == Self::none(),
            p.list().len() == 0,
    {
        Parts {
            count: 0,
            first: Part::Text { hit: 0 },
            second: Part::Text { hit: 0 },
            third: Part::Text { hit: 0 },
            fourth: Part::Text { hit: 0 },
        }
    }

    /// The children with one more at the end; unchanged where there are four.
    pub fn push(self, part: Part) -> (p: Parts)
        ensures
            p == self.with(part),
            self.count < 4 ==> p.list() == self.list().push(part),
    {
        let p = if self.count == 0 {
            Parts { count: 1, first: part, ..self }
        } else if self.count == 1 {
            Parts { count: 2, second: part, ..self }
        } else if self.count == 2 {
            Parts { count: 3, third: part, ..self }
        } else if self.count == 3 {
            Parts { count: 4, fourth: part, ..self }
        } else {
            self
        };
        proof {
            if self.count < 4 {
                assert(p.list() =~= self.list().push(part));
            }
        }
        p
    }

    /// Number of children.
    pub fn len(&self) -> (n: usize)
        ensures
            n == self.list().len(),
            n <= 4,
    {
        if self.count > 4 {
            4
        } else {
            self.count
        }
    }

    /// The child at position `i`.
    pub fn get(&self, i: usize) -> (p: Part)
        requires
            i < self.list().len(),
        ensures
            p == self.list()[i as int],
    {
        if i == 0 {
            self.first
        } else if i == 1 {
            self.second
        } else if i == 2 {
            self.third
        } else {
            self.fourth
        }
    }
}

/// A derivation: the rule, the characters from `start` up to `end` that it
/// covers, the value that the rule made, and the children.
#[derive(Debug)]
pub struct Node {
    pub rule: usize,
    pub start: usize,
    pub end: usize,
    pub value: Dimension,
    pub parts: Parts,
}

/// The matches of a matcher in the text: those of its regular expression,
/// and none for a typed matcher.
pub open spec fn found_by(m: Matcher, text: Seq<char>, words: bool) -> Seq<HitView> {
    match m {
        Matcher::Text(p) => if regex_accepts(p@) {
            matches_of(
                regex_captures(p@, text),
                text,
                words,
                regex_captures(p@, text).len(),
            )
        } else {
            Seq::empty()
        },
        _ => Seq::empty(),
    }
}

/// The matches of the matcher at position `pos` of rule `r`.
pub open spec fn slot(hits: Seq<Vec<Vec<Hit>>>, r: int, pos: int) -> Seq<HitView> {
    if 0 <= r < hits.len() && 0 <= pos < hits[r]@.len() {
        hit_views(hits[r]@[pos]@)
    } else {
        Seq::empty()
    }
}

fn find(m: &Matcher, text: &str, table: &Vec<usize>, chars: &Vec<char>, words: bool) -> (v: Vec<
    Hit,
>)
    requires
        chars@ == text@,
        table@.len() == chars@.len() + 1,
        forall|i: int| 0 <= i <= chars@.len() ==> table@[i] == byte_offset(chars@, i),
    ensures
        hit_views(v@) == found_by(*m, text@, words),
        hits_wf(hit_views(v@), chars@.len() as int),
{
    match m {
        Matcher::Text(p) => match captures(p, text) {
            Some(found) => read_hits(&found, table, chars, words),
            None => {
                let v: Vec<Hit> = Vec::new();
                assert(hit_views(v@) =~= Seq::empty());
                v
            },
        },
        _ => {
            let v: Vec<Hit> = Vec::new();
            assert(hit_views(v@) =~= Seq::empty());
            v
        },
    }
}

/// Finds the matches of every regular expression of the rules in the text.
pub fn scan(rules: &Vec<Rule>, text: &str, table: &Vec<usize>, chars: &Vec<char>, words: bool) -> (hits:
    Vec<Vec<Vec<Hit>>>)
    requires
        chars@ == text@,
        table@.len() == chars@.len() + 1,
        forall|i: int| 0 <= i <= chars@.len() ==> table@[i] == byte_offset(chars@, i),
    ensures
        hits_match(hits@, Ground { rules: rules@, chars: chars@, words }),
{
    let ghost g = Ground { rules: rules@, chars: chars@, words };
    let mut hits: Vec<Vec<Vec<Hit>>> = Vec::new();
    let mut r: usize = 0;
    while r < rules.len()
        invariant
            r <= rules@.len(),
            g == (Ground { rules: rules@, chars: chars@, words }),
            chars@ == text@,
            table@.len() == chars@.len() + 1,
            forall|i: int| 0 <= i <= chars@.len() ==> table@[i] == byte_offset(chars@, i),
            hits@.len() == r,
            forall|q: int| 0 <= q < r ==> (#[trigger] hits@[q])@.len() == 4,
            forall|q: int, pos: int|
                0 <= q < r && 0 <= pos < 4 ==> #[trigger] slot(hits@, q, pos) == g.found(q, pos),
            forall|q: int, pos: int|
                0 <= q < r && 0 <= pos < 4 ==> hits_wf(
                    #[trigger] g.found(q, pos),
                    chars@.len() as int,
                ),
        decreases rules@.len() - r,
    {
        let rule = rules[r];
        let mut four: Vec<Vec<Hit>> = Vec::new();
        four.push(find(&rule.first, text, table, chars, words));
        four.push(find(&rule.second, text, table, chars, words));
        four.push(find(&rule.third, text, table, chars, words));
        four.push(find(&rule.fourth, text, table, chars, words));
        let ghost before = hits@;
        hits.push(four);
        proof {
            let now = hits@;
            assert forall|q: int, pos: int| 0 <= q < r + 1 && 0 <= pos < 4 implies #[trigger] slot(
                now,
                q,
                pos,
            ) == g.found(q, pos) by {
                if q < r {
                    assert(now[q] == before[q]);
                    assert(slot(now, q, pos) == slot(before, q, pos));
                }
            }
            assert forall|q: int, pos: int| 0 <= q < r + 1 && 0 <= pos < 4 implies hits_wf(
                #[trigger] g.found(q, pos),
                chars@.len() as int,
            ) by {
                if q == r {
                    assert(slot(now, q, pos) == g.found(q, pos));
                }
            }
        }
        r = r + 1;
    }
    hits
}

/// Whether only white space lies between positions `a` and `b`.
pub open spec fn gap_ok(chars: Seq<char>, a: int, b: int) -> bool {
    a <= b && forall|i: int| a <= i < b && 0 <= i < chars.len() ==> is_space(#[trigger] chars[i])
}

/// Whether only white space lies between positions `a` and `b`.
pub fn adjacent(chars: &Vec<char>, a: usize, b: usize) -> (r: bool)
    requires
        b <= chars@.len(),
    ensures
        r == gap_ok(chars@, a as int, b as int),
{
    if a > b {
        return false;
    }
    let mut i: usize = a;
    while i < b
        invariant
            a <= i <= b <= chars@.len(),
            forall|k: int| a <= k < i ==> is_space(#[trigger] chars@[k]),
        decreases b - i,
    {
        if !is_space_char(chars[i]) {
            return false;
        }
        i = i + 1;
    }
    true
}

/// What a chart is built on: the rules, the characters of the text, and
/// whether matches must stand between words.
pub struct Ground {
    pub rules: Seq<Rule>,
    pub chars: Seq<char>,
    pub words: bool,
}

impl Ground {
    /// The matches of the matcher at position `pos` of rule `r`.
    pub open spec fn found(self, r: int, pos: int) -> Seq<HitView> {
        found_by(self.rules[r].matcher(pos), self.chars, self.words)
    }
}

/// The lists of matches are those of the rules' matchers in the text, four
/// lists for each rule, and every match lies within the text.
pub open spec fn hits_match(hits: Seq<Vec<Vec<Hit>>>, g: Ground) -> bool {
    &&& hits.len() == g.rules.len()
    &&& forall|r: int| 0 <= r < hits.len() ==> (#[trigger] hits[r])@.len() == 4
    &&& forall|r: int, pos: int|
        0 <= r < hits.len() && 0 <= pos < 4 ==> #[trigger] slot(hits, r, pos) == g.found(r, pos)
    &&& forall|r: int, pos: int|
        0 <= r < hits.len() && 0 <= pos < 4 ==> hits_wf(
            #[trigger] g.found(r, pos),
            g.chars.len() as int,
        )
}

/// Whether the child can stand at a position whose matcher is `m` and whose
/// matches are `found`: a match of the matcher's regular expression, or one
/// of the first `limit` nodes whose value the matcher takes.
pub open spec fn part_fits(
    part: Part,
    m: Matcher,
    found: Seq<HitView>,
    chart: Seq<Node>,
    limit: int,
) -> bool {
    match part {
        Part::Text { hit } => m is Text && hit < found.len(),
        Part::Node { index } => !(m is Text) && index < limit && index < chart.len() && m.accepts(
            chart[index as int].value,
        ),
    }
}

/// Where the child begins.
pub open spec fn part_start(part: Part, found: Seq<HitView>, chart: Seq<Node>) -> int {
    match part {
        Part::Text { hit } => found[hit as int].start as int,
        Part::Node { index } => chart[index as int].start as int,
    }
}

/// Where the child ends.
pub open spec fn part_end(part: Part, found: Seq<HitView>, chart: Seq<Node>) -> int {
    match part {
        Part::Text { hit } => found[hit as int].end as int,
        Part::Node { index } => chart[index as int].end as int,
    }
}

/// What the production receives for the child.
pub open spec fn part_arg(part: Part, found: Seq<HitView>, chart: Seq<Node>) -> ArgView {
    match part {
        Part::Text { hit } => ArgView::Text(found[hit as int].groups),
        Part::Node { index } => ArgView::Value(chart[index as int].value),
    }
}

/// What the production of rule `r` receives for the children.
pub open spec fn parts_args(parts: Seq<Part>, g: Ground, r: int, chart: Seq<Node>) -> Seq<ArgView> {
    Seq::new(parts.len(), |i: int| part_arg(parts[i], g.found(r, i), chart))
}

/// Whether the child at position `i` fits its matcher, lies within the
/// text and, where it is not the first, stands next to the child before it.
pub open spec fn link_ok(
    parts: Seq<Part>,
    i: int,
    g: Ground,
    r: int,
    chart: Seq<Node>,
    limit: int,
) -> bool {
    i < parts.len() ==> {
        &&& part_fits(parts[i], g.rules[r].matcher(i), g.found(r, i), chart, limit)
        &&& part_start(parts[i], g.found(r, i), chart) <= part_end(
            parts[i],
            g.found(r, i),
            chart,
        ) <= g.chars.len()
        &&& i > 0 ==> gap_ok(
            g.chars,
            part_end(parts[i - 1], g.found(r, i - 1), chart),
            part_start(parts[i], g.found(r, i), chart),
        )
    }
}

/// Whether the children form a chain for the pattern of rule `r`: each fits
/// its matcher, and each stands next to the one before it.
pub open spec fn chain_ok(parts: Seq<Part>, g: Ground, r: int, chart: Seq<Node>, limit: int) -> bool {
    &&& parts.len() <= g.rules[r].arity()
    &&& link_ok(parts, 0, g, r, chart, limit)
    &&& link_ok(parts, 1, g, r, chart, limit)
    &&& link_ok(parts, 2, g, r, chart, limit)
    &&& link_ok(parts, 3, g, r, chart, limit)
}

/// Whether the node at position `at` of the chart is a derivation: its rule
/// made its value of a full chain of children among the matches and the nodes
/// before it, and it covers what its children cover.
#[verifier::opaque]
pub open spec fn derived(node: Node, at: int, g: Ground, chart: Seq<Node>) -> bool {
    let r = node.rule as int;
    let parts = node.parts.list();
    &&& r < g.rules.len()
    &&& parts.len() == g.rules[r].arity()
    &&& parts.len() > 0
    &&& chain_ok(parts, g, r, chart, at)
    &&& node.start == part_start(parts[0], g.found(r, 0), chart)
    &&& node.end == part_end(parts.last(), g.found(r, parts.len() - 1), chart)
    &&& node.start <= node.end <= g.chars.len()
    &&& produced(g.rules[r].production, parts_args(parts, g, r, chart)) == Ok::<
        Dimension,
        crate::error::ProductionError,
    >(node.value)
    &&& node.value.wf()
}

/// Every node of the chart is a derivation.
pub open spec fn chart_sound(chart: Seq<Node>, g: Ground) -> bool {
    forall|i: int| 0 <= i < chart.len() ==> derived(#[trigger] chart[i], i, g, chart)
}

/// Whether the chart holds a node with this value over this stretch.
pub open spec fn present(chart: Seq<Node>, start: int, end: int, value: Dimension) -> bool {
    exists|i: int|
        0 <= i < chart.len() && (#[trigger] chart[i]).start == start && chart[i].end == end
            && chart[i].value == value
}

/// Whether `longer` begins with the nodes of `shorter`.
pub open spec fn extends(longer: Seq<Node>, shorter: Seq<Node>) -> bool {
    shorter.len() <= longer.len() && forall|i: int|
        0 <= i < shorter.len() ==> #[trigger] longer[i] == shorter[i]
}

/// The chart after rule `r` was applied to the full chain `parts`: with the
/// value made over the stretch from `start` to `end`, unless the production
/// made none, the chart holds it already, or the chart is full.
pub open spec fn finish(g: Ground, r: int, parts: Parts, start: int, end: int, chart: Seq<Node>) -> Seq<
    Node,
> {
    match produced(g.rules[r].production, parts_args(parts.list(), g, r, chart)) {
        Ok(v) => if chart.len() < CAPACITY && !present(chart, start, end, v) {
            chart.push(
                Node { rule: r as usize, start: start as usize, end: end as usize, value: v, parts },
            )
        } else {
            chart
        },
        Err(_) => chart,
    }
}

/// How many candidates there are for the next child: the matches of a
/// regular expression, or the first `limit` nodes.
pub open spec fn candidates(g: Ground, r: int, pos: int, limit: int) -> int {
    match g.rules[r].matcher(pos) {
        Matcher::Nothing => 0,
        Matcher::Text(_) => g.found(r, pos).len() as int,
        _ => limit,
    }
}

/// Candidate number `k` for the next child.
pub open spec fn candidate(g: Ground, r: int, pos: int, k: int) -> Part {
    if g.rules[r].matcher(pos) is Text {
        Part::Text { hit: k as usize }
    } else {
        Part::Node { index: k as usize }
    }
}

/// Whether candidate number `k` continues the chain that ends at `end`.
pub open spec fn continues(
    g: Ground,
    r: int,
    pos: int,
    k: int,
    end: int,
    chart: Seq<Node>,
) -> bool {
    let m = g.rules[r].matcher(pos);
    let part = candidate(g, r, pos, k);
    (m is Text || m.accepts(chart[k].value)) && (pos == 0 || gap_ok(
        g.chars,
        end,
        part_start(part, g.found(r, pos), chart),
    ))
}

/// The chart after rule `r` was applied to every chain that continues the
/// children `parts` with the candidates from number `k` on.
pub open spec fn grow(
    g: Ground,
    r: int,
    parts: Parts,
    start: int,
    end: int,
    chart: Seq<Node>,
    limit: int,
    k: int,
) -> Seq<Node>
    decreases g.rules[r].arity() - parts.list().len(), candidates(g, r, parts.list().len() as int, limit) - k,
{
    let pos = parts.list().len() as int;
    if pos >= g.rules[r].arity() {
        if pos == 0 {
            chart
        } else {
            finish(g, r, parts, start, end, chart)
        }
    } else if k < 0 || k >= candidates(g, r, pos, limit) {
        chart
    } else {
        let part = candidate(g, r, pos, k);
        let after = if continues(g, r, pos, k, end, chart) {
            grow(
                g,
                r,
                parts.with(part),
                if pos == 0 {
                    part_start(part, g.found(r, pos), chart)
                } else {
                    start
                },
                part_end(part, g.found(r, pos), chart),
                chart,
                limit,
                0,
            )
        } else {
            chart
        };
        grow(g, r, parts, start, end, after, limit, k + 1)
    }
}

/// The chart after the rules from number `r` on were applied to the chains
/// among the matches and the first `limit` nodes.
pub open spec fn sweep(g: Ground, chart: Seq<Node>, limit: int, r: int) -> Seq<Node>
    decreases g.rules.len() - r,
{
    if r < 0 || r >= g.rules.len() {
        chart
    } else {
        sweep(g, grow(g, r, Parts::none(), 0, 0, chart, limit, 0), limit, r + 1)
    }
}

/// The chart after rounds were made until one added nothing, `fuel` at most.
pub open spec fn saturate(g: Ground, chart: Seq<Node>, fuel: nat) -> Seq<Node>
    decreases fuel,
{
    if fuel == 0 {
        chart
    } else {
        let next = sweep(g, chart, chart.len() as int, 0);
        if next.len() == chart.len() {
            next
        } else {
            saturate(g, next, (fuel - 1) as nat)
        }
    }
}

/// The chart of a text under a set of rules.
pub open spec fn chart_of(g: Ground) -> Seq<Node> {
    saturate(g, Seq::empty(), CAPACITY as nat)
}

/// What reads only the first `limit` nodes is the same on two charts that
/// agree on them.
pub proof fn lemma_chain_stable(
    parts: Seq<Part>,
    g: Ground,
    r: int,
    c1: Seq<Node>,
    c2: Seq<Node>,
    limit: int,
)
    requires
        extends(c2, c1),
        limit <= c1.len(),
        chain_ok(parts, g, r, c1, limit),
    ensures
        chain_ok(parts, g, r, c2, limit),
        parts_args(parts, g, r, c2) == parts_args(parts, g, r, c1),
        parts.len() > 0 ==> part_start(parts[0], g.found(r, 0), c2) == part_start(
            parts[0],
            g.found(r, 0),
            c1,
        ) && part_end(parts.last(), g.found(r, parts.len() - 1), c2) == part_end(
            parts.last(),
            g.found(r, parts.len() - 1),
            c1,
        ),
{
    assert(link_ok(parts, 0, g, r, c1, limit));
    assert(link_ok(parts, 1, g, r, c1, limit));
    assert(link_ok(parts, 2, g, r, c1, limit));
    assert(link_ok(parts, 3, g, r, c1, limit));
    assert forall|i: int| 0 <= i < parts.len() implies part_arg(parts[i], g.found(r, i), c2)
        == part_arg(parts[i], g.found(r, i), c1) by {
        assert(i < 4);
        assert(link_ok(parts, i, g, r, c1, limit));
    }
    assert(parts_args(parts, g, r, c2) =~= parts_args(parts, g, r, c1));
}

/// A sound chart stays sound when a derivation is added at its end.
pub proof fn lemma_sound_push(chart: Seq<Node>, node: Node, g: Ground)
    requires
        chart_sound(chart, g),
        derived(node, chart.len() as int, g, chart),
    ensures
        chart_sound(chart.push(node), g),
{
    reveal(derived);
    let longer = chart.push(node);
    assert(extends(longer, chart));
    assert forall|i: int| 0 <= i < longer.len() implies derived(
        #[trigger] longer[i],
        i,
        g,
        longer,
    ) by {
        let n = longer[i];
        if i < chart.len() {
            assert(n == chart[i]);
            assert(derived(chart[i], i, g, chart));
        }
        lemma_chain_stable(n.parts.list(), g, n.rule as int, chart, longer, i);
    }
}

/// A chain that is continued by a child that fits the next matcher and
/// stands next to the last child is a chain.
pub proof fn lemma_chain_push(
    parts: Seq<Part>,
    part: Part,
    g: Ground,
    r: int,
    chart: Seq<Node>,
    limit: int,
)
    requires
        chain_ok(parts, g, r, chart, limit),
        parts.len() < g.rules[r].arity(),
        part_fits(
            part,
            g.rules[r].matcher(parts.len() as int),
            g.found(r, parts.len() as int),
            chart,
            limit,
        ),
        part_start(part, g.found(r, parts.len() as int), chart) <= part_end(
            part,
            g.found(r, parts.len() as int),
            chart,
        ) <= g.chars.len(),
        parts.len() > 0 ==> gap_ok(
            g.chars,
            part_end(parts.last(), g.found(r, parts.len() - 1), chart),
            part_start(part, g.found(r, parts.len() as int), chart),
        ),
    ensures
        chain_ok(parts.push(part), g, r, chart, limit),
        part_start(parts.push(part)[0], g.found(r, 0), chart) == if parts.len() == 0 {
            part_start(part, g.found(r, 0), chart)
        } else {
            part_start(parts[0], g.found(r, 0), chart)
        },
        part_end(parts.push(part).last(), g.found(r, parts.len() as int), chart) == part_end(
            part,
            g.found(r, parts.len() as int),
            chart,
        ),
{
    let next = parts.push(part);
    assert(link_ok(parts, 0, g, r, chart, limit));
    assert(link_ok(parts, 1, g, r, chart, limit));
    assert(link_ok(parts, 2, g, r, chart, limit));
    assert(link_ok(parts, 3, g, r, chart, limit));
    assert forall|i: int| 0 <= i < parts.len() implies next[i] == parts[i] by {}
    assert(next[parts.len() as int] == part);
    assert(link_ok(next, 0, g, r, chart, limit));
    assert(link_ok(next, 1, g, r, chart, limit));
    assert(link_ok(next, 2, g, r, chart, limit));
    assert(link_ok(next, 3, g, r, chart, limit));
}

/// A chain among the first `limit` nodes is one among the first `more`.
pub proof fn lemma_chain_limit(
    parts: Seq<Part>,
    g: Ground,
    r: int,
    chart: Seq<Node>,
    limit: int,
    more: int,
)
    requires
        chain_ok(parts, g, r, chart, limit),
        limit <= more,
    ensures
        chain_ok(parts, g, r, chart, more),
{
    assert(link_ok(parts, 0, g, r, chart, limit));
    assert(link_ok(parts, 1, g, r, chart, limit));
    assert(link_ok(parts, 2, g, r, chart, limit));
    assert(link_ok(parts, 3, g, r, chart, limit));
}

/// Every node has a well-formed value and lies within the text.
pub open spec fn nodes_wf(chart: Seq<Node>, n: int) -> bool {
    forall|i: int|
        0 <= i < chart.len() ==> (#[trigger] chart[i]).value.wf() && chart[i].start <= chart[i].end
            <= n
}

/// The nodes of a sound chart have well-formed values within the text.
pub proof fn lemma_nodes_wf(chart: Seq<Node>, g: Ground)
    requires
        chart_sound(chart, g),
    ensures
        nodes_wf(chart, g.chars.len() as int),
{
    reveal(derived);
    assert forall|i: int| 0 <= i < chart.len() implies (#[trigger] chart[i]).value.wf()
        && chart[i].start <= chart[i].end <= g.chars.len() by {
        assert(derived(chart[i], i, g, chart));
    }
}

/// The nodes of a sound chart name rules of the rule set.
pub proof fn lemma_nodes_rules(chart: Seq<Node>, g: Ground)
    requires
        chart_sound(chart, g),
    ensures
        forall|i: int| 0 <= i < chart.len() ==> (#[trigger] chart[i]).rule < g.rules.len(),
{
    reveal(derived);
    assert forall|i: int| 0 <= i < chart.len() implies (#[trigger] chart[i]).rule
        < g.rules.len() by {
        assert(derived(chart[i], i, g, chart));
    }
}

fn copy_groups(groups: &Vec<Option<Vec<char>>>) -> (v: Vec<Option<Vec<char>>>)
    ensures
        v@.len() == groups@.len(),
        forall|i: int|
            0 <= i < v@.len() ==> match (#[trigger] v@[i], groups@[i]) {
                (Some(a), Some(b)) => a@ == b@,
                (None, None) => true,
                _ => false,
            },
{
    let mut v: Vec<Option<Vec<char>>> = Vec::new();
    let mut i: usize = 0;
    while i < groups.len()
        invariant
            i <= groups@.len(),
            v@.len() == i,
            forall|k: int|
                0 <= k < i ==> match (#[trigger] v@[k], groups@[k]) {
                    (Some(a), Some(b)) => a@ == b@,
                    (None, None) => true,
                    _ => false,
                },
        decreases groups@.len() - i,
    {
        let g = match &groups[i] {
            Some(t) => Some(copy_chars(t)),
            None => None,
        };
        v.push(g);
        i = i + 1;
    }
    v
}

fn build_args(
    parts: &Parts,
    hits: &Vec<Vec<Vec<Hit>>>,
    r: usize,
    chart: &Vec<Node>,
    Ghost(limit): Ghost<int>,
    Ghost(g): Ghost<Ground>,
) -> (args: Vec<Arg>)
    requires
        r < g.rules.len(),
        hits_match(hits@, g),
        nodes_wf(chart@, g.chars.len() as int),
        chain_ok(parts.list(), g, r as int, chart@, limit),
    ensures
        views(args@) == parts_args(parts.list(), g, r as int, chart@),
        args_wf(views(args@)),
{
    let mut args: Vec<Arg> = Vec::new();
    let mut i: usize = 0;
    let ghost target = parts_args(parts.list(), g, r as int, chart@);
    let n: usize = parts.len();
    while i < n
        invariant
            i <= n,
            n == parts.list().len(),
            n <= 4,
            r < g.rules.len(),
            hits_match(hits@, g),
            nodes_wf(chart@, g.chars.len() as int),
            chain_ok(parts.list(), g, r as int, chart@, limit),
            target == parts_args(parts.list(), g, r as int, chart@),
            args@.len() == i,
            forall|k: int| 0 <= k < i ==> (#[trigger] args@[k])@ == target[k],
            forall|k: int|
                0 <= k < i ==> match (#[trigger] args@[k])@ {
                    ArgView::Value(d) => d.wf(),
                    ArgView::Text(_) => true,
                },
        decreases n - i,
    {
        proof {
            assert(link_ok(parts.list(), i as int, g, r as int, chart@, limit));
            assert(slot(hits@, r as int, i as int) == g.found(r as int, i as int));
        }
        let arg = match parts.get(i) {
            Part::Text { hit } => {
                let groups = copy_groups(&hits[r][i][hit].groups);
                let a = Arg::Text(groups);
                proof {
                    let shown = slot(hits@, r as int, i as int)[hit as int].groups;
                    assert(a@ == ArgView::Text(shown)) by {
                        match a@ {
                            ArgView::Text(t) => {
                                assert(t =~= shown);
                            },
                            ArgView::Value(_) => {},
                        }
                    }
                }
                a
            },
            Part::Node { index } => Arg::Value(chart[index].value.copy()),
        };
        args.push(arg);
        i = i + 1;
    }
    proof {
        assert(views(args@) =~= target);
    }
    args
}

fn is_present(chart: &Vec<Node>, start: usize, end: usize, value: &Dimension) -> (b: bool)
    ensures
        b == present(chart@, start as int, end as int, *value),
{
    let mut i: usize = 0;
    while i < chart.len()
        invariant
            i <= chart@.len(),
            forall|k: int|
                0 <= k < i ==> !((#[trigger] chart@[k]).start == start && chart@[k].end == end
                    && chart@[k].value == *value),
        decreases chart@.len() - i,
    {
        if chart[i].start == start && chart[i].end == end && chart[i].value.same(value) {
            return true;
        }
        i = i + 1;
    }
    false
}

/// Applies rule `r` to every chain that continues the children `parts` with
/// matches and with nodes among the first `limit`, and adds the values made
/// that the chart does not hold yet.
fn extend(
    rules: &Vec<Rule>,
    r: usize,
    parts: Parts,
    start: usize,
    end: usize,
    hits: &Vec<Vec<Vec<Hit>>>,
    chars: &Vec<char>,
    chart: &mut Vec<Node>,
    limit: usize,
    Ghost(g): Ghost<Ground>,
)
    requires
        g.rules == rules@,
        g.chars == chars@,
        r < rules@.len(),
        rules_wf(rules@),
        hits_match(hits@, g),
        limit <= old(chart)@.len(),
        chart_sound(old(chart)@, g),
        chain_ok(parts.list(), g, r as int, old(chart)@, limit as int),
        parts.list().len() > 0 ==> start == part_start(
            parts.list()[0],
            g.found(r as int, 0),
            old(chart)@,
        ) && end == part_end(
            parts.list().last(),
            g.found(r as int, parts.list().len() - 1),
            old(chart)@,
        ),
    ensures
        extends(final(chart)@, old(chart)@),
        chart_sound(final(chart)@, g),
        final(chart)@ == grow(g, r as int, parts, start as int, end as int, old(chart)@, limit as int, 0),
    decreases g.rules[r as int].arity() - parts.list().len(), 1nat,
{
    let rule = rules[r];
    let pos: usize = parts.len();
    let ghost first = chart@;
    proof {
        lemma_nodes_wf(chart@, g);
    }
    if pos >= rule.len() {
        if pos == 0 {
            return;
        }
        let args = build_args(&parts, hits, r, chart, Ghost(limit as int), Ghost(g));
        match produce(&rule.production, &args) {
            Ok(v) => {
                if chart.len() < CAPACITY && !is_present(chart, start, end, &v) {
                    proof {
                        assert(link_ok(parts.list(), 0, g, r as int, chart@, limit as int));
                        assert(link_ok(parts.list(), pos - 1, g, r as int, chart@, limit as int));
                        lemma_chain_limit(
                            parts.list(),
                            g,
                            r as int,
                            chart@,
                            limit as int,
                            chart@.len() as int,
                        );
                    }
                    let node = Node { rule: r, start, end, value: v, parts };
                    proof {
                        reveal(derived);
                        lemma_sound_push(chart@, node, g);
                    }
                    chart.push(node);
                }
            },
            Err(_) => {},
        }
        return;
    }
    let m = rule.get(pos);
    let count: usize = match m {
        Matcher::Nothing => 0,
        Matcher::Text(_) => {
            proof {
                assert(slot(hits@, r as int, pos as int) == g.found(r as int, pos as int));
            }
            hits[r][pos].len()
        },
        _ => limit,
    };
    let mut k: usize = 0;
    while k < count
        invariant
            k <= count,
            g.rules == rules@,
            g.chars == chars@,
            r < rules@.len(),
            rules_wf(rules@),
            hits_match(hits@, g),
            pos == parts.list().len(),
            pos < g.rules[r as int].arity(),
            count == candidates(g, r as int, pos as int, limit as int),
            limit <= first.len(),
            extends(chart@, first),
            first == old(chart)@,
            chart_sound(chart@, g),
            chain_ok(parts.list(), g, r as int, first, limit as int),
            pos > 0 ==> start == part_start(parts.list()[0], g.found(r as int, 0), first) && end
                == part_end(parts.list().last(), g.found(r as int, pos - 1), first),
            grow(g, r as int, parts, start as int, end as int, first, limit as int, 0) == grow(
                g,
                r as int,
                parts,
                start as int,
                end as int,
                chart@,
                limit as int,
                k as int,
            ),
        decreases count - k,
    {
        let ghost before = chart@;
        proof {
            lemma_chain_stable(parts.list(), g, r as int, first, chart@, limit as int);
        }
        step(rules, r, parts, start, end, hits, chars, chart, limit, k, Ghost(g));
        proof {
            assert(extends(chart@, first));
            lemma_grow_step(g, r as int, parts, start as int, end as int, before, limit as int, k as int);
        }
        k = k + 1;
    }
}

/// One step of `grow`: the chart after candidate `k` and the chains that
/// continue it, and then the candidates after it.
pub proof fn lemma_grow_step(
    g: Ground,
    r: int,
    parts: Parts,
    start: int,
    end: int,
    chart: Seq<Node>,
    limit: int,
    k: int,
)
    requires
        parts.list().len() < g.rules[r].arity(),
        0 <= k < candidates(g, r, parts.list().len() as int, limit),
    ensures
        grow(g, r, parts, start, end, chart, limit, k) == grow(
            g,
            r,
            parts,
            start,
            end,
            after_candidate(g, r, parts, start, end, chart, limit, k),
            limit,
            k + 1,
        ),
{
}

/// The chart after candidate `k` was tried as the next child: with all that
/// the chains through it give, where it continues the chain.
pub open spec fn after_candidate(
    g: Ground,
    r: int,
    parts: Parts,
    start: int,
    end: int,
    chart: Seq<Node>,
    limit: int,
    k: int,
) -> Seq<Node> {
    let pos = parts.list().len() as int;
    let part = candidate(g, r, pos, k);
    if continues(g, r, pos, k, end, chart) {
        grow(
            g,
            r,
            parts.with(part),
            if pos == 0 {
                part_start(part, g.found(r, pos), chart)
            } else {
                start
            },
            part_end(part, g.found(r, pos), chart),
            chart,
            limit,
            0,
        )
    } else {
        chart
    }
}

/// Tries candidate `k` as the next child of the chain `parts` of rule `r`.
fn step(
    rules: &Vec<Rule>,
    r: usize,
    parts: Parts,
    start: usize,
    end: usize,
    hits: &Vec<Vec<Vec<Hit>>>,
    chars: &Vec<char>,
    chart: &mut Vec<Node>,
    limit: usize,
    k: usize,
    Ghost(g): Ghost<Ground>,
)
    requires
        g.rules == rules@,
        g.chars == chars@,
        r < rules@.len(),
        rules_wf(rules@),
        hits_match(hits@, g),
        limit <= old(chart)@.len(),
        chart_sound(old(chart)@, g),
        chain_ok(parts.list(), g, r as int, old(chart)@, limit as int),
        parts.list().len() < g.rules[r as int].arity(),
        k < candidates(g, r as int, parts.list().len() as int, limit as int),
        parts.list().len() > 0 ==> start == part_start(
            parts.list()[0],
            g.found(r as int, 0),
            old(chart)@,
        ) && end == part_end(
            parts.list().last(),
            g.found(r as int, parts.list().len() - 1),
            old(chart)@,
        ),
    ensures
        extends(final(chart)@, old(chart)@),
        chart_sound(final(chart)@, g),
        final(chart)@ == after_candidate(
            g,
            r as int,
            parts,
            start as int,
            end as int,
            old(chart)@,
            limit as int,
            k as int,
        ),
    decreases g.rules[r as int].arity() - parts.list().len(), 0nat,
{
    let pos: usize = parts.len();
    let ghost first = chart@;
    proof {
        lemma_nodes_wf(chart@, g);
        if pos > 0 {
            assert(link_ok(parts.list(), pos - 1, g, r as int, chart@, limit as int));
        }
    }
    let probed = probe(rules, r, pos, end, hits, chars, chart, limit, k, Ghost(g));
    match probed {
        Some((from, to)) => {
            let part = match rules[r].get(pos) {
                Matcher::Text(_) => Part::Text { hit: k },
                _ => Part::Node { index: k },
            };
            let next = parts.push(part);
            let s: usize = if pos == 0 {
                from
            } else {
                start
            };
            proof {
                lemma_chain_push(parts.list(), part, g, r as int, first, limit as int);
            }
            extend(rules, r, next, s, to, hits, chars, chart, limit, Ghost(g));
        },
        None => {},
    }
}

/// Whether candidate `k` continues a chain that ends at `end`, and if so
/// from where to where the candidate reaches.
fn probe(
    rules: &Vec<Rule>,
    r: usize,
    pos: usize,
    end: usize,
    hits: &Vec<Vec<Vec<Hit>>>,
    chars: &Vec<char>,
    chart: &Vec<Node>,
    limit: usize,
    k: usize,
    Ghost(g): Ghost<Ground>,
) -> (res: Option<(usize, usize)>)
    requires
        g.rules == rules@,
        g.chars == chars@,
        r < rules@.len(),
        hits_match(hits@, g),
        limit <= chart@.len(),
        nodes_wf(chart@, g.chars.len() as int),
        pos < g.rules[r as int].arity(),
        k < candidates(g, r as int, pos as int, limit as int),
        pos > 0 ==> end <= chars@.len(),
    ensures
        res is Some == continues(g, r as int, pos as int, k as int, end as int, chart@),
        res matches Some((from, to)) ==> {
            let part = candidate(g, r as int, pos as int, k as int);
            &&& part_fits(
                part,
                g.rules[r as int].matcher(pos as int),
                g.found(r as int, pos as int),
                chart@,
                limit as int,
            )
            &&& from == part_start(part, g.found(r as int, pos as int), chart@)
            &&& to == part_end(part, g.found(r as int, pos as int), chart@)
            &&& from <= to <= chars@.len()
            &&& pos > 0 ==> gap_ok(chars@, end as int, from as int)
        },
{
    let m = rules[r].get(pos);
    let ghost found = g.found(r as int, pos as int);
    proof {
        assert(slot(hits@, r as int, pos as int) == found);
        assert(hits_wf(found, g.chars.len() as int));
    }
    match m {
        Matcher::Text(_) => {
            let from: usize = hits[r][pos][k].start;
            let to: usize = hits[r][pos][k].end;
            proof {
                assert(found[k as int] == hits@[r as int]@[pos as int]@[k as int]@);
            }
            if pos == 0 || adjacent(chars, end, from) {
                Some((from, to))
            } else {
                None
            }
        },
        _ => {
            let from: usize = chart[k].start;
            let to: usize = chart[k].end;
            if m.takes(&chart[k].value) && (pos == 0 || adjacent(chars, end, from)) {
                Some((from, to))
            } else {
                None
            }
        },
    }
}

/// One round: applies every rule to every chain among the matches and the
/// nodes that the chart holds when the round begins.
fn round(
    rules: &Vec<Rule>,
    hits: &Vec<Vec<Vec<Hit>>>,
    chars: &Vec<char>,
    chart: &mut Vec<Node>,
    Ghost(g): Ghost<Ground>,
)
    requires
        g.rules == rules@,
        g.chars == chars@,
        rules_wf(rules@),
        hits_match(hits@, g),
        chart_sound(old(chart)@, g),
    ensures
        extends(final(chart)@, old(chart)@),
        chart_sound(final(chart)@, g),
        final(chart)@ == sweep(g, old(chart)@, old(chart)@.len() as int, 0),
{
    let limit: usize = chart.len();
    let mut r: usize = 0;
    while r < rules.len()
        invariant
            r <= rules@.len(),
            g.rules == rules@,
            g.chars == chars@,
            rules_wf(rules@),
            hits_match(hits@, g),
            limit == old(chart)@.len(),
            extends(chart@, old(chart)@),
            chart_sound(chart@, g),
            sweep(g, old(chart)@, limit as int, 0) == sweep(g, chart@, limit as int, r as int),
        decreases rules@.len() - r,
    {
        let parts = Parts::empty();
        extend(rules, r, parts, 0, 0, hits, chars, chart, limit, Ghost(g));
        r = r + 1;
    }
}

/// The chart of the text: rounds are made until one adds nothing, or the
/// chart is full.
pub fn build_chart(
    rules: &Vec<Rule>,
    hits: &Vec<Vec<Vec<Hit>>>,
    chars: &Vec<char>,
    words: bool,
) -> (chart: Vec<Node>)
    requires
        rules_wf(rules@),
        hits_match(hits@, Ground { rules: rules@, chars: chars@, words }),
    ensures
        chart@ == chart_of(Ground { rules: rules@, chars: chars@, words }),
        chart_sound(chart@, Ground { rules: rules@, chars: chars@, words }),
{
    let ghost g = Ground { rules: rules@, chars: chars@, words };
    let mut chart: Vec<Node> = Vec::new();
    let mut rounds: usize = 0;
    while rounds < CAPACITY
        invariant
            rounds <= CAPACITY,
            g == (Ground { rules: rules@, chars: chars@, words }),
            rules_wf(rules@),
            hits_match(hits@, g),
            chart_sound(chart@, g),
            chart_of(g) == saturate(g, chart@, (CAPACITY - rounds) as nat),
        decreases CAPACITY - rounds,
    {
        let before: usize = chart.len();
        round(rules, hits, chars, &mut chart, Ghost(g));
        if chart.len() == before {
            return chart;
        }
        rounds = rounds + 1;
    }
    chart
}

} // verus!
