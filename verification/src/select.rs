//! From the chart to the matches that a parse hands out: the derivations of
//! the kinds asked for and, where overlaps are to be removed, of those that
//! overlap only the most preferred.
//!
//! Of two derivations the one with the higher score is preferred; of two
//! with the same score the longer; then the one that begins earlier; then
//! the one whose kind was asked for first; then the one whose rule has the
//! name that sorts first; then the one that entered the chart first.

use vstd::prelude::*;
use crate::chart::Node;
use crate::dimension::Dimension;
use crate::dimension::DimensionKind;
use crate::ranker::add_within;
use crate::ranker::sat_add;
use crate::rule::Rule;
use crate::text::byte_offset;

verus! {

/// A derivation that may be handed out: its place in the chart, the
/// characters that it covers, its score, the place of its kind among the
/// kinds asked for, and the place of its rule's name among the names.
#[derive(Clone, Copy, Debug, PartialEq, Eq)]
pub struct Candidate {
    pub node: usize,
    pub start: usize,
    pub end: usize,
    pub score: i64,
    pub kind: usize,
    pub rank: usize,
}

/// A match of a parse: the bytes and the characters that it covers, its
/// value, its score in millionths, and whether the value is latent.
#[derive(Debug)]
pub struct ParserMatch<V> {
    pub byte_range: (usize, usize),
    pub char_range: (usize, usize),
    pub value: V,
    pub probalog: i64,
    pub latent: bool,
}

/// Whether `a` sorts before `b`, character by character from position `i`.
pub open spec fn sorts_before(a: Seq<char>, b: Seq<char>, i: int) -> bool
    decreases a.len() - i,
{
    if i < 0 || i >= b.len() {
        false
    } else if i >= a.len() {
        true
    } else if (a[i] as u32) < (b[i] as u32) {
        true
    } else if (a[i] as u32) > (b[i] as u32) {
        false
    } else {
        sorts_before(a, b, i + 1)
    }
}

/// How many of the first `n` rules have a name that sorts before `name`.
pub open spec fn names_before(rules: Seq<Rule>, name: Seq<char>, n: int) -> int
    decreases n,
{
    if n <= 0 {
        0
    } else {
        names_before(rules, name, n - 1) + if sorts_before(rules[n - 1].name@, name, 0) {
            1int
        } else {
            0int
        }
    }
}

/// The place of a rule's name among the names of the rules.
pub open spec fn name_rank(rules: Seq<Rule>, r: int) -> int {
    names_before(rules, rules[r].name@, rules.len() as int)
}

fn comes_before(a: &Vec<char>, b: &Vec<char>) -> (r: bool)
    ensures
        r == sorts_before(a@, b@, 0),
{
    let mut i: usize = 0;
    while i < a.len() && i < b.len()
        invariant
            sorts_before(a@, b@, 0) == sorts_before(a@, b@, i as int),
        decreases a@.len() - i,
    {
        let x: u32 = a[i] as u32;
        let y: u32 = b[i] as u32;
        if x < y {
            return true;
        }
        if x > y {
            return false;
        }
        i = i + 1;
    }
    i < b.len()
}

/// The place of each rule's name among the names.
pub fn name_ranks(rules: &Vec<Rule>) -> (ranks: Vec<usize>)
    ensures
        ranks@.len() == rules@.len(),
        forall|r: int| 0 <= r < ranks@.len() ==> #[trigger] ranks@[r] == name_rank(rules@, r),
{
    let names = crate::ranker::rule_names(rules);
    let mut ranks: Vec<usize> = Vec::new();
    let mut r: usize = 0;
    while r < rules.len()
        invariant
            r <= rules@.len(),
            names@.len() == rules@.len(),
            forall|i: int| 0 <= i < names@.len() ==> (#[trigger] names@[i])@ == rules@[i].name@,
            ranks@.len() == r,
            forall|q: int| 0 <= q < r ==> #[trigger] ranks@[q] == name_rank(rules@, q),
        decreases rules@.len() - r,
    {
        let mut count: usize = 0;
        let mut j: usize = 0;
        while j < rules.len()
            invariant
                j <= rules@.len(),
                r < rules@.len(),
                names@.len() == rules@.len(),
                forall|i: int| 0 <= i < names@.len() ==> (#[trigger] names@[i])@ == rules@[i].name@,
                count == names_before(rules@, rules@[r as int].name@, j as int),
                count <= j,
            decreases rules@.len() - j,
        {
            if comes_before(&names[j], &names[r]) {
                count = count + 1;
            }
            j = j + 1;
        }
        ranks.push(count);
        r = r + 1;
    }
    ranks
}

/// The place of the kind among the kinds asked for.
pub open spec fn place_from(order: Seq<DimensionKind>, kind: DimensionKind, from: int) -> Option<
    usize,
>
    decreases order.len() - from,
{
    if from < 0 || from >= order.len() {
        None
    } else if order[from] == kind {
        Some(from as usize)
    } else {
        place_from(order, kind, from + 1)
    }
}

/// The place of the kind among the kinds asked for.
pub fn place(order: &Vec<DimensionKind>, kind: DimensionKind) -> (r: Option<usize>)
    ensures
        r == place_from(order@, kind, 0),
{
    let mut i: usize = 0;
    while i < order.len()
        invariant
            place_from(order@, kind, 0) == place_from(order@, kind, i as int),
        decreases order@.len() - i,
    {
        if order[i] == kind {
            return Some(i);
        }
        i = i + 1;
    }
    None
}

/// The candidates among the first `n` nodes: those of a kind asked for.
pub open spec fn gathered(
    chart: Seq<Node>,
    scores: Seq<i64>,
    order: Seq<DimensionKind>,
    rules: Seq<Rule>,
    n: nat,
) -> Seq<Candidate>
    decreases n,
{
    if n == 0 || n > chart.len() {
        Seq::empty()
    } else {
        let before = gathered(chart, scores, order, rules, (n - 1) as nat);
        let node = chart[n - 1];
        match place_from(order, node.value.kind_of(), 0) {
            Some(p) => before.push(
                Candidate {
                    node: (n - 1) as usize,
                    start: node.start,
                    end: node.end,
                    score: scores[n - 1],
                    kind: p,
                    rank: name_rank(rules, node.rule as int) as usize,
                },
            ),
            None => before,
        }
    }
}

/// Every candidate stands for a node of the chart and covers what it
/// covers, and the candidates come in the order of their nodes.
pub open spec fn candidates_wf(c: Seq<Candidate>, chart: Seq<Node>) -> bool {
    &&& forall|i: int|
        0 <= i < c.len() ==> (#[trigger] c[i]).node < chart.len() && c[i].start
            == chart[c[i].node as int].start && c[i].end == chart[c[i].node as int].end
    &&& forall|i: int, j: int| 0 <= i < j < c.len() ==> (#[trigger] c[i]).node < (#[trigger] c[j]).node
}

/// Gathers the candidates of a chart.
pub fn gather(
    chart: &Vec<Node>,
    scores: &Vec<i64>,
    order: &Vec<DimensionKind>,
    rules: &Vec<Rule>,
) -> (c: Vec<Candidate>)
    requires
        scores@.len() == chart@.len(),
        forall|i: int| 0 <= i < chart@.len() ==> (#[trigger] chart@[i]).rule < rules@.len(),
    ensures
        c@ == gathered(chart@, scores@, order@, rules@, chart@.len() as nat),
        candidates_wf(c@, chart@),
{
    let ranks = name_ranks(rules);
    let mut c: Vec<Candidate> = Vec::new();
    let mut i: usize = 0;
    while i < chart.len()
        invariant
            i <= chart@.len(),
            scores@.len() == chart@.len(),
            forall|k: int| 0 <= k < chart@.len() ==> (#[trigger] chart@[k]).rule < rules@.len(),
            ranks@.len() == rules@.len(),
            forall|r: int| 0 <= r < ranks@.len() ==> #[trigger] ranks@[r] == name_rank(rules@, r),
            c@ == gathered(chart@, scores@, order@, rules@, i as nat),
            candidates_wf(c@, chart@),
            forall|k: int| 0 <= k < c@.len() ==> (#[trigger] c@[k]).node < i,
        decreases chart@.len() - i,
    {
        let node = &chart[i];
        match place(order, node.value.kind()) {
            Some(p) => {
                c.push(
                    Candidate {
                        node: i,
                        start: node.start,
                        end: node.end,
                        score: scores[i],
                        kind: p,
                        rank: ranks[node.rule],
                    },
                );
            },
            None => {},
        }
        i = i + 1;
    }
    c
}

/// Whether the two cover a common character.
pub open spec fn overlaps(a: Candidate, b: Candidate) -> bool {
    a.start < b.end && b.start < a.end
}

/// Whether `a` is preferred to `b`.
pub open spec fn prefers(a: Candidate, b: Candidate) -> bool {
    if a.score != b.score {
        a.score > b.score
    } else if a.end - a.start != b.end - b.start {
        a.end - a.start > b.end - b.start
    } else if a.start != b.start {
        a.start < b.start
    } else if a.kind != b.kind {
        a.kind < b.kind
    } else if a.rank != b.rank {
        a.rank < b.rank
    } else {
        a.node < b.node
    }
}

/// The most preferred of the first `n` candidates that are undecided, or
/// -1. A candidate is undecided with state 0, kept with 1, dropped with 2.
pub open spec fn best_upto(c: Seq<Candidate>, state: Seq<u8>, n: int) -> int
    decreases n,
{
    if n <= 0 {
        -1
    } else {
        let b = best_upto(c, state, n - 1);
        if state[n - 1] == 0 && (b < 0 || prefers(c[n - 1], c[b])) {
            n - 1
        } else {
            b
        }
    }
}

/// The states after candidate `b` was kept: the undecided candidates that
/// overlap it are dropped.
pub open spec fn decide(c: Seq<Candidate>, state: Seq<u8>, b: int) -> Seq<u8> {
    Seq::new(
        state.len(),
        |j: int|
            if j == b {
                1u8
            } else if state[j] == 0 && overlaps(c[b], c[j]) {
                2u8
            } else {
                state[j]
            },
    )
}

/// The states after the most preferred undecided candidate was kept, time
/// and again, `fuel` times at most.
pub open spec fn settle(c: Seq<Candidate>, state: Seq<u8>, fuel: nat) -> Seq<u8>
    decreases fuel,
{
    let b = best_upto(c, state, c.len() as int);
    if fuel == 0 || b < 0 {
        state
    } else {
        settle(c, decide(c, state, b), (fuel - 1) as nat)
    }
}

/// Which candidates are kept when overlaps are removed: state 1.
pub open spec fn settled(c: Seq<Candidate>) -> Seq<u8> {
    settle(c, Seq::new(c.len(), |j: int| 0u8), c.len())
}

/// No two kept candidates overlap.
pub open spec fn kept_apart(c: Seq<Candidate>, state: Seq<u8>) -> bool {
    forall|i: int, j: int|
        0 <= i < c.len() && 0 <= j < c.len() && i != j && #[trigger] state[i] == 1
            && #[trigger] state[j] == 1 ==> !overlaps(c[i], c[j])
}

/// No undecided candidate overlaps a kept one.
pub open spec fn open_apart(c: Seq<Candidate>, state: Seq<u8>) -> bool {
    forall|i: int, j: int|
        0 <= i < c.len() && 0 <= j < c.len() && #[trigger] state[i] == 1 && #[trigger] state[j]
            == 0 ==> !overlaps(c[i], c[j])
}

fn prefer(a: &Candidate, b: &Candidate) -> (r: bool)
    requires
        a.start <= a.end,
        b.start <= b.end,
    ensures
        r == prefers(*a, *b),
{
    if a.score != b.score {
        a.score > b.score
    } else if a.end - a.start != b.end - b.start {
        a.end - a.start > b.end - b.start
    } else if a.start != b.start {
        a.start < b.start
    } else if a.kind != b.kind {
        a.kind < b.kind
    } else if a.rank != b.rank {
        a.rank < b.rank
    } else {
        a.node < b.node
    }
}

/// Whether candidate `b` is preferred to every other undecided candidate
/// among the first `n`.
pub open spec fn leads(c: Seq<Candidate>, state: Seq<u8>, b: int, n: int) -> bool {
    forall|u: int| 0 <= u < n && #[trigger] state[u] == 0 && u != b ==> prefers(c[b], c[u])
}

/// The candidates stand for different nodes, in the order of the nodes.
pub open spec fn in_order(c: Seq<Candidate>) -> bool {
    forall|i: int, j: int| 0 <= i < j < c.len() ==> (#[trigger] c[i]).node < (#[trigger] c[j]).node
}

/// Of three candidates, the first is preferred to the third where it is
/// preferred to the second and the second to the third.
pub proof fn lemma_prefers_transitive(x: Candidate, y: Candidate, z: Candidate)
    requires
        prefers(x, y),
        prefers(y, z),
    ensures
        prefers(x, z),
{
}

/// Of two candidates for different nodes, one is preferred to the other.
pub proof fn lemma_prefers_total(x: Candidate, y: Candidate)
    requires
        x.node != y.node,
    ensures
        prefers(x, y) || prefers(y, x),
        !(prefers(x, y) && prefers(y, x)),
{
}

fn best(c: &Vec<Candidate>, state: &Vec<u8>) -> (r: Option<usize>)
    requires
        state@.len() == c@.len(),
        in_order(c@),
        forall|i: int| 0 <= i < c@.len() ==> (#[trigger] c@[i]).start <= c@[i].end,
    ensures
        match r {
            Some(b) => b == best_upto(c@, state@, c@.len() as int) && b < c@.len() && state@[b as int]
                == 0 && leads(c@, state@, b as int, c@.len() as int),
            None => best_upto(c@, state@, c@.len() as int) < 0 && forall|u: int|
                0 <= u < c@.len() ==> #[trigger] state@[u] != 0,
        },
{
    let mut found: Option<usize> = None;
    let mut i: usize = 0;
    while i < c.len()
        invariant
            i <= c@.len(),
            state@.len() == c@.len(),
            in_order(c@),
            forall|k: int| 0 <= k < c@.len() ==> (#[trigger] c@[k]).start <= c@[k].end,
            match found {
                Some(b) => b == best_upto(c@, state@, i as int) && b < i && state@[b as int] == 0
                    && leads(c@, state@, b as int, i as int),
                None => best_upto(c@, state@, i as int) < 0 && forall|u: int|
                    0 <= u < i ==> #[trigger] state@[u] != 0,
            },
        decreases c@.len() - i,
    {
        if state[i] == 0 {
            let better = match found {
                Some(b) => prefer(&c[i], &c[b]),
                None => true,
            };
            if better {
                proof {
                    assert forall|u: int| 0 <= u < i + 1 && #[trigger] state@[u] == 0 && u
                        != i implies prefers(c@[i as int], c@[u]) by {
                        match found {
                            Some(b) => {
                                if u != b as int {
                                    lemma_prefers_transitive(c@[i as int], c@[b as int], c@[u]);
                                }
                            },
                            None => {},
                        }
                    }
                }
                found = Some(i);
            } else {
                proof {
                    match found {
                        Some(b) => {
                            assert(c@[b as int].node < c@[i as int].node);
                            lemma_prefers_total(c@[b as int], c@[i as int]);
                        },
                        None => {},
                    }
                }
            }
        }
        i = i + 1;
    }
    found
}

fn overlap(a: &Candidate, b: &Candidate) -> (r: bool)
    ensures
        r == overlaps(*a, *b),
{
    a.start < b.end && b.start < a.end
}

fn mark(c: &Vec<Candidate>, state: &Vec<u8>, b: usize) -> (next: Vec<u8>)
    requires
        state@.len() == c@.len(),
        b < c@.len(),
    ensures
        next@ == decide(c@, state@, b as int),
{
    let mut next: Vec<u8> = Vec::new();
    let mut j: usize = 0;
    while j < state.len()
        invariant
            j <= state@.len(),
            state@.len() == c@.len(),
            b < c@.len(),
            next@.len() == j,
            forall|k: int| 0 <= k < j ==> #[trigger] next@[k] == decide(c@, state@, b as int)[k],
        decreases state@.len() - j,
    {
        let v: u8 = if j == b {
            1
        } else if state[j] == 0 && overlap(&c[b], &c[j]) {
            2
        } else {
            state[j]
        };
        next.push(v);
        j = j + 1;
    }
    assert(next@ =~= decide(c@, state@, b as int));
    next
}

/// How many of the first `n` candidates are undecided.
pub open spec fn open_count(state: Seq<u8>, n: int) -> int
    decreases n,
{
    if n <= 0 {
        0
    } else {
        open_count(state, n - 1) + if state[n - 1] == 0 {
            1int
        } else {
            0int
        }
    }
}

/// Every dropped candidate overlaps a kept one that is preferred to it.
pub open spec fn dropped_for(c: Seq<Candidate>, state: Seq<u8>) -> bool {
    forall|j: int| 0 <= j < c.len() && #[trigger] state[j] == 2 ==> outdone(c, state, j)
}

/// Whether candidate `j` overlaps a kept candidate that is preferred to it.
pub open spec fn outdone(c: Seq<Candidate>, state: Seq<u8>, j: int) -> bool {
    exists|k: int|
        0 <= k < c.len() && #[trigger] state[k] == 1 && overlaps(c[k], c[j]) && prefers(c[k], c[j])
}

/// What removing overlaps comes to: every candidate is kept or dropped, no
/// two kept candidates overlap, and a candidate is dropped only for a kept
/// one that overlaps it and is preferred to it.
pub open spec fn chosen(c: Seq<Candidate>, state: Seq<u8>) -> bool {
    &&& state.len() == c.len()
    &&& forall|j: int| 0 <= j < c.len() ==> #[trigger] state[j] == 1 || state[j] == 2
    &&& kept_apart(c, state)
    &&& dropped_for(c, state)
}

proof fn lemma_open_count_bounds(state: Seq<u8>, n: int)
    requires
        0 <= n <= state.len(),
    ensures
        0 <= open_count(state, n) <= n,
        open_count(state, n) == 0 ==> forall|u: int| 0 <= u < n ==> #[trigger] state[u] != 0,
    decreases n,
{
    if n > 0 {
        lemma_open_count_bounds(state, n - 1);
    }
}

proof fn lemma_open_count_falls(c: Seq<Candidate>, state: Seq<u8>, b: int, n: int)
    requires
        0 <= n <= state.len(),
        0 <= b < state.len(),
        state[b] == 0,
    ensures
        open_count(decide(c, state, b), n) <= open_count(state, n),
        b < n ==> open_count(decide(c, state, b), n) < open_count(state, n),
    decreases n,
{
    if n > 0 {
        lemma_open_count_falls(c, state, b, n - 1);
    }
}

/// Decides which candidates are kept when overlaps are removed.
pub fn settle_all(c: &Vec<Candidate>) -> (state: Vec<u8>)
    requires
        in_order(c@),
        forall|i: int| 0 <= i < c@.len() ==> (#[trigger] c@[i]).start <= c@[i].end,
    ensures
        state@ == settled(c@),
        chosen(c@, state@),
{
    let mut state: Vec<u8> = Vec::new();
    let mut i: usize = 0;
    while i < c.len()
        invariant
            i <= c@.len(),
            state@.len() == i,
            forall|k: int| 0 <= k < i ==> #[trigger] state@[k] == 0,
        decreases c@.len() - i,
    {
        state.push(0);
        i = i + 1;
    }
    assert(state@ =~= Seq::new(c@.len(), |j: int| 0u8));
    let mut fuel: usize = c.len();
    proof {
        lemma_open_count_bounds(state@, c@.len() as int);
    }
    while fuel > 0
        invariant
            state@.len() == c@.len(),
            in_order(c@),
            forall|k: int| 0 <= k < c@.len() ==> (#[trigger] c@[k]).start <= c@[k].end,
            forall|k: int| 0 <= k < c@.len() ==> #[trigger] state@[k] <= 2,
            settled(c@) == settle(c@, state@, fuel as nat),
            kept_apart(c@, state@),
            open_apart(c@, state@),
            dropped_for(c@, state@),
            open_count(state@, c@.len() as int) <= fuel,
        decreases fuel,
    {
        match best(c, &state) {
            Some(b) => {
                let next = mark(c, &state, b);
                proof {
                    lemma_open_count_falls(c@, state@, b as int, c@.len() as int);
                    assert forall|x: int, y: int|
                        0 <= x < c@.len() && 0 <= y < c@.len() && x != y && #[trigger] next@[x] == 1
                            && #[trigger] next@[y] == 1 implies !overlaps(c@[x], c@[y]) by {
                        if x == b as int {
                            assert(state@[y] == 1);
                            assert(state@[b as int] == 0);
                        } else if y == b as int {
                            assert(state@[x] == 1);
                            assert(state@[b as int] == 0);
                        } else {
                            assert(state@[x] == 1 && state@[y] == 1);
                        }
                    }
                    assert forall|x: int, y: int|
                        0 <= x < c@.len() && 0 <= y < c@.len() && #[trigger] next@[x] == 1
                            && #[trigger] next@[y] == 0 implies !overlaps(c@[x], c@[y]) by {
                        assert(state@[y] == 0);
                        if x != b as int {
                            assert(state@[x] == 1);
                        }
                    }
                    assert forall|j: int| 0 <= j < c@.len() && #[trigger] next@[j] == 2 implies outdone(
                        c@,
                        next@,
                        j,
                    ) by {
                        if state@[j] == 2 {
                            assert(outdone(c@, state@, j));
                            let k = choose|k: int|
                                0 <= k < c@.len() && #[trigger] state@[k] == 1 && overlaps(
                                    c@[k],
                                    c@[j],
                                ) && prefers(c@[k], c@[j]);
                            assert(next@[k] == 1);
                        } else {
                            assert(state@[j] == 0);
                            assert(next@[b as int] == 1);
                            assert(overlaps(c@[b as int], c@[j]));
                            assert(prefers(c@[b as int], c@[j]));
                        }
                    }
                }
                state = next;
            },
            None => {
                return state;
            },
        }
        fuel = fuel - 1;
    }
    proof {
        lemma_open_count_bounds(state@, c@.len() as int);
    }
    state
}

/// The match that a candidate is handed out as.
pub open spec fn match_of(c: Candidate, chart: Seq<Node>, bias: i64, chars: Seq<char>) -> ParserMatch<
    Dimension,
> {
    ParserMatch {
        byte_range: (byte_offset(chars, c.start as int) as usize, byte_offset(chars, c.end as int) as usize),
        char_range: (c.start, c.end),
        value: chart[c.node as int].value,
        probalog: sat_add(bias, c.score),
        latent: chart[c.node as int].value.is_latent(),
    }
}

/// The matches of the first `n` candidates that are handed out: all of
/// them, or with `remove` those that are kept.
pub open spec fn picked(
    c: Seq<Candidate>,
    state: Seq<u8>,
    remove: bool,
    chart: Seq<Node>,
    bias: i64,
    chars: Seq<char>,
    n: nat,
) -> Seq<ParserMatch<Dimension>>
    decreases n,
{
    if n == 0 || n > c.len() {
        Seq::empty()
    } else {
        let before = picked(c, state, remove, chart, bias, chars, (n - 1) as nat);
        if !remove || state[n - 1] == 1 {
            before.push(match_of(c[n - 1], chart, bias, chars))
        } else {
            before
        }
    }
}

/// Whether the two stretches of bytes have a byte in common.
pub open spec fn ranges_overlap(a: (usize, usize), b: (usize, usize)) -> bool {
    a.0 < b.1 && b.0 < a.1
}

/// The bytes and the characters of every match name the same stretch of
/// the text.
pub open spec fn ranges_agree<V>(m: Seq<ParserMatch<V>>, chars: Seq<char>) -> bool {
    forall|i: int|
        0 <= i < m.len() ==> {
            &&& (#[trigger] m[i]).char_range.0 <= m[i].char_range.1 <= chars.len()
            &&& m[i].byte_range.0 == byte_offset(chars, m[i].char_range.0 as int)
            &&& m[i].byte_range.1 == byte_offset(chars, m[i].char_range.1 as int)
        }
}

/// No two matches have a byte in common.
pub open spec fn apart<V>(m: Seq<ParserMatch<V>>) -> bool {
    forall|i: int, j: int|
        0 <= i < m.len() && 0 <= j < m.len() && i != j ==> !ranges_overlap(
            (#[trigger] m[i]).byte_range,
            (#[trigger] m[j]).byte_range,
        )
}

/// Stretches of characters that have none in common have no byte in common.
pub proof fn lemma_apart_in_bytes(chars: Seq<char>, a: Candidate, b: Candidate)
    requires
        a.start <= a.end <= chars.len(),
        b.start <= b.end <= chars.len(),
        !overlaps(a, b),
    ensures
        !(byte_offset(chars, a.start as int) < byte_offset(chars, b.end as int) && byte_offset(
            chars,
            b.start as int,
        ) < byte_offset(chars, a.end as int)),
{
    if a.start >= b.end {
        crate::text::lemma_offset_increasing(chars, b.end as int, a.start as int);
    } else {
        crate::text::lemma_offset_increasing(chars, a.end as int, b.start as int);
    }
}

/// Whether one of the first `i` candidates is kept and covers the stretch.
pub open spec fn kept_origin(range: (usize, usize), c: Seq<Candidate>, state: Seq<u8>, i: int) -> bool {
    exists|j: int| 0 <= j < i && #[trigger] state[j] == 1 && range == (c[j].start, c[j].end)
}

/// Hands out the candidates as matches.
pub(crate) fn pick(
    c: &Vec<Candidate>,
    state: &Vec<u8>,
    remove: bool,
    chart: &Vec<Node>,
    bias: i64,
    table: &Vec<usize>,
    Ghost(chars): Ghost<Seq<char>>,
) -> (m: Vec<ParserMatch<Dimension>>)
    requires
        state@.len() == c@.len(),
        candidates_wf(c@, chart@),
        crate::chart::nodes_wf(chart@, chars.len() as int),
        table@.len() == chars.len() + 1,
        forall|i: int| 0 <= i <= chars.len() ==> table@[i] == byte_offset(chars, i),
        remove ==> kept_apart(c@, state@),
    ensures
        m@ == picked(c@, state@, remove, chart@, bias, chars, c@.len() as nat),
        ranges_agree(m@, chars),
        remove ==> apart(m@),
        forall|i: int|
            0 <= i < m@.len() ==> (#[trigger] m@[i]).value.wf() && m@[i].latent
                == m@[i].value.is_latent(),
{
    let mut m: Vec<ParserMatch<Dimension>> = Vec::new();
    let mut i: usize = 0;
    while i < c.len()
        invariant
            i <= c@.len(),
            state@.len() == c@.len(),
            candidates_wf(c@, chart@),
            crate::chart::nodes_wf(chart@, chars.len() as int),
            table@.len() == chars.len() + 1,
            forall|k: int| 0 <= k <= chars.len() ==> table@[k] == byte_offset(chars, k),
            remove ==> kept_apart(c@, state@),
            m@ == picked(c@, state@, remove, chart@, bias, chars, i as nat),
            ranges_agree(m@, chars),
            remove ==> apart(m@),
            forall|k: int|
                0 <= k < m@.len() ==> (#[trigger] m@[k]).value.wf() && m@[k].latent
                    == m@[k].value.is_latent(),
            remove ==> forall|k: int|
                0 <= k < m@.len() ==> kept_origin((#[trigger] m@[k]).char_range, c@, state@, i as int),
        decreases c@.len() - i,
    {
        let ghost before = m@;
        if !remove || state[i] == 1 {
            let cand = c[i];
            let node = &chart[cand.node];
            let found = ParserMatch {
                byte_range: (table[cand.start], table[cand.end]),
                char_range: (cand.start, cand.end),
                value: node.value.copy(),
                probalog: add_within(bias, cand.score),
                latent: node.value.latent(),
            };
            proof {
                if remove {
                    assert forall|k: int| 0 <= k < before.len() implies !ranges_overlap(
                        (#[trigger] before[k]).byte_range,
                        found.byte_range,
                    ) && !ranges_overlap(found.byte_range, before[k].byte_range) by {
                        assert(kept_origin(before[k].char_range, c@, state@, i as int));
                        let j = choose|j: int|
                            0 <= j < i && #[trigger] state@[j] == 1 && before[k].char_range == (
                                c@[j].start,
                                c@[j].end,
                            );
                        assert(state@[j] == 1 && state@[i as int] == 1);
                        assert(!overlaps(c@[j], c@[i as int]));
                        assert(!overlaps(c@[i as int], c@[j]));
                        lemma_apart_in_bytes(chars, c@[j], c@[i as int]);
                        lemma_apart_in_bytes(chars, c@[i as int], c@[j]);
                    }
                }
            }
            m.push(found);
            proof {
                if remove {
                    assert(state@[i as int] == 1);
                    assert(kept_origin(found.char_range, c@, state@, i + 1));
                    assert forall|x: int, y: int|
                        0 <= x < m@.len() && 0 <= y < m@.len() && x != y implies !ranges_overlap(
                        (#[trigger] m@[x]).byte_range,
                        (#[trigger] m@[y]).byte_range,
                    ) by {
                        if x < before.len() && y < before.len() {
                            assert(m@[x] == before[x] && m@[y] == before[y]);
                        } else if x < before.len() {
                            assert(m@[x] == before[x]);
                        } else {
                            assert(m@[y] == before[y]);
                        }
                    }
                }
            }
        }
        proof {
            if remove {
                assert forall|k: int| 0 <= k < m@.len() implies kept_origin(
                    (#[trigger] m@[k]).char_range,
                    c@,
                    state@,
                    i + 1,
                ) by {
                    if k < before.len() {
                        assert(m@[k] == before[k]);
                        assert(kept_origin(before[k].char_range, c@, state@, i as int));
                        let j = choose|j: int|
                            0 <= j < i && #[trigger] state@[j] == 1 && before[k].char_range == (
                                c@[j].start,
                                c@[j].end,
                            );
                        assert(0 <= j < i + 1 && state@[j] == 1);
                    }
                }
            }
        }
        i = i + 1;
    }
    m
}

} // verus!
