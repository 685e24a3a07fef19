//! Scores of derivations under a feature-weighted model.
//!
//! The feature of a derivation is the name of its rule followed, for each
//! child that is itself a derivation, by a bar and the name of the child's
//! rule. A model gives a weight to some features. The score of a derivation
//! is the weight of its feature plus the scores of its children, and sums
//! that pass the ends of the signed 64-bit range stop there.

use vstd::prelude::*;
use crate::chart::chart_sound;
use crate::chart::derived;
use crate::chart::link_ok;
use crate::chart::Ground;
use crate::chart::Node;
use crate::chart::Part;
use crate::rule::Rule;
use crate::text::chars_of;
use crate::text::same_chars;

verus! {

/// Weights of features, in millionths, and a bias that every score begins
/// with.
#[derive(Debug)]
pub struct Model {
    pub bias: i64,
    pub keys: Vec<Vec<char>>,
    pub weights: Vec<i64>,
}

/// The sum of two numbers, held within the signed 64-bit range.
pub open spec fn sat_add(a: i64, b: i64) -> i64 {
    if a + b > i64::MAX {
        i64::MAX
    } else if a + b < i64::MIN {
        i64::MIN
    } else {
        (a + b) as i64
    }
}

/// The sum of two numbers, held within the signed 64-bit range.
pub fn add_within(a: i64, b: i64) -> (r: i64)
    ensures
        r == sat_add(a, b),
{
    match a.checked_add(b) {
        Some(v) => v,
        None => if a > 0 {
            i64::MAX
        } else {
            i64::MIN
        },
    }
}

/// The weight of the first of the keys from position `from` on that is the
/// given feature; 0 where there is none.
pub open spec fn weight_from(
    keys: Seq<Seq<char>>,
    weights: Seq<i64>,
    key: Seq<char>,
    from: int,
) -> i64
    decreases keys.len() - from,
{
    if from < 0 || from >= keys.len() || from >= weights.len() {
        0
    } else if keys[from] == key {
        weights[from]
    } else {
        weight_from(keys, weights, key, from + 1)
    }
}

/// The feature of a node, up to its first `k` children.
pub open spec fn feature_upto(rules: Seq<Rule>, node: Node, chart: Seq<Node>, k: int) -> Seq<char>
    decreases k,
{
    if k <= 0 {
        rules[node.rule as int].name@
    } else {
        let before = feature_upto(rules, node, chart, k - 1);
        match node.parts.list()[k - 1] {
            Part::Node { index } => before + seq!['|'] + rules[chart[index as int].rule as int].name@,
            Part::Text { hit } => before,
        }
    }
}

/// The feature of a node.
pub open spec fn feature(rules: Seq<Rule>, node: Node, chart: Seq<Node>) -> Seq<char> {
    feature_upto(rules, node, chart, node.parts.list().len() as int)
}

/// The sum of the scores of the derivations among the first `k` children.
pub open spec fn tally(node: Node, prior: Seq<i64>, k: int) -> i64
    decreases k,
{
    if k <= 0 {
        0
    } else {
        match node.parts.list()[k - 1] {
            Part::Node { index } => sat_add(tally(node, prior, k - 1), prior[index as int]),
            Part::Text { hit } => tally(node, prior, k - 1),
        }
    }
}

/// The score of a node, given the scores of the nodes before it.
pub open spec fn node_score(
    keys: Seq<Seq<char>>,
    weights: Seq<i64>,
    rules: Seq<Rule>,
    node: Node,
    chart: Seq<Node>,
    prior: Seq<i64>,
) -> i64 {
    sat_add(
        weight_from(keys, weights, feature(rules, node, chart), 0),
        tally(node, prior, node.parts.list().len() as int),
    )
}

/// The scores of the first `n` nodes of the chart.
pub open spec fn scores_of(
    keys: Seq<Seq<char>>,
    weights: Seq<i64>,
    rules: Seq<Rule>,
    chart: Seq<Node>,
    n: nat,
) -> Seq<i64>
    decreases n,
{
    if n == 0 || n > chart.len() {
        Seq::empty()
    } else {
        let prior = scores_of(keys, weights, rules, chart, (n - 1) as nat);
        prior.push(node_score(keys, weights, rules, chart[n - 1], chart, prior))
    }
}

/// There is a score for each node.
pub proof fn lemma_scores_len(
    keys: Seq<Seq<char>>,
    weights: Seq<i64>,
    rules: Seq<Rule>,
    chart: Seq<Node>,
    n: nat,
)
    requires
        n <= chart.len(),
    ensures
        scores_of(keys, weights, rules, chart, n).len() == n,
    decreases n,
{
    if n > 0 {
        lemma_scores_len(keys, weights, rules, chart, (n - 1) as nat);
    }
}

impl Model {
    /// The features that the model gives a weight to.
    pub open spec fn key_list(&self) -> Seq<Seq<char>> {
        Seq::new(self.keys@.len(), |i: int| self.keys@[i]@)
    }

    /// The model that gives every derivation the score 0.
    pub fn empty() -> (m: Model)
        ensures
            m.bias == 0,
            m.keys@.len() == 0,
            m.weights@.len() == 0,
    {
        Model { bias: 0, keys: Vec::new(), weights: Vec::new() }
    }

    /// The weight that the model gives to a feature.
    pub fn weight(&self, key: &Vec<char>) -> (w: i64)
        ensures
            w == weight_from(self.key_list(), self.weights@, key@, 0),
    {
        let mut i: usize = 0;
        while i < self.keys.len() && i < self.weights.len()
            invariant
                weight_from(self.key_list(), self.weights@, key@, 0) == weight_from(
                    self.key_list(),
                    self.weights@,
                    key@,
                    i as int,
                ),
            decreases self.keys@.len() - i,
        {
            if same_chars(&self.keys[i], key) {
                return self.weights[i];
            }
            i = i + 1;
        }
        0
    }
}

/// The names of the rules as characters.
pub fn rule_names(rules: &Vec<Rule>) -> (names: Vec<Vec<char>>)
    ensures
        names@.len() == rules@.len(),
        forall|i: int| 0 <= i < names@.len() ==> (#[trigger] names@[i])@ == rules@[i].name@,
{
    let mut names: Vec<Vec<char>> = Vec::new();
    let mut i: usize = 0;
    while i < rules.len()
        invariant
            i <= rules@.len(),
            names@.len() == i,
            forall|k: int| 0 <= k < i ==> (#[trigger] names@[k])@ == rules@[k].name@,
        decreases rules@.len() - i,
    {
        names.push(chars_of(rules[i].name));
        i = i + 1;
    }
    names
}

fn append_chars(to: &mut Vec<char>, from: &Vec<char>)
    ensures
        final(to)@ == old(to)@ + from@,
{
    let mut i: usize = 0;
    while i < from.len()
        invariant
            i <= from@.len(),
            to@ == old(to)@ + from@.take(i as int),
        decreases from@.len() - i,
    {
        to.push(from[i]);
        i = i + 1;
        assert(to@ =~= old(to)@ + from@.take(i as int));
    }
    assert(from@.take(from@.len() as int) =~= from@);
}

/// The feature of the node at position `at` of a chart.
pub(crate) fn feature_of(
    names: &Vec<Vec<char>>,
    chart: &Vec<Node>,
    at: usize,
    Ghost(g): Ghost<Ground>,
) -> (key: Vec<char>)
    requires
        at < chart@.len(),
        chart_sound(chart@, g),
        names@.len() == g.rules.len(),
        forall|i: int| 0 <= i < names@.len() ==> (#[trigger] names@[i])@ == g.rules[i].name@,
    ensures
        key@ == feature(g.rules, chart@[at as int], chart@),
{
    let node = &chart[at];
    let ghost parts = node.parts.list();
    proof {
        reveal(derived);
        assert(derived(chart@[at as int], at as int, g, chart@));
        crate::chart::lemma_nodes_rules(chart@, g);
    }
    let mut key: Vec<char> = Vec::new();
    append_chars(&mut key, &names[node.rule]);
    let n: usize = node.parts.len();
    let mut k: usize = 0;
    while k < n
        invariant
            k <= n,
            n == parts.len(),
            n <= 4,
            at < chart@.len(),
            *node == chart@[at as int],
            parts == node.parts.list(),
            crate::chart::chain_ok(parts, g, node.rule as int, chart@, at as int),
            forall|i: int| 0 <= i < chart@.len() ==> (#[trigger] chart@[i]).rule < g.rules.len(),
            names@.len() == g.rules.len(),
            forall|i: int| 0 <= i < names@.len() ==> (#[trigger] names@[i])@ == g.rules[i].name@,
            key@ == feature_upto(g.rules, *node, chart@, k as int),
        decreases n - k,
    {
        proof {
            assert(link_ok(parts, k as int, g, node.rule as int, chart@, at as int));
        }
        match node.parts.get(k) {
            Part::Node { index } => {
                key.push('|');
                let ghost middle = key@;
                append_chars(&mut key, &names[chart[index].rule]);
                proof {
                    assert(middle =~= feature_upto(g.rules, *node, chart@, k as int) + seq!['|']);
                }
            },
            Part::Text { hit } => {},
        }
        k = k + 1;
    }
    key
}

fn score_node(
    model: &Model,
    names: &Vec<Vec<char>>,
    chart: &Vec<Node>,
    at: usize,
    prior: &Vec<i64>,
    Ghost(g): Ghost<Ground>,
) -> (s: i64)
    requires
        at < chart@.len(),
        prior@.len() == at,
        chart_sound(chart@, g),
        names@.len() == g.rules.len(),
        forall|i: int| 0 <= i < names@.len() ==> (#[trigger] names@[i])@ == g.rules[i].name@,
    ensures
        s == node_score(model.key_list(), model.weights@, g.rules, chart@[at as int], chart@, prior@),
{
    let node = &chart[at];
    let ghost parts = node.parts.list();
    proof {
        reveal(derived);
        assert(derived(chart@[at as int], at as int, g, chart@));
    }
    let key = feature_of(names, chart, at, Ghost(g));
    let mut sum: i64 = 0;
    let n: usize = node.parts.len();
    let mut k: usize = 0;
    while k < n
        invariant
            k <= n,
            n == parts.len(),
            n <= 4,
            at < chart@.len(),
            prior@.len() == at,
            *node == chart@[at as int],
            parts == node.parts.list(),
            crate::chart::chain_ok(parts, g, node.rule as int, chart@, at as int),
            sum == tally(*node, prior@, k as int),
        decreases n - k,
    {
        proof {
            assert(link_ok(parts, k as int, g, node.rule as int, chart@, at as int));
        }
        match node.parts.get(k) {
            Part::Node { index } => {
                sum = add_within(sum, prior[index]);
            },
            Part::Text { hit } => {},
        }
        k = k + 1;
    }
    add_within(model.weight(&key), sum)
}

/// The scores of the nodes of a chart.
pub(crate) fn score_chart(model: &Model, rules: &Vec<Rule>, chart: &Vec<Node>, Ghost(g): Ghost<Ground>) -> (scores:
    Vec<i64>)
    requires
        g.rules == rules@,
        chart_sound(chart@, g),
    ensures
        scores@ == scores_of(model.key_list(), model.weights@, rules@, chart@, chart@.len() as nat),
        scores@.len() == chart@.len(),
{
    let names = rule_names(rules);
    let mut scores: Vec<i64> = Vec::new();
    let mut i: usize = 0;
    while i < chart.len()
        invariant
            i <= chart@.len(),
            g.rules == rules@,
            chart_sound(chart@, g),
            names@.len() == rules@.len(),
            forall|k: int| 0 <= k < names@.len() ==> (#[trigger] names@[k])@ == rules@[k].name@,
            scores@ == scores_of(model.key_list(), model.weights@, rules@, chart@, i as nat),
            scores@.len() == i,
        decreases chart@.len() - i,
    {
        let s = score_node(model, &names, chart, i, &scores, Ghost(g));
        scores.push(s);
        i = i + 1;
    }
    scores
}

/// Whether the model is well formed: a weight for each feature, and no
/// feature twice.
pub open spec fn model_wf(model: Model) -> bool {
    &&& model.keys@.len() == model.weights@.len()
    &&& forall|i: int, j: int|
        0 <= i < j < model.keys@.len() ==> (#[trigger] model.keys@[i])@ != (
        #[trigger] model.keys@[j])@
}

/// Whether feature `i` of the model is missing its weight or repeats an
/// earlier feature.
pub open spec fn fault_at(model: Model, i: int) -> bool {
    i >= model.weights@.len() || exists|j: int|
        0 <= j < i && (#[trigger] model.keys@[j])@ == model.keys@[i]@
}

/// The place of the first fault of a model: a feature without weight or a
/// repeated feature, or the end of the features where weights are left over.
pub fn check_model(model: &Model) -> (r: Option<usize>)
    ensures
        r is None <==> model_wf(*model),
        r matches Some(e) ==> e <= model.keys@.len() && (forall|i: int|
            0 <= i < e ==> !fault_at(*model, i)) && (e < model.keys@.len() ==> fault_at(
            *model,
            e as int,
        )),
{
    let mut i: usize = 0;
    while i < model.keys.len()
        invariant
            i <= model.keys@.len(),
            forall|k: int| 0 <= k < i ==> !fault_at(*model, k),
        decreases model.keys@.len() - i,
    {
        if i >= model.weights.len() {
            return Some(i);
        }
        let mut j: usize = 0;
        while j < i
            invariant
                j <= i < model.keys@.len(),
                i < model.weights@.len(),
                forall|k: int| 0 <= k < i ==> !fault_at(*model, k),
                forall|k: int| 0 <= k < j ==> (#[trigger] model.keys@[k])@ != model.keys@[i as int]@,
            decreases i - j,
        {
            if same_chars(&model.keys[j], &model.keys[i]) {
                assert(fault_at(*model, i as int));
                assert(!model_wf(*model));
                return Some(i);
            }
            j = j + 1;
        }
        i = i + 1;
    }
    if model.weights.len() != model.keys.len() {
        return Some(i);
    }
    proof {
        assert forall|a: int, b: int| 0 <= a < b < model.keys@.len() implies (
        #[trigger] model.keys@[a])@ != (#[trigger] model.keys@[b])@ by {
            assert(!fault_at(*model, b));
        }
    }
    None
}

} // verus!
