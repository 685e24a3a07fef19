//! Fitting a model to labelled examples.
//!
//! An example is a text and the value that the text as a whole should
//! resolve to. The derivations of the text that cover all of it and resolve
//! to that value are on target, and so are the derivations that they are
//! made of. The weight of a feature is one unit for each derivation on
//! target that has the feature, less one unit for each other derivation
//! that has it.

use vstd::prelude::*;
use crate::chart::build_chart;
use crate::chart::chart_of;
use crate::chart::chart_sound;
use crate::chart::derived;
use crate::chart::link_ok;
use crate::chart::scan;
use crate::chart::Ground;
use crate::chart::Node;
use crate::chart::Part;
use crate::output::resolved;
use crate::output::Output;
use crate::output::ParsingContext;
use crate::ranker::add_within;
use crate::ranker::feature;
use crate::ranker::feature_of;
use crate::ranker::model_wf;
use crate::ranker::rule_names;
use crate::ranker::sat_add;
use crate::ranker::Model;
use crate::rule::Rule;
use crate::ruleset::RuleSet;
use crate::text::byte_offsets;
use crate::text::chars_of;
use crate::text::same_chars;

verus! {

/// One unit of weight, in millionths.
pub const UNIT: i64 = 1000000;

/// A labelled example: a text, and what the whole of it should resolve to.
#[derive(Debug)]
pub struct Example {
    pub text: String,
    pub target: Output,
}

/// Whether the node covers the `n` characters of the text and resolves to
/// the target at reference instant `r`.
pub open spec fn on_target(node: Node, n: int, target: Output, r: int) -> bool {
    node.start == 0 && node.end == n && resolved(node.value, r) == Some(target)
}

/// For each node, whether it is on target by itself.
pub open spec fn targets(chart: Seq<Node>, n: int, target: Output, r: int) -> Seq<bool> {
    Seq::new(chart.len(), |k: int| on_target(chart[k], n, target, r))
}

/// Whether node `j` is a child of the node.
pub open spec fn has_child(node: Node, j: int) -> bool {
    let l = node.parts.list();
    (l.len() > 0 && l[0] == Part::Node { index: j as usize }) || (l.len() > 1 && l[1]
        == Part::Node { index: j as usize }) || (l.len() > 2 && l[2] == Part::Node {
        index: j as usize,
    }) || (l.len() > 3 && l[3] == Part::Node { index: j as usize })
}

/// The marks after node `k` has passed its mark on to its children.
pub open spec fn pass_on(chart: Seq<Node>, marks: Seq<bool>, k: int) -> Seq<bool> {
    if marks[k] {
        Seq::new(marks.len(), |j: int| marks[j] || (0 <= j < usize::MAX && has_child(chart[k], j)))
    } else {
        marks
    }
}

/// The marks after the nodes from `k` on have passed their marks on to
/// their children, the last node first.
pub open spec fn spread_from(chart: Seq<Node>, marks: Seq<bool>, k: int) -> Seq<bool>
    decreases chart.len() - k,
{
    if k < 0 || k >= chart.len() {
        marks
    } else {
        pass_on(chart, spread_from(chart, marks, k + 1), k)
    }
}

/// The place of the first of the keys from `from` on that is the given
/// feature, or -1.
pub open spec fn index_from(keys: Seq<Seq<char>>, key: Seq<char>, from: int) -> int
    decreases keys.len() - from,
{
    if from < 0 || from >= keys.len() {
        -1
    } else if keys[from] == key {
        from
    } else {
        index_from(keys, key, from + 1)
    }
}

/// The features and weights after `delta` was added to the weight of a
/// feature; a feature without weight comes last with the weight `delta`.
pub open spec fn bumped(keys: Seq<Seq<char>>, weights: Seq<i64>, key: Seq<char>, delta: i64) -> (
    Seq<Seq<char>>,
    Seq<i64>,
) {
    let i = index_from(keys, key, 0);
    if 0 <= i < weights.len() {
        (keys, weights.update(i, sat_add(weights[i], delta)))
    } else {
        (keys.push(key), weights.push(delta))
    }
}

/// The features and weights after the first `k` nodes were counted: a unit
/// more for a marked node's feature, a unit less for another's.
pub open spec fn absorbed(
    rules: Seq<Rule>,
    chart: Seq<Node>,
    marks: Seq<bool>,
    keys: Seq<Seq<char>>,
    weights: Seq<i64>,
    k: nat,
) -> (Seq<Seq<char>>, Seq<i64>)
    decreases k,
{
    if k == 0 || k > chart.len() {
        (keys, weights)
    } else {
        let before = absorbed(rules, chart, marks, keys, weights, (k - 1) as nat);
        bumped(
            before.0,
            before.1,
            feature(rules, chart[k - 1], chart),
            if marks[k - 1] {
                UNIT
            } else {
                (-UNIT) as i64
            },
        )
    }
}

/// The features and weights after one example was counted, or nothing where
/// no derivation of the text is on target.
pub open spec fn learned(
    rules: Seq<Rule>,
    words: bool,
    text: Seq<char>,
    target: Output,
    r: int,
    keys: Seq<Seq<char>>,
    weights: Seq<i64>,
) -> Option<(Seq<Seq<char>>, Seq<i64>)> {
    let chart = chart_of(Ground { rules, chars: text, words });
    let t = targets(chart, text.len() as int, target, r);
    if t.contains(true) {
        Some(absorbed(rules, chart, spread_from(chart, t, 0), keys, weights, chart.len()))
    } else {
        None
    }
}

/// The features and weights after the first `n` examples were counted. An
/// example that has no derivation on target is passed over with `skip`, and
/// without it ends the training with the place of the example.
pub open spec fn trained(
    rules: Seq<Rule>,
    words: bool,
    examples: Seq<Example>,
    r: int,
    skip: bool,
    n: nat,
) -> Result<(Seq<Seq<char>>, Seq<i64>), usize>
    decreases n,
{
    if n == 0 || n > examples.len() {
        Ok((Seq::empty(), Seq::empty()))
    } else {
        match trained(rules, words, examples, r, skip, (n - 1) as nat) {
            Ok(m) => match learned(
                rules,
                words,
                examples[n - 1].text@,
                examples[n - 1].target,
                r,
                m.0,
                m.1,
            ) {
                Some(next) => Ok(next),
                None => if skip {
                    Ok(m)
                } else {
                    Err((n - 1) as usize)
                },
            },
            Err(e) => Err(e),
        }
    }
}

fn mark_targets(chart: &Vec<Node>, n: usize, target: &Output, context: &ParsingContext) -> (res: (
    Vec<bool>,
    bool,
))
    requires
        context.wf(),
        crate::chart::nodes_wf(chart@, n as int),
    ensures
        res.0@ == targets(chart@, n as int, *target, context.reference.instant()),
        res.1 == res.0@.contains(true),
{
    let mut marks: Vec<bool> = Vec::new();
    let mut any = false;
    let mut k: usize = 0;
    let ghost r = context.reference.instant();
    while k < chart.len()
        invariant
            k <= chart@.len(),
            context.wf(),
            r == context.reference.instant(),
            crate::chart::nodes_wf(chart@, n as int),
            marks@.len() == k,
            forall|j: int| 0 <= j < k ==> #[trigger] marks@[j] == on_target(chart@[j], n as int, *target, r),
            any == marks@.contains(true),
        decreases chart@.len() - k,
    {
        let node = &chart[k];
        let hit = node.start == 0 && node.end == n && match context.resolve(&node.value) {
            Some(o) => o == *target,
            None => false,
        };
        let ghost before = marks@;
        marks.push(hit);
        proof {
            if hit {
                assert(marks@[k as int] == true);
            } else if marks@.contains(true) {
                let j = choose|j: int| 0 <= j < marks@.len() && marks@[j] == true;
                assert(before[j] == true);
            }
            if before.contains(true) {
                let j = choose|j: int| 0 <= j < before.len() && before[j] == true;
                assert(marks@[j] == true);
            }
        }
        any = any || hit;
        k = k + 1;
    }
    proof {
        assert(marks@ =~= targets(chart@, n as int, *target, r));
    }
    (marks, any)
}

fn pass_marks(chart: &Vec<Node>, marks: &Vec<bool>, k: usize, Ghost(g): Ghost<Ground>) -> (out: Vec<
    bool,
>)
    requires
        k < chart@.len(),
        marks@.len() == chart@.len(),
        chart_sound(chart@, g),
    ensures
        out@ == pass_on(chart@, marks@, k as int),
        out@.len() == chart@.len(),
{
    let mut out: Vec<bool> = Vec::new();
    let node = &chart[k];
    let ghost l = node.parts.list();
    let n: usize = node.parts.len();
    let a = if n > 0 {
        node.parts.get(0)
    } else {
        Part::Text { hit: 0 }
    };
    let b = if n > 1 {
        node.parts.get(1)
    } else {
        Part::Text { hit: 0 }
    };
    let c = if n > 2 {
        node.parts.get(2)
    } else {
        Part::Text { hit: 0 }
    };
    let d = if n > 3 {
        node.parts.get(3)
    } else {
        Part::Text { hit: 0 }
    };
    let on = marks[k];
    let mut j: usize = 0;
    while j < marks.len()
        invariant
            j <= marks@.len(),
            k < chart@.len(),
            marks@.len() == chart@.len(),
            *node == chart@[k as int],
            l == node.parts.list(),
            n == l.len(),
            n > 0 ==> a == l[0],
            n > 1 ==> b == l[1],
            n > 2 ==> c == l[2],
            n > 3 ==> d == l[3],
            on == marks@[k as int],
            out@.len() == j,
            forall|x: int|
                0 <= x < j ==> #[trigger] out@[x] == (marks@[x] || (on && has_child(*node, x))),
        decreases marks@.len() - j,
    {
        let child = (n > 0 && is_node(a, j)) || (n > 1 && is_node(b, j)) || (n > 2 && is_node(c, j))
            || (n > 3 && is_node(d, j));
        out.push(marks[j] || (on && child));
        j = j + 1;
    }
    proof {
        assert(out@ =~= pass_on(chart@, marks@, k as int));
    }
    out
}

fn is_node(part: Part, j: usize) -> (r: bool)
    ensures
        r == (part == Part::Node { index: j }),
{
    match part {
        Part::Node { index } => index == j,
        Part::Text { hit } => false,
    }
}

fn spread(chart: &Vec<Node>, marks: Vec<bool>, Ghost(g): Ghost<Ground>) -> (out: Vec<bool>)
    requires
        marks@.len() == chart@.len(),
        chart_sound(chart@, g),
    ensures
        out@ == spread_from(chart@, marks@, 0),
        out@.len() == chart@.len(),
{
    let ghost first = marks@;
    let mut cur = marks;
    let mut k: usize = chart.len();
    while k > 0
        invariant
            k <= chart@.len(),
            cur@.len() == chart@.len(),
            first.len() == chart@.len(),
            chart_sound(chart@, g),
            cur@ == spread_from(chart@, first, k as int),
        decreases k,
    {
        k = k - 1;
        cur = pass_marks(chart, &cur, k, Ghost(g));
    }
    cur
}

fn bump(model: &mut Model, key: Vec<char>, delta: i64)
    requires
        model_wf(*old(model)),
    ensures
        model_wf(*final(model)),
        (final(model).key_list(), final(model).weights@) == bumped(
            old(model).key_list(),
            old(model).weights@,
            key@,
            delta,
        ),
        model_wf(*final(model)),
        final(model).bias == old(model).bias,
{
    let ghost keys = model.key_list();
    let mut i: usize = 0;
    while i < model.keys.len()
        invariant
            i <= model.keys@.len(),
            *model == *old(model),
            model_wf(*model),
            keys == model.key_list(),
            index_from(keys, key@, 0) == index_from(keys, key@, i as int),
            forall|k: int| 0 <= k < i ==> (#[trigger] model.keys@[k])@ != key@,
        decreases model.keys@.len() - i,
    {
        if same_chars(&model.keys[i], &key) {
            let w: i64 = add_within(model.weights[i], delta);
            model.weights.set(i, w);
            proof {
                assert(model.key_list() =~= keys);
                assert(model.keys@ == old(model).keys@);
            }
            return;
        }
        i = i + 1;
    }
    let ghost before = model.keys@;
    model.keys.push(key);
    model.weights.push(delta);
    proof {
        assert(model.key_list() =~= keys.push(key@));
        assert forall|a: int, b: int| 0 <= a < b < model.keys@.len() implies (
        #[trigger] model.keys@[a])@ != (#[trigger] model.keys@[b])@ by {
            if b < before.len() {
                assert(model.keys@[a] == before[a] && model.keys@[b] == before[b]);
            } else {
                assert(model.keys@[a] == before[a]);
            }
        }
    }
}

fn absorb(
    model: &mut Model,
    rules: &Vec<Rule>,
    chart: &Vec<Node>,
    marks: &Vec<bool>,
    Ghost(g): Ghost<Ground>,
)
    requires
        g.rules == rules@,
        chart_sound(chart@, g),
        marks@.len() == chart@.len(),
        model_wf(*old(model)),
    ensures
        (final(model).key_list(), final(model).weights@) == absorbed(
            rules@,
            chart@,
            marks@,
            old(model).key_list(),
            old(model).weights@,
            chart@.len() as nat,
        ),
        model_wf(*final(model)),
        final(model).bias == old(model).bias,
{
    let names = rule_names(rules);
    let mut k: usize = 0;
    while k < chart.len()
        invariant
            k <= chart@.len(),
            g.rules == rules@,
            chart_sound(chart@, g),
            marks@.len() == chart@.len(),
            names@.len() == rules@.len(),
            forall|i: int| 0 <= i < names@.len() ==> (#[trigger] names@[i])@ == rules@[i].name@,
            model_wf(*model),
            model.bias == old(model).bias,
            (model.key_list(), model.weights@) == absorbed(
                rules@,
                chart@,
                marks@,
                old(model).key_list(),
                old(model).weights@,
                k as nat,
            ),
        decreases chart@.len() - k,
    {
        let key = feature_of(&names, chart, k, Ghost(g));
        let delta: i64 = if marks[k] {
            UNIT
        } else {
            -UNIT
        };
        bump(model, key, delta);
        k = k + 1;
    }
}

/// Counts one example into the model. Gives `false`, and leaves the model
/// as it was, where no derivation of the text is on target.
pub fn learn(model: &mut Model, rules: &RuleSet, example: &Example, context: &ParsingContext) -> (ok:
    bool)
    requires
        rules.wf(),
        context.wf(),
        model_wf(*old(model)),
    ensures
        match learned(
            rules.rules@,
            rules.words,
            example.text@,
            example.target,
            context.reference.instant(),
            old(model).key_list(),
            old(model).weights@,
        ) {
            Some(next) => ok && (final(model).key_list(), final(model).weights@) == next,
            None => !ok && final(model).key_list() == old(model).key_list()
                && final(model).weights@ == old(model).weights@,
        },
        model_wf(*final(model)),
        final(model).bias == old(model).bias,
{
    let text = example.text.as_str();
    let chars = chars_of(text);
    let table = byte_offsets(text, &chars);
    let ghost g = Ground { rules: rules.rules@, chars: chars@, words: rules.words };
    let hits = scan(&rules.rules, text, &table, &chars, rules.words);
    let chart = build_chart(&rules.rules, &hits, &chars, rules.words);
    proof {
        crate::chart::lemma_nodes_wf(chart@, g);
    }
    let (marks, any) = mark_targets(&chart, chars.len(), &example.target, context);
    if !any {
        return false;
    }
    let all = spread(&chart, marks, Ghost(g));
    absorb(model, &rules.rules, &chart, &all, Ghost(g));
    true
}

/// Fits a model to the examples. Without `skip`, gives the place of the
/// first example that has no derivation on target, where there is one; with
/// it, passes over such examples.
pub fn train(
    rules: &RuleSet,
    examples: &Vec<Example>,
    context: &ParsingContext,
    skip: bool,
) -> (res: Result<Model, usize>)
    requires
        rules.wf(),
        context.wf(),
    ensures
        match trained(
            rules.rules@,
            rules.words,
            examples@,
            context.reference.instant(),
            skip,
            examples@.len() as nat,
        ) {
            Ok(m) => res matches Ok(model) && model.key_list() == m.0 && model.weights@ == m.1
                && model.bias == 0 && model_wf(model),
            Err(e) => res == Err::<Model, usize>(e),
        },
        skip ==> res is Ok,
{
    let mut model = Model::empty();
    let mut i: usize = 0;
    proof {
        assert(model.key_list() =~= Seq::<Seq<char>>::empty());
        assert(model.weights@ =~= Seq::<i64>::empty());
    }
    while i < examples.len()
        invariant
            i <= examples@.len(),
            rules.wf(),
            context.wf(),
            model.bias == 0,
            model_wf(model),
            trained(
                rules.rules@,
                rules.words,
                examples@,
                context.reference.instant(),
                skip,
                i as nat,
            ) == Ok::<(Seq<Seq<char>>, Seq<i64>), usize>((model.key_list(), model.weights@)),
        decreases examples@.len() - i,
    {
        if !learn(&mut model, rules, &examples[i], context) && !skip {
            proof {
                lemma_trained_fails(
                    rules.rules@,
                    rules.words,
                    examples@,
                    context.reference.instant(),
                    skip,
                    i as nat + 1,
                    examples@.len() as nat,
                );
            }
            return Err(i);
        }
        i = i + 1;
    }
    Ok(model)
}

/// Once an example has failed, training has failed with it.
pub proof fn lemma_trained_fails(
    rules: Seq<Rule>,
    words: bool,
    examples: Seq<Example>,
    r: int,
    skip: bool,
    n: nat,
    m: nat,
)
    requires
        n <= m <= examples.len(),
        trained(rules, words, examples, r, skip, n) is Err,
    ensures
        trained(rules, words, examples, r, skip, m) == trained(rules, words, examples, r, skip, n),
    decreases m,
{
    if n < m {
        lemma_trained_fails(rules, words, examples, r, skip, n, (m - 1) as nat);
    }
}

} // verus!
