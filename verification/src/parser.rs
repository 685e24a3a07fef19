//! Parsers: a set of rules and a model, and the parse of a text.

use vstd::prelude::*;
use crate::chart::build_chart;
use crate::chart::chart_of;
use crate::chart::scan;
use crate::chart::Ground;
use crate::dimension::Dimension;
use crate::dimension::DimensionKind;
use crate::error::ParserError;
use crate::output::resolved;
use crate::output::Output;
use crate::output::ParsingContext;
use crate::ranker::score_chart;
use crate::ranker::scores_of;
use crate::ranker::check_model;
use crate::ranker::fault_at;
use crate::ranker::model_wf;
use crate::ranker::Model;
use crate::rule::Rule;
use crate::rules::en;
use crate::rules::ko;
use crate::ruleset::accepted_prefix;
use crate::ruleset::lemma_registered_then;
use crate::ruleset::registered;
use crate::ruleset::verdict;
use crate::ruleset::RuleSet;
use crate::ruleset::RuleSetBuilder;
use crate::select::apart;
use crate::select::gather;
use crate::select::gathered;
use crate::select::pick;
use crate::select::picked;
use crate::select::ranges_agree;
use crate::select::ranges_overlap;
use crate::select::settle_all;
use crate::select::settled;
use crate::select::ParserMatch;
use crate::text::byte_offsets;
use crate::train::train;
use crate::train::trained;
use crate::train::Example;
use crate::text::chars_of;
use crate::text::same_chars;

verus! {

/// The languages.
#[derive(Clone, Copy, Debug, PartialEq, Eq, Structural)]
pub enum Lang {
    EN,
    FR,
    ES,
    KO,
}

/// The rules of a language in the order in which they are registered, for
/// the languages that have a catalogue.
pub open spec fn catalogue(lang: Lang) -> Option<Seq<Rule>> {
    match lang {
        Lang::KO => Some(
            ko::number_rules() + ko::time_rules() + ko::duration_rules() + ko::cycle_rules(),
        ),
        Lang::EN => Some(en::number_rules()),
        _ => None,
    }
}

/// Whether the matches of a language's regular expressions must stand
/// between words.
pub open spec fn between_words(lang: Lang) -> bool {
    lang == Lang::EN
}

/// Whether some rule of the catalogue cannot stand, the first such being
/// refused with the given error.
pub open spec fn refusal(rules: Seq<Rule>, e: ParserError) -> bool {
    exists|k: int|
        0 <= k < rules.len() && #[trigger] accepted_prefix(0, rules, k) && verdict(
            rules[k],
            k as usize,
        ) == Err::<(), ParserError>(e)
}

/// A parser that hands out values as the grammar made them.
pub struct RawParser {
    pub rules: RuleSet,
    pub model: Model,
}

/// A parser that hands out values resolved against a reference.
pub struct Parser(pub RawParser);

/// The matches of a text before resolution: those of the derivations in the
/// chart that are of a kind asked for, and with `remove` those among them
/// that are kept when overlaps are removed.
pub open spec fn raw_matches(
    rules: Seq<Rule>,
    words: bool,
    keys: Seq<Seq<char>>,
    weights: Seq<i64>,
    bias: i64,
    text: Seq<char>,
    order: Seq<DimensionKind>,
    remove: bool,
) -> Seq<ParserMatch<Dimension>> {
    let chart = chart_of(Ground { rules, chars: text, words });
    let scores = scores_of(keys, weights, rules, chart, chart.len());
    let c = gathered(chart, scores, order, rules, chart.len());
    picked(c, settled(c), remove, chart, bias, text, c.len())
}

/// The first `n` matches with their values resolved at reference instant
/// `r`; a match whose value resolves to nothing is left out.
pub open spec fn translated(raw: Seq<ParserMatch<Dimension>>, r: int, n: nat) -> Seq<
    ParserMatch<Output>,
>
    decreases n,
{
    if n == 0 || n > raw.len() {
        Seq::empty()
    } else {
        let before = translated(raw, r, (n - 1) as nat);
        let m = raw[n - 1];
        match resolved(m.value, r) {
            Some(o) => before.push(
                ParserMatch {
                    byte_range: m.byte_range,
                    char_range: m.char_range,
                    value: o,
                    probalog: m.probalog,
                    latent: m.latent,
                },
            ),
            None => before,
        }
    }
}

/// Whether one of the first `i` matches covers the given bytes.
pub open spec fn covered_by(range: (usize, usize), raw: Seq<ParserMatch<Dimension>>, i: int) -> bool {
    exists|j: int| 0 <= j < i && (#[trigger] raw[j]).byte_range == range
}

impl RawParser {
    /// Whether the patterns of the rules are well formed.
    pub open spec fn wf(&self) -> bool {
        self.rules.wf()
    }

    /// The matches of the text, unresolved.
    pub fn parse_with_kind_order(
        &self,
        input: &str,
        order: &Vec<DimensionKind>,
        remove_overlap: bool,
    ) -> (m: Vec<ParserMatch<Dimension>>)
        requires
            self.wf(),
        ensures
            m@ == raw_matches(
                self.rules.rules@,
                self.rules.words,
                self.model.key_list(),
                self.model.weights@,
                self.model.bias,
                input@,
                order@,
                remove_overlap,
            ),
            ranges_agree(m@, input@),
            remove_overlap ==> apart(m@),
            forall|i: int|
                0 <= i < m@.len() ==> (#[trigger] m@[i]).value.wf() && m@[i].latent
                    == m@[i].value.is_latent(),
    {
        let chars = chars_of(input);
        let table = byte_offsets(input, &chars);
        let ghost g = Ground { rules: self.rules.rules@, chars: chars@, words: self.rules.words };
        let hits = scan(&self.rules.rules, input, &table, &chars, self.rules.words);
        let chart = build_chart(&self.rules.rules, &hits, &chars, self.rules.words);
        let scores = score_chart(&self.model, &self.rules.rules, &chart, Ghost(g));
        proof {
            crate::chart::lemma_nodes_rules(chart@, g);
            crate::chart::lemma_nodes_wf(chart@, g);
        }
        let c = gather(&chart, &scores, order, &self.rules.rules);
        proof {
            assert forall|i: int| 0 <= i < c@.len() implies (#[trigger] c@[i]).start
                <= c@[i].end by {
                assert(c@[i].node < chart@.len());
            }
        }
        proof {
            assert(crate::select::in_order(c@));
        }
        let state = settle_all(&c);
        pick(&c, &state, remove_overlap, &chart, self.model.bias, &table, Ghost(chars@))
    }

    /// The matches of the text of every kind, unresolved.
    pub fn parse(&self, input: &str, remove_overlap: bool) -> (m: Vec<ParserMatch<Dimension>>)
        requires
            self.wf(),
        ensures
            m@ == raw_matches(
                self.rules.rules@,
                self.rules.words,
                self.model.key_list(),
                self.model.weights@,
                self.model.bias,
                input@,
                DimensionKind::every(),
                remove_overlap,
            ),
            ranges_agree(m@, input@),
            remove_overlap ==> apart(m@),
            forall|i: int|
                0 <= i < m@.len() ==> (#[trigger] m@[i]).value.wf() && m@[i].latent
                    == m@[i].value.is_latent(),
    {
        let order = DimensionKind::all();
        self.parse_with_kind_order(input, &order, remove_overlap)
    }
}

impl Parser {
    /// Whether the patterns of the rules are well formed.
    pub open spec fn wf(&self) -> bool {
        self.0.wf()
    }

    /// The matches of a text: the unresolved matches, resolved against the
    /// reference of the context.
    pub open spec fn matches(
        &self,
        text: Seq<char>,
        context: ParsingContext,
        order: Seq<DimensionKind>,
        remove: bool,
    ) -> Seq<ParserMatch<Output>> {
        let raw = raw_matches(
            self.0.rules.rules@,
            self.0.rules.words,
            self.0.model.key_list(),
            self.0.model.weights@,
            self.0.model.bias,
            text,
            order,
            remove,
        );
        translated(raw, context.reference.instant(), raw.len())
    }

    /// Resolves the values of matches; a match whose value resolves to
    /// nothing is left out.
    fn translate_values(
        input: Vec<ParserMatch<Dimension>>,
        context: &ParsingContext,
        Ghost(text): Ghost<Seq<char>>,
    ) -> (out: Vec<ParserMatch<Output>>)
        requires
            context.wf(),
            forall|i: int|
                0 <= i < input@.len() ==> (#[trigger] input@[i]).value.wf() && input@[i].latent
                    == input@[i].value.is_latent(),
        ensures
            out@ == translated(input@, context.reference.instant(), input@.len()),
            ranges_agree(input@, text) ==> ranges_agree(out@, text),
            apart(input@) ==> apart(out@),
            forall|i: int| 0 <= i < out@.len() ==> !(#[trigger] out@[i]).latent,
    {
        let mut out: Vec<ParserMatch<Output>> = Vec::new();
        let mut i: usize = 0;
        let ghost r = context.reference.instant();
        while i < input.len()
            invariant
                i <= input@.len(),
                context.wf(),
                r == context.reference.instant(),
                forall|k: int|
                    0 <= k < input@.len() ==> (#[trigger] input@[k]).value.wf() && input@[k].latent
                        == input@[k].value.is_latent(),
                out@ == translated(input@, r, i as nat),
                ranges_agree(input@, text) ==> ranges_agree(out@, text),
                apart(input@) ==> apart(out@),
                forall|k: int| 0 <= k < out@.len() ==> !(#[trigger] out@[k]).latent,
                forall|k: int|
                    0 <= k < out@.len() ==> covered_by((#[trigger] out@[k]).byte_range, input@, i as int),
            decreases input@.len() - i,
        {
            let ghost before = out@;
            let pm = &input[i];
            match context.resolve(&pm.value) {
                Some(o) => {
                    let found = ParserMatch {
                        byte_range: pm.byte_range,
                        char_range: pm.char_range,
                        value: o,
                        probalog: pm.probalog,
                        latent: pm.latent,
                    };
                    proof {
                        crate::output::lemma_resolved_not_latent(pm.value, r);
                        if apart(input@) {
                            assert forall|k: int| 0 <= k < before.len() implies !ranges_overlap(
                                (#[trigger] before[k]).byte_range,
                                found.byte_range,
                            ) && !ranges_overlap(found.byte_range, before[k].byte_range) by {
                                assert(covered_by(before[k].byte_range, input@, i as int));
                                let j = choose|j: int|
                                    0 <= j < i && (#[trigger] input@[j]).byte_range
                                        == before[k].byte_range;
                                assert(!ranges_overlap(input@[j].byte_range, input@[i as int].byte_range));
                                assert(!ranges_overlap(input@[i as int].byte_range, input@[j].byte_range));
                            }
                        }
                    }
                    out.push(found);
                    proof {
                        assert(input@[i as int].byte_range == found.byte_range);
                        assert(covered_by(found.byte_range, input@, i + 1));
                        if apart(input@) {
                            assert forall|x: int, y: int|
                                0 <= x < out@.len() && 0 <= y < out@.len() && x != y implies !ranges_overlap(
                                (#[trigger] out@[x]).byte_range,
                                (#[trigger] out@[y]).byte_range,
                            ) by {
                                if x < before.len() && y < before.len() {
                                    assert(out@[x] == before[x] && out@[y] == before[y]);
                                } else if x < before.len() {
                                    assert(out@[x] == before[x]);
                                } else {
                                    assert(out@[y] == before[y]);
                                }
                            }
                        }
                        if ranges_agree(input@, text) {
                            assert forall|k: int| 0 <= k < out@.len() implies {
                                &&& (#[trigger] out@[k]).char_range.0 <= out@[k].char_range.1
                                    <= text.len()
                                &&& out@[k].byte_range.0 == crate::text::byte_offset(
                                    text,
                                    out@[k].char_range.0 as int,
                                )
                                &&& out@[k].byte_range.1 == crate::text::byte_offset(
                                    text,
                                    out@[k].char_range.1 as int,
                                )
                            } by {
                                if k < before.len() {
                                    assert(out@[k] == before[k]);
                                } else {
                                    assert(out@[k].char_range == input@[i as int].char_range);
                                }
                            }
                        }
                    }
                },
                None => {},
            }
            proof {
                assert forall|k: int| 0 <= k < out@.len() implies covered_by(
                    (#[trigger] out@[k]).byte_range,
                    input@,
                    i + 1,
                ) by {
                    if k < before.len() {
                        assert(out@[k] == before[k]);
                        assert(covered_by(before[k].byte_range, input@, i as int));
                        let j = choose|j: int|
                            0 <= j < i && (#[trigger] input@[j]).byte_range == before[k].byte_range;
                        assert(0 <= j < i + 1 && input@[j].byte_range == out@[k].byte_range);
                    }
                }
            }
            i = i + 1;
        }
        out
    }

    /// Parses a text for values of the kinds given, the earlier kind being
    /// preferred among derivations that are otherwise equal. With
    /// `remove_overlap`, no two matches that come back share a byte.
    pub fn parse_with_kind_order(
        &self,
        input: &str,
        context: &ParsingContext,
        order: &Vec<DimensionKind>,
        remove_overlap: bool,
    ) -> (res: Result<Vec<ParserMatch<Output>>, ParserError>)
        requires
            self.wf(),
            context.wf(),
        ensures
            res matches Ok(m) && m@ == self.matches(input@, *context, order@, remove_overlap)
                && ranges_agree(m@, input@) && (remove_overlap ==> apart(m@)) && forall|i: int|
                0 <= i < m@.len() ==> !(#[trigger] m@[i]).latent,
    {
        let raw = self.0.parse_with_kind_order(input, order, remove_overlap);
        Ok(Self::translate_values(raw, context, Ghost(input@)))
    }

    /// Parses a text for values of every kind.
    pub fn parse(&self, input: &str, context: &ParsingContext, remove_overlap: bool) -> (res: Result<
        Vec<ParserMatch<Output>>,
        ParserError,
    >)
        requires
            self.wf(),
            context.wf(),
        ensures
            res matches Ok(m) && m@ == self.matches(
                input@,
                *context,
                DimensionKind::every(),
                remove_overlap,
            ) && ranges_agree(m@, input@) && (remove_overlap ==> apart(m@)) && forall|i: int|
                0 <= i < m@.len() ==> !(#[trigger] m@[i]).latent,
    {
        let raw = self.0.parse(input, remove_overlap);
        Ok(Self::translate_values(raw, context, Ghost(input@)))
    }
}

/// The rule set of a language.
pub fn build_rules(lang: Lang) -> (res: Result<RuleSet, ParserError>)
    ensures
        match catalogue(lang) {
            None => res == Err::<RuleSet, ParserError>(ParserError::Language),
            Some(rules) => match res {
                Ok(s) => s.rules@ == rules && s.words == between_words(lang) && s.wf()
                    && accepted_prefix(0, rules, rules.len() as int),
                Err(e) => refusal(rules, e),
            },
        },
{
    match lang {
        Lang::KO => {
            let mut b = RuleSetBuilder::new(false);
            let ghost s0 = b.rules@;
            let r1 = ko::rules_numbers(&mut b);
            let ghost s1 = b.rules@;
            if r1.is_err() {
                proof {
                    let rest = ko::time_rules() + ko::duration_rules() + ko::cycle_rules();
                    lemma_registered_then(s0, ko::number_rules(), s1, r1, rest, s1, r1);
                    assert(ko::number_rules() + rest =~= catalogue(lang)->0);
                    lemma_refusal(s1, catalogue(lang)->0, r1);
                }
                return Err(r1.unwrap_err());
            }
            let r2 = ko::rule_time(&mut b);
            let ghost s2 = b.rules@;
            proof {
                lemma_registered_then(s0, ko::number_rules(), s1, r1, ko::time_rules(), s2, r2);
            }
            if r2.is_err() {
                proof {
                    let first = ko::number_rules() + ko::time_rules();
                    let rest = ko::duration_rules() + ko::cycle_rules();
                    lemma_registered_then(s0, first, s2, r2, rest, s2, r2);
                    assert(first + rest =~= catalogue(lang)->0);
                    lemma_refusal(s2, catalogue(lang)->0, r2);
                }
                return Err(r2.unwrap_err());
            }
            let r3 = ko::rules_duration(&mut b);
            let ghost s3 = b.rules@;
            proof {
                lemma_registered_then(
                    s0,
                    ko::number_rules() + ko::time_rules(),
                    s2,
                    r2,
                    ko::duration_rules(),
                    s3,
                    r3,
                );
            }
            if r3.is_err() {
                proof {
                    let first = ko::number_rules() + ko::time_rules() + ko::duration_rules();
                    lemma_registered_then(s0, first, s3, r3, ko::cycle_rules(), s3, r3);
                    lemma_refusal(s3, catalogue(lang)->0, r3);
                }
                return Err(r3.unwrap_err());
            }
            let r4 = ko::rules_cycle(&mut b);
            let ghost s4 = b.rules@;
            proof {
                lemma_registered_then(
                    s0,
                    ko::number_rules() + ko::time_rules() + ko::duration_rules(),
                    s3,
                    r3,
                    ko::cycle_rules(),
                    s4,
                    r4,
                );
                lemma_refusal(s4, catalogue(lang)->0, r4);
            }
            if r4.is_err() {
                return Err(r4.unwrap_err());
            }
            Ok(b.build())
        },
        Lang::EN => {
            let mut b = RuleSetBuilder::new(true);
            let r1 = en::rules_numbers(&mut b);
            proof {
                lemma_refusal(b.rules@, catalogue(lang)->0, r1);
            }
            if r1.is_err() {
                return Err(r1.unwrap_err());
            }
            Ok(b.build())
        },
        _ => Err(ParserError::Language),
    }
}

/// What registering a catalogue in an empty rule set comes to.
pub proof fn lemma_refusal(after: Seq<Rule>, rules: Seq<Rule>, res: Result<(), ParserError>)
    requires
        registered(Seq::empty(), rules, after, res),
    ensures
        res is Ok ==> after == rules && accepted_prefix(0, rules, rules.len() as int),
        res matches Err(e) ==> refusal(rules, e),
{
    let k = choose|k: int|
        0 <= k <= rules.len() && #[trigger] accepted_prefix(0, rules, k) && after == Seq::<
            Rule,
        >::empty() + rules.take(k) && if k == rules.len() {
            res == Ok::<(), ParserError>(())
        } else {
            res is Err && res == verdict(rules[k], (0 + k) as usize)
        };
    if res is Ok {
        assert(rules.take(k) =~= rules);
        assert(after =~= rules);
    }
}

/// Obtains the unresolving parser of a language with the given model.
pub fn build_raw_parser(lang: Lang, model: Model) -> (res: Result<RawParser, ParserError>)
    ensures
        match catalogue(lang) {
            None => res == Err::<RawParser, ParserError>(ParserError::Language),
            Some(rules) => match res {
                Ok(p) => p.rules.rules@ == rules && p.rules.words == between_words(lang)
                    && p.model == model && p.wf() && model_wf(model) && accepted_prefix(
                    0,
                    rules,
                    rules.len() as int,
                ),
                Err(ParserError::ModelLoad { entry }) => !model_wf(model) && entry
                    <= model.keys@.len() && (forall|i: int|
                    0 <= i < entry ==> !fault_at(model, i)) && (entry < model.keys@.len()
                    ==> fault_at(model, entry as int)),
                Err(e) => model_wf(model) && refusal(rules, e),
            },
        },
{
    match lang {
        Lang::KO | Lang::EN => {},
        _ => {
            return Err(ParserError::Language);
        },
    }
    match check_model(&model) {
        Some(entry) => {
            return Err(ParserError::ModelLoad { entry });
        },
        None => {},
    }
    match build_rules(lang) {
        Ok(rules) => Ok(RawParser { rules, model }),
        Err(e) => {
            proof {
                lemma_refusal_kind(catalogue(lang)->0, e);
            }
            Err(e)
        },
    }
}

/// A rule is refused for its shape or for a regular expression.
pub proof fn lemma_refusal_kind(rules: Seq<Rule>, e: ParserError)
    requires
        refusal(rules, e),
    ensures
        e is RuleBuild || e is RuleShape,
{
}

/// Obtains the parser of a language with the given model.
pub fn build_parser(lang: Lang, model: Model) -> (res: Result<Parser, ParserError>)
    ensures
        match catalogue(lang) {
            None => res == Err::<Parser, ParserError>(ParserError::Language),
            Some(rules) => match res {
                Ok(p) => p.0.rules.rules@ == rules && p.0.rules.words == between_words(lang)
                    && p.0.model == model && p.wf() && model_wf(model) && accepted_prefix(
                    0,
                    rules,
                    rules.len() as int,
                ),
                Err(ParserError::ModelLoad { entry }) => !model_wf(model) && entry
                    <= model.keys@.len() && (forall|i: int|
                    0 <= i < entry ==> !fault_at(model, i)) && (entry < model.keys@.len()
                    ==> fault_at(model, entry as int)),
                Err(e) => model_wf(model) && refusal(rules, e),
            },
        },
{
    match build_raw_parser(lang, model) {
        Ok(raw) => Ok(Parser(raw)),
        Err(e) => Err(e),
    }
}

/// Obtains the parser of a language with a model fitted to the examples,
/// each resolved against the reference of the context. An example that no
/// derivation of its text resolves to is passed over with `skip`, and
/// without it is an error.
pub fn train_parser(
    lang: Lang,
    examples: &Vec<Example>,
    context: &ParsingContext,
    skip: bool,
) -> (res: Result<Parser, ParserError>)
    requires
        context.wf(),
    ensures
        match catalogue(lang) {
            None => res == Err::<Parser, ParserError>(ParserError::Language),
            Some(rules) => match res {
                Ok(p) => p.0.rules.rules@ == rules && p.0.rules.words == between_words(lang)
                    && p.wf() && accepted_prefix(0, rules, rules.len() as int) && p.0.model.bias
                    == 0 && model_wf(p.0.model) && trained(
                    rules,
                    between_words(lang),
                    examples@,
                    context.reference.instant(),
                    skip,
                    examples@.len() as nat,
                ) == Ok::<(Seq<Seq<char>>, Seq<i64>), usize>(
                    (p.0.model.key_list(), p.0.model.weights@),
                ),
                Err(ParserError::Training { example }) => !skip && accepted_prefix(
                    0,
                    rules,
                    rules.len() as int,
                ) && trained(
                    rules,
                    between_words(lang),
                    examples@,
                    context.reference.instant(),
                    skip,
                    examples@.len() as nat,
                ) == Err::<(Seq<Seq<char>>, Seq<i64>), usize>(example),
                Err(e) => refusal(rules, e),
            },
        },
{
    match build_rules(lang) {
        Ok(rules) => match train(&rules, examples, context, skip) {
            Ok(model) => Ok(Parser(RawParser { rules, model })),
            Err(example) => Err(ParserError::Training { example }),
        },
        Err(e) => {
            proof {
                if catalogue(lang) is Some {
                    lemma_refusal_kind(catalogue(lang)->0, e);
                }
            }
            Err(e)
        },
    }
}

/// Parsing is a function of its arguments: parsers with the same rules and
/// the same model give the same matches for the same text, context, kinds
/// and choice on overlaps.
pub proof fn lemma_parse_deterministic(
    p: Parser,
    q: Parser,
    text: Seq<char>,
    context: ParsingContext,
    order: Seq<DimensionKind>,
    remove: bool,
)
    requires
        p.0.rules.rules@ == q.0.rules.rules@,
        p.0.rules.words == q.0.rules.words,
        p.0.model.key_list() == q.0.model.key_list(),
        p.0.model.weights@ == q.0.model.weights@,
        p.0.model.bias == q.0.model.bias,
    ensures
        p.matches(text, context, order, remove) == q.matches(text, context, order, remove),
{
}

} // verus!
