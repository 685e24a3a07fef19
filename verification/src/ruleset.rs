//! Rule sets and their construction.

use vstd::prelude::*;
use crate::error::ParserError;
use crate::pattern::compiles;
use crate::pattern::regex_accepts;
use crate::rule::Matcher;
use crate::rule::Production;
use crate::rule::Rule;

verus! {

/// The rule with a pattern of one matcher.
pub open spec fn r1(name: &'static str, a: Matcher, production: Production) -> Rule {
    Rule {
        name,
        first: a,
        second: Matcher::Nothing,
        third: Matcher::Nothing,
        fourth: Matcher::Nothing,
        production,
    }
}

/// The rule with a pattern of two matchers.
pub open spec fn r2(name: &'static str, a: Matcher, b: Matcher, production: Production) -> Rule {
    Rule { name, first: a, second: b, third: Matcher::Nothing, fourth: Matcher::Nothing, production }
}

/// The rule with a pattern of three matchers.
pub open spec fn r3(
    name: &'static str,
    a: Matcher,
    b: Matcher,
    c: Matcher,
    production: Production,
) -> Rule {
    Rule { name, first: a, second: b, third: c, fourth: Matcher::Nothing, production }
}

/// The rule with a pattern of four matchers.
pub open spec fn r4(
    name: &'static str,
    a: Matcher,
    b: Matcher,
    c: Matcher,
    d: Matcher,
    production: Production,
) -> Rule {
    Rule { name, first: a, second: b, third: c, fourth: d, production }
}

/// The rule with a pattern of one matcher.
pub fn rule_1(name: &'static str, a: Matcher, production: Production) -> (r: Rule)
    ensures
        r == r1(name, a, production),
{
    Rule {
        name,
        first: a,
        second: Matcher::Nothing,
        third: Matcher::Nothing,
        fourth: Matcher::Nothing,
        production,
    }
}

/// The rule with a pattern of two matchers.
pub fn rule_2(name: &'static str, a: Matcher, b: Matcher, production: Production) -> (r: Rule)
    ensures
        r == r2(name, a, b, production),
{
    Rule { name, first: a, second: b, third: Matcher::Nothing, fourth: Matcher::Nothing, production }
}

/// The rule with a pattern of three matchers.
pub fn rule_3(
    name: &'static str,
    a: Matcher,
    b: Matcher,
    c: Matcher,
    production: Production,
) -> (r: Rule)
    ensures
        r == r3(name, a, b, c, production),
{
    Rule { name, first: a, second: b, third: c, fourth: Matcher::Nothing, production }
}

/// The rule with a pattern of four matchers.
pub fn rule_4(
    name: &'static str,
    a: Matcher,
    b: Matcher,
    c: Matcher,
    d: Matcher,
    production: Production,
) -> (r: Rule)
    ensures
        r == r4(name, a, b, c, d, production),
{
    Rule { name, first: a, second: b, third: c, fourth: d, production }
}

/// Whether the matcher at position `i` is a regular expression that the
/// regex engine refuses.
pub open spec fn refused_at(r: Rule, i: int) -> bool {
    match r.matcher(i) {
        Matcher::Text(p) => !regex_accepts(p@),
        _ => false,
    }
}

/// Whether a rule can stand at position `at` of a rule set, or the error
/// that says why not: its shape first, then its first refused expression.
pub open spec fn verdict(r: Rule, at: usize) -> Result<(), ParserError> {
    if !r.wf() {
        Err(ParserError::RuleShape { rule: at })
    } else if refused_at(r, 0) {
        Err(ParserError::RuleBuild { rule: at, matcher: 0 })
    } else if refused_at(r, 1) {
        Err(ParserError::RuleBuild { rule: at, matcher: 1 })
    } else if refused_at(r, 2) {
        Err(ParserError::RuleBuild { rule: at, matcher: 2 })
    } else if refused_at(r, 3) {
        Err(ParserError::RuleBuild { rule: at, matcher: 3 })
    } else {
        Ok(())
    }
}

/// Whether the first `k` rules of a catalogue can stand behind `base` rules.
pub open spec fn accepted_prefix(base: int, catalogue: Seq<Rule>, k: int) -> bool {
    forall|j: int| 0 <= j < k ==> verdict(#[trigger] catalogue[j], (base + j) as usize) is Ok
}

/// What registering a catalogue does: the rules up to the first that
/// cannot stand are appended, and the result is that rule's error, or `Ok`
/// where all were appended.
pub open spec fn registered(
    before: Seq<Rule>,
    catalogue: Seq<Rule>,
    after: Seq<Rule>,
    result: Result<(), ParserError>,
) -> bool {
    exists|k: int|
        0 <= k <= catalogue.len() && #[trigger] accepted_prefix(before.len() as int, catalogue, k)
            && after == before + catalogue.take(k) && if k == catalogue.len() {
            result == Ok::<(), ParserError>(())
        } else {
            result is Err && result == verdict(catalogue[k], (before.len() + k) as usize)
        }
}

/// Registering one catalogue and then, where that went well, another is
/// registering the two as one.
pub proof fn lemma_registered_then(
    a: Seq<Rule>,
    first: Seq<Rule>,
    b: Seq<Rule>,
    r1: Result<(), ParserError>,
    second: Seq<Rule>,
    c: Seq<Rule>,
    r2: Result<(), ParserError>,
)
    requires
        registered(a, first, b, r1),
        r1 is Ok ==> registered(b, second, c, r2),
    ensures
        r1 is Ok ==> registered(a, first + second, c, r2),
        r1 is Err ==> registered(a, first + second, b, r1),
{
    let both = first + second;
    let k1 = choose|k: int|
        0 <= k <= first.len() && #[trigger] accepted_prefix(a.len() as int, first, k) && b == a
            + first.take(k) && if k == first.len() {
            r1 == Ok::<(), ParserError>(())
        } else {
            r1 is Err && r1 == verdict(first[k], (a.len() + k) as usize)
        };
    if r1 is Ok {
        assert(k1 == first.len());
        assert(first.take(k1) =~= first);
        let k2 = choose|k: int|
            0 <= k <= second.len() && #[trigger] accepted_prefix(b.len() as int, second, k) && c
                == b + second.take(k) && if k == second.len() {
                r2 == Ok::<(), ParserError>(())
            } else {
                r2 is Err && r2 == verdict(second[k], (b.len() + k) as usize)
            };
        let k = k1 + k2;
        assert(accepted_prefix(a.len() as int, both, k)) by {
            assert forall|j: int| 0 <= j < k implies verdict(
                #[trigger] both[j],
                (a.len() + j) as usize,
            ) is Ok by {
                if j < k1 {
                    assert(both[j] == first[j]);
                } else {
                    assert(both[j] == second[j - k1]);
                    assert(verdict(second[j - k1], (b.len() + (j - k1)) as usize) is Ok);
                }
            }
        }
        assert(c =~= a + both.take(k));
        if k2 < second.len() {
            assert(both[k] == second[k2]);
        }
    } else {
        assert(accepted_prefix(a.len() as int, both, k1)) by {
            assert forall|j: int| 0 <= j < k1 implies verdict(
                #[trigger] both[j],
                (a.len() + j) as usize,
            ) is Ok by {
                assert(both[j] == first[j]);
            }
        }
        assert(both.take(k1) =~= first.take(k1));
        assert(both[k1] == first[k1]);
    }
}

/// Whether the pattern of every rule is well formed.
pub open spec fn rules_wf(rules: Seq<Rule>) -> bool {
    forall|i: int| 0 <= i < rules.len() ==> (#[trigger] rules[i]).wf()
}

/// A set of rules under construction. With `words`, the matches of regular
/// expressions must stand between words.
pub struct RuleSetBuilder {
    pub rules: Vec<Rule>,
    pub words: bool,
}

/// A set of rules, ready for parsing.
pub struct RuleSet {
    pub rules: Vec<Rule>,
    pub words: bool,
}

fn refuses(m: Matcher) -> (r: bool)
    ensures
        r == match m {
            Matcher::Text(p) => !regex_accepts(p@),
            _ => false,
        },
{
    match m {
        Matcher::Text(p) => !compiles(p),
        _ => false,
    }
}

impl RuleSetBuilder {
    /// Whether the pattern of every rule is well formed.
    pub open spec fn wf(&self) -> bool {
        rules_wf(self.rules@)
    }

    /// The empty rule set.
    pub fn new(words: bool) -> (b: RuleSetBuilder)
        ensures
            b.rules@.len() == 0,
            b.words == words,
            b.wf(),
    {
        RuleSetBuilder { rules: Vec::new(), words }
    }

    /// Appends a rule, where its pattern is well formed and the regex engine
    /// accepts its regular expressions.
    pub fn rule(&mut self, r: Rule) -> (res: Result<(), ParserError>)
        requires
            old(self).wf(),
        ensures
            res == verdict(r, old(self).rules@.len() as usize),
            res is Ok ==> final(self).rules@ == old(self).rules@.push(r),
            res is Err ==> final(self).rules@ == old(self).rules@,
            final(self).words == old(self).words,
            final(self).wf(),
    {
        let at: usize = self.rules.len();
        if !r.is_well_formed() {
            return Err(ParserError::RuleShape { rule: at });
        }
        if refuses(r.get(0)) {
            return Err(ParserError::RuleBuild { rule: at, matcher: 0 });
        }
        if refuses(r.get(1)) {
            return Err(ParserError::RuleBuild { rule: at, matcher: 1 });
        }
        if refuses(r.get(2)) {
            return Err(ParserError::RuleBuild { rule: at, matcher: 2 });
        }
        if refuses(r.get(3)) {
            return Err(ParserError::RuleBuild { rule: at, matcher: 3 });
        }
        self.rules.push(r);
        Ok(())
    }

    /// Appends the rules of a catalogue in order, up to the first that
    /// cannot stand.
    pub fn add_all(&mut self, catalogue: &Vec<Rule>) -> (res: Result<(), ParserError>)
        requires
            old(self).wf(),
        ensures
            registered(old(self).rules@, catalogue@, final(self).rules@, res),
            final(self).words == old(self).words,
            final(self).wf(),
    {
        let ghost before = self.rules@;
        let mut i: usize = 0;
        proof {
            assert(before + catalogue@.take(0) =~= before);
        }
        while i < catalogue.len()
            invariant
                i <= catalogue@.len(),
                self.wf(),
                self.words == old(self).words,
                before == old(self).rules@,
                accepted_prefix(before.len() as int, catalogue@, i as int),
                self.rules@ == before + catalogue@.take(i as int),
            decreases catalogue@.len() - i,
        {
            let r = catalogue[i];
            match self.rule(r) {
                Ok(()) => {
                    proof {
                        assert(before + catalogue@.take(i as int + 1) =~= (before
                            + catalogue@.take(i as int)).push(r));
                    }
                },
                Err(e) => {
                    return Err(e);
                },
            }
            i = i + 1;
        }
        proof {
            assert(accepted_prefix(before.len() as int, catalogue@, catalogue@.len() as int));
        }
        Ok(())
    }

    /// The rule set with the rules registered so far.
    pub fn build(self) -> (s: RuleSet)
        requires
            self.wf(),
        ensures
            s.rules@ == self.rules@,
            s.words == self.words,
            s.wf(),
    {
        RuleSet { rules: self.rules, words: self.words }
    }
}

impl RuleSet {
    /// Whether the pattern of every rule is well formed.
    pub open spec fn wf(&self) -> bool {
        rules_wf(self.rules@)
    }
}

} // verus!
