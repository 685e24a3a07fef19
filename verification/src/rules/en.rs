//! The rules of English for numbers.

use vstd::prelude::*;
use crate::error::ParserError;
use crate::grain::Grain;
use crate::rule::Matcher;
use crate::rule::Production;
use crate::rule::Rule;
use crate::rule::TimeFilter;
use crate::rule::WordTable;
use crate::ruleset::r1;
use crate::ruleset::r2;
use crate::ruleset::r3;
use crate::ruleset::r4;
use crate::ruleset::registered;
use crate::ruleset::rule_1;
use crate::ruleset::rule_2;
use crate::ruleset::rule_3;
use crate::ruleset::rule_4;
use crate::ruleset::RuleSetBuilder;
use crate::time::Direction;

verus! {

/// The rules for numbers written as words.
pub open spec fn number_words() -> Seq<Rule> {
    seq![
        r1(
            "integer (0..19)",
            Matcher::Text("(zero|one|two|three|fourteen|four|five|sixteen|six|seventeen|seven|eighteen|eight|nineteen|nine|ten|eleven|twelve|thirteen|fifteen)"),
            Production::NumberWord { child: 0, group: 1, table: WordTable::EnglishUnits },
        ),
        r1(
            "integer (20..90)",
            Matcher::Text("(twenty|thirty|fou?rty|fifty|sixty|seventy|eighty|ninety)"),
            Production::NumberWord { child: 0, group: 1, table: WordTable::EnglishTens },
        ),
        r1(
            "hundred",
            Matcher::Text("hundreds?"),
            Production::Magnitude { value: 100, power: 2 },
        ),
        r1(
            "thousand",
            Matcher::Text("thousands?"),
            Production::Magnitude { value: 1000, power: 3 },
        ),
        r1(
            "million",
            Matcher::Text("millions?"),
            Production::Magnitude { value: 1000000, power: 6 },
        ),
        r2(
            "integer 21..99",
            Matcher::RoundInteger { min: 10, max: 90 },
            Matcher::Integer { min: 1, max: 9 },
            Production::Sum { left: 0, right: 1 },
        ),
        r3(
            "integer 21..99",
            Matcher::RoundInteger { min: 10, max: 90 },
            Matcher::Text("-"),
            Matcher::Integer { min: 1, max: 9 },
            Production::Sum { left: 0, right: 2 },
        ),
        r2(
            "number hundreds",
            Matcher::Integer { min: 1, max: 99 },
            Matcher::Integer { min: 100, max: 100 },
            Production::Product { left: 0, right: 1 },
        ),
        r2(
            "number thousands",
            Matcher::Integer { min: 1, max: 999 },
            Matcher::Integer { min: 1000, max: 1000 },
            Production::Product { left: 0, right: 1 },
        ),
        r2(
            "number millions",
            Matcher::Integer { min: 1, max: 999 },
            Matcher::Integer { min: 1000000, max: 1000000 },
            Production::Product { left: 0, right: 1 },
        ),
        r2(
            "intersect",
            Matcher::Integer { min: i64::MIN, max: i64::MAX },
            Matcher::Integer { min: i64::MIN, max: i64::MAX },
            Production::Compose { left: 0, right: 1 },
        ),
        r3(
            "intersect (with and)",
            Matcher::Integer { min: i64::MIN, max: i64::MAX },
            Matcher::Text("and"),
            Matcher::Integer { min: i64::MIN, max: i64::MAX },
            Production::Compose { left: 0, right: 2 },
        ),
    ]
}

fn number_words_list() -> (v: Vec<Rule>)
    ensures
        v@ == number_words(),
{
    let mut v: Vec<Rule> = Vec::new();
    v.push(rule_1(
        "integer (0..19)",
        Matcher::Text("(zero|one|two|three|fourteen|four|five|sixteen|six|seventeen|seven|eighteen|eight|nineteen|nine|ten|eleven|twelve|thirteen|fifteen)"),
        Production::NumberWord { child: 0, group: 1, table: WordTable::EnglishUnits },
    ));
    v.push(rule_1(
        "integer (20..90)",
        Matcher::Text("(twenty|thirty|fou?rty|fifty|sixty|seventy|eighty|ninety)"),
        Production::NumberWord { child: 0, group: 1, table: WordTable::EnglishTens },
    ));
    v.push(rule_1(
        "hundred",
        Matcher::Text("hundreds?"),
        Production::Magnitude { value: 100, power: 2 },
    ));
    v.push(rule_1(
        "thousand",
        Matcher::Text("thousands?"),
        Production::Magnitude { value: 1000, power: 3 },
    ));
    v.push(rule_1(
        "million",
        Matcher::Text("millions?"),
        Production::Magnitude { value: 1000000, power: 6 },
    ));
    v.push(rule_2(
        "integer 21..99",
        Matcher::RoundInteger { min: 10, max: 90 },
        Matcher::Integer { min: 1, max: 9 },
        Production::Sum { left: 0, right: 1 },
    ));
    v.push(rule_3(
        "integer 21..99",
        Matcher::RoundInteger { min: 10, max: 90 },
        Matcher::Text("-"),
        Matcher::Integer { min: 1, max: 9 },
        Production::Sum { left: 0, right: 2 },
    ));
    v.push(rule_2(
        "number hundreds",
        Matcher::Integer { min: 1, max: 99 },
        Matcher::Integer { min: 100, max: 100 },
        Production::Product { left: 0, right: 1 },
    ));
    v.push(rule_2(
        "number thousands",
        Matcher::Integer { min: 1, max: 999 },
        Matcher::Integer { min: 1000, max: 1000 },
        Production::Product { left: 0, right: 1 },
    ));
    v.push(rule_2(
        "number millions",
        Matcher::Integer { min: 1, max: 999 },
        Matcher::Integer { min: 1000000, max: 1000000 },
        Production::Product { left: 0, right: 1 },
    ));
    v.push(rule_2(
        "intersect",
        Matcher::Integer { min: i64::MIN, max: i64::MAX },
        Matcher::Integer { min: i64::MIN, max: i64::MAX },
        Production::Compose { left: 0, right: 1 },
    ));
    v.push(rule_3(
        "intersect (with and)",
        Matcher::Integer { min: i64::MIN, max: i64::MAX },
        Matcher::Text("and"),
        Matcher::Integer { min: i64::MIN, max: i64::MAX },
        Production::Compose { left: 0, right: 2 },
    ));
    v
}

/// The rules for numbers written in digits, and for signs.
pub open spec fn number_digits() -> Seq<Rule> {
    seq![
        r1(
            "integer (numeric)",
            Matcher::Text("(\\d{1,18})"),
            Production::IntegerText { child: 0, group: 1, separated: false },
        ),
        r1(
            "integer with thousands separator ,",
            Matcher::Text("(\\d{1,3}(,\\d\\d\\d){1,5})"),
            Production::IntegerText { child: 0, group: 1, separated: true },
        ),
        r1(
            "decimal number",
            Matcher::Text("(\\d*\\.\\d+)"),
            Production::DecimalText { child: 0, group: 1, separated: false },
        ),
        r1(
            "decimal with thousands separator",
            Matcher::Text("(\\d+(,\\d\\d\\d)+\\.\\d+)"),
            Production::DecimalText { child: 0, group: 1, separated: true },
        ),
        r2(
            "numbers prefix with -, negative or minus",
            Matcher::Text("-|minus\\s?|negative\\s?"),
            Matcher::Unprefixed,
            Production::Negative { child: 1 },
        ),
        r3(
            "fraction",
            Matcher::Unprefixed,
            Matcher::Text("/"),
            Matcher::Unsuffixed,
            Production::Quotient { top: 0, bottom: 2 },
        ),
    ]
}

fn number_digits_list() -> (v: Vec<Rule>)
    ensures
        v@ == number_digits(),
{
    let mut v: Vec<Rule> = Vec::new();
    v.push(rule_1(
        "integer (numeric)",
        Matcher::Text("(\\d{1,18})"),
        Production::IntegerText { child: 0, group: 1, separated: false },
    ));
    v.push(rule_1(
        "integer with thousands separator ,",
        Matcher::Text("(\\d{1,3}(,\\d\\d\\d){1,5})"),
        Production::IntegerText { child: 0, group: 1, separated: true },
    ));
    v.push(rule_1(
        "decimal number",
        Matcher::Text("(\\d*\\.\\d+)"),
        Production::DecimalText { child: 0, group: 1, separated: false },
    ));
    v.push(rule_1(
        "decimal with thousands separator",
        Matcher::Text("(\\d+(,\\d\\d\\d)+\\.\\d+)"),
        Production::DecimalText { child: 0, group: 1, separated: true },
    ));
    v.push(rule_2(
        "numbers prefix with -, negative or minus",
        Matcher::Text("-|minus\\s?|negative\\s?"),
        Matcher::Unprefixed,
        Production::Negative { child: 1 },
    ));
    v.push(rule_3(
        "fraction",
        Matcher::Unprefixed,
        Matcher::Text("/"),
        Matcher::Unsuffixed,
        Production::Quotient { top: 0, bottom: 2 },
    ));
    v
}

/// The rules for numbers.
pub open spec fn number_rules() -> Seq<Rule> {
    number_words() + number_digits()
}

/// Registers the rules for numbers.
pub fn rules_numbers(b: &mut RuleSetBuilder) -> (r: Result<(), ParserError>)
    requires
        old(b).wf(),
    ensures
        registered(old(b).rules@, number_rules(), final(b).rules@, r),
        final(b).words == old(b).words,
        final(b).wf(),
{
    let mut all: Vec<Rule> = number_words_list();
    let mut more_0: Vec<Rule> = number_digits_list();
    all.append(&mut more_0);
    b.add_all(&all)
}

} // verus!
