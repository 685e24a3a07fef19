//! Errors of rule productions, of rule-set construction and of parsing.

use vstd::prelude::*;

verus! {

/// Why a production gave no value. The derivation is dropped; others go on.
#[derive(Clone, Copy, Debug, PartialEq, Eq, Structural)]
pub enum ProductionError {
    /// The matched text or the matched children do not have the shape that
    /// the production works on.
    Malformed,
    /// A calendar field lies outside its range.
    OutOfRange,
    /// The result does not fit a signed 64-bit number.
    Overflow,
    /// The two times address a common calendar dimension.
    Incompatible,
    /// A fraction with denominator zero.
    DivisionByZero,
}

/// Why a parser could not be built or used.
#[derive(Clone, Copy, Debug, PartialEq, Eq, Structural)]
pub enum ParserError {
    /// The regular expression of the matcher at position `matcher` of the
    /// rule at position `rule` was refused by the regex engine.
    RuleBuild { rule: usize, matcher: usize },
    /// The rule at position `rule` has no matcher, or more than four, or a
    /// production that takes children of other kinds.
    RuleShape { rule: usize },
    /// The model names a feature twice.
    ModelLoad { entry: usize },
    /// The labelled example at position `example` has no parse that gives
    /// its target.
    Training { example: usize },
    /// No rule catalogue exists for the language.
    Language,
}

} // verus!
