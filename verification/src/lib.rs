//! Recognition and resolution of quantities and temporal expressions in
//! free-form text: numbers, ordinals, durations, dates, times and intervals.
//!
//! A parser holds the production rules of a language and a model that
//! scores derivations. Parsing a text builds the chart of all derivations of
//! all stretches of the text, scores them, keeps those of the kinds asked
//! for, removes overlaps where asked to, and resolves what is left against
//! the reference instant of the parsing context.
//!
//! The modules, from the leaves up:
//!
//! - `grain`, `calendar`: calendar grains and the Gregorian calendar on
//!   integers;
//! - `text`, `number`, `korean`, `words`: characters and bytes, the reading
//!   of digits, of Sino-Korean numerals and of number words;
//! - `duration`, `time`, `order`, `helpers`: the values of the grammar and
//!   the operations on time expressions;
//! - `resolve`, `dimension`, `output`: from time expressions to intervals of
//!   the calendar, and from values to what a parse hands out;
//! - `rule`, `args`, `produce`, `apply`, `ruleset`, `rules`: production
//!   rules, what each production makes, and the catalogues of the languages;
//! - `pattern`, `chart`, `closure`: regular expressions and the chart;
//! - `ranker`, `train`, `select`, `parser`: scores, model fitting, the
//!   choice among overlapping derivations, and the parsers themselves.

pub mod grain;
pub mod calendar;
pub mod text;
pub mod error;
pub mod number;
pub mod duration;
pub mod time;
pub mod order;
pub mod helpers;
pub mod resolve;
pub mod dimension;
pub mod output;
pub mod korean;
pub mod rule;
pub mod args;
pub mod words;
pub mod produce;
pub mod apply;
pub mod pattern;
pub mod ruleset;
pub mod rules;
pub mod chart;
pub mod closure;
pub mod ranker;
pub mod select;
pub mod train;
pub mod parser;

pub use crate::dimension::Dimension;
pub use crate::dimension::DimensionKind;
pub use crate::error::ParserError;
pub use crate::grain::Grain;
pub use crate::number::NumberValue;
pub use crate::output::Output;
pub use crate::output::ParsingContext;
pub use crate::parser::build_parser;
pub use crate::parser::build_raw_parser;
pub use crate::parser::train_parser;
pub use crate::parser::Lang;
pub use crate::parser::Parser;
pub use crate::parser::RawParser;
pub use crate::ranker::Model;
pub use crate::resolve::Interval;
pub use crate::select::ParserMatch;
