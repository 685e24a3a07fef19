//! What a production receives: for each matcher of the pattern, the text
//! that it captured or the value that it matched.

use vstd::prelude::*;
use crate::dimension::Dimension;
use crate::duration::CycleValue;
use crate::duration::DurationValue;
use crate::duration::RelativeMinuteValue;
use crate::duration::UnitOfDurationValue;
use crate::number::IntegerValue;
use crate::number::NumberValue;
use crate::number::OrdinalValue;
use crate::time::TimeValue;

verus! {

/// One matched child. A text child holds its capture groups, group 0 being
/// the whole match; a group that took no part in the match is `None`.
#[derive(Debug)]
pub enum Arg {
    Text(Vec<Option<Vec<char>>>),
    Value(Dimension),
}

/// A matched child as the productions' contracts see it.
pub enum ArgView {
    Text(Seq<Option<Seq<char>>>),
    Value(Dimension),
}

impl View for Arg {
    type V = ArgView;

    open spec fn view(&self) -> ArgView {
        match self {
            Arg::Text(groups) => ArgView::Text(
                Seq::new(
                    groups@.len(),
                    |i: int|
                        match groups@[i] {
                            Some(v) => Some(v@),
                            None => None,
                        },
                ),
            ),
            Arg::Value(d) => ArgView::Value(*d),
        }
    }
}

/// The matched children as the productions' contracts see them.
pub open spec fn views(args: Seq<Arg>) -> Seq<ArgView> {
    Seq::new(args.len(), |i: int| args[i]@)
}

/// Every value among the children is well formed.
pub open spec fn args_wf(args: Seq<ArgView>) -> bool {
    forall|i: int|
        0 <= i < args.len() ==> match #[trigger] args[i] {
            ArgView::Value(d) => d.wf(),
            ArgView::Text(_) => true,
        }
}

/// The value of the child at position `i`, if the child is a value.
pub open spec fn value_at(args: Seq<ArgView>, i: int) -> Option<Dimension> {
    if 0 <= i < args.len() {
        match args[i] {
            ArgView::Value(d) => Some(d),
            ArgView::Text(_) => None,
        }
    } else {
        None
    }
}

/// The text of capture group `g` of the text child at position `i`.
pub open spec fn text_at(args: Seq<ArgView>, i: int, g: int) -> Option<Seq<char>> {
    if 0 <= i < args.len() {
        match args[i] {
            ArgView::Text(groups) => if 0 <= g < groups.len() {
                groups[g]
            } else {
                None
            },
            ArgView::Value(_) => None,
        }
    } else {
        None
    }
}

/// The number at position `i`.
pub open spec fn number_at(args: Seq<ArgView>, i: int) -> Option<NumberValue> {
    match value_at(args, i) {
        Some(Dimension::Number(n)) => Some(n),
        _ => None,
    }
}

/// The whole number at position `i`.
pub open spec fn integer_at(args: Seq<ArgView>, i: int) -> Option<IntegerValue> {
    match value_at(args, i) {
        Some(Dimension::Number(NumberValue::Integer(n))) => Some(n),
        _ => None,
    }
}

/// The ordinal at position `i`.
pub open spec fn ordinal_at(args: Seq<ArgView>, i: int) -> Option<OrdinalValue> {
    match value_at(args, i) {
        Some(Dimension::Ordinal(n)) => Some(n),
        _ => None,
    }
}

/// The time at position `i`.
pub open spec fn time_at(args: Seq<ArgView>, i: int) -> Option<TimeValue> {
    match value_at(args, i) {
        Some(Dimension::Time(n)) => Some(n),
        _ => None,
    }
}

/// The duration at position `i`.
pub open spec fn duration_at(args: Seq<ArgView>, i: int) -> Option<DurationValue> {
    match value_at(args, i) {
        Some(Dimension::Duration(n)) => Some(n),
        _ => None,
    }
}

/// The cycle at position `i`.
pub open spec fn cycle_at(args: Seq<ArgView>, i: int) -> Option<CycleValue> {
    match value_at(args, i) {
        Some(Dimension::Cycle(n)) => Some(n),
        _ => None,
    }
}

/// The unit of duration at position `i`.
pub open spec fn unit_at(args: Seq<ArgView>, i: int) -> Option<UnitOfDurationValue> {
    match value_at(args, i) {
        Some(Dimension::UnitOfDuration(n)) => Some(n),
        _ => None,
    }
}

/// The relative minutes at position `i`.
pub open spec fn minutes_at(args: Seq<ArgView>, i: int) -> Option<RelativeMinuteValue> {
    match value_at(args, i) {
        Some(Dimension::RelativeMinute(n)) => Some(n),
        _ => None,
    }
}

/// The value of the child at position `i`, if the child is a value.
pub fn value_of(args: &Vec<Arg>, i: usize) -> (r: Option<&Dimension>)
    ensures
        match r {
            Some(d) => value_at(views(args@), i as int) == Some(*d),
            None => value_at(views(args@), i as int) is None,
        },
        args_wf(views(args@)) ==> (r matches Some(d) ==> d.wf()),
{
    if i < args.len() {
        match &args[i] {
            Arg::Value(d) => Some(d),
            Arg::Text(_) => None,
        }
    } else {
        None
    }
}

/// The text of capture group `g` of the text child at position `i`.
pub fn text_of(args: &Vec<Arg>, i: usize, g: usize) -> (r: Option<&Vec<char>>)
    ensures
        match r {
            Some(v) => text_at(views(args@), i as int, g as int) == Some(v@),
            None => text_at(views(args@), i as int, g as int) is None,
        },
{
    if i < args.len() {
        match &args[i] {
            Arg::Text(groups) => if g < groups.len() {
                match &groups[g] {
                    Some(v) => Some(v),
                    None => None,
                }
            } else {
                None
            },
            Arg::Value(_) => None,
        }
    } else {
        None
    }
}

/// The number at position `i`.
pub fn number_of(args: &Vec<Arg>, i: usize) -> (r: Option<NumberValue>)
    ensures
        r == number_at(views(args@), i as int),
        args_wf(views(args@)) ==> (r matches Some(d) ==> d.wf()),
{
    match value_of(args, i) {
        Some(Dimension::Number(n)) => Some(*n),
        _ => None,
    }
}

/// The whole number at position `i`.
pub fn integer_of(args: &Vec<Arg>, i: usize) -> (r: Option<IntegerValue>)
    ensures
        r == integer_at(views(args@), i as int),
{
    match value_of(args, i) {
        Some(Dimension::Number(NumberValue::Integer(n))) => Some(*n),
        _ => None,
    }
}

/// The ordinal at position `i`.
pub fn ordinal_of(args: &Vec<Arg>, i: usize) -> (r: Option<OrdinalValue>)
    ensures
        r == ordinal_at(views(args@), i as int),
{
    match value_of(args, i) {
        Some(Dimension::Ordinal(n)) => Some(*n),
        _ => None,
    }
}

/// The time at position `i`.
pub fn time_of(args: &Vec<Arg>, i: usize) -> (r: Option<&TimeValue>)
    ensures
        match r {
            Some(d) => time_at(views(args@), i as int) == Some(*d),
            None => time_at(views(args@), i as int) is None,
        },
        args_wf(views(args@)) ==> (r matches Some(d) ==> d.wf()),
{
    match value_of(args, i) {
        Some(Dimension::Time(n)) => Some(n),
        _ => None,
    }
}

/// The duration at position `i`.
pub fn duration_of(args: &Vec<Arg>, i: usize) -> (r: Option<DurationValue>)
    ensures
        r == duration_at(views(args@), i as int),
{
    match value_of(args, i) {
        Some(Dimension::Duration(n)) => Some(*n),
        _ => None,
    }
}

/// The cycle at position `i`.
pub fn cycle_of(args: &Vec<Arg>, i: usize) -> (r: Option<CycleValue>)
    ensures
        r == cycle_at(views(args@), i as int),
{
    match value_of(args, i) {
        Some(Dimension::Cycle(n)) => Some(*n),
        _ => None,
    }
}

/// The unit of duration at position `i`.
pub fn unit_of(args: &Vec<Arg>, i: usize) -> (r: Option<UnitOfDurationValue>)
    ensures
        r == unit_at(views(args@), i as int),
{
    match value_of(args, i) {
        Some(Dimension::UnitOfDuration(n)) => Some(*n),
        _ => None,
    }
}

/// The relative minutes at position `i`.
pub fn minutes_of(args: &Vec<Arg>, i: usize) -> (r: Option<RelativeMinuteValue>)
    ensures
        r == minutes_at(views(args@), i as int),
{
    match value_of(args, i) {
        Some(Dimension::RelativeMinute(n)) => Some(*n),
        _ => None,
    }
}

} // verus!
