//! The rules of Korean.

use vstd::prelude::*;
use crate::error::ParserError;
use crate::grain::Grain;
use crate::rule::Matcher;
use crate::rule::Production;
use crate::rule::Rule;
use crate::rule::TimeFilter;
use crate::rule::WordTable;
use crate::ruleset::r1;
use crate::ruleset::r2;
use crate::ruleset::r3;
use crate::ruleset::r4;
use crate::ruleset::registered;
use crate::ruleset::rule_1;
use crate::ruleset::rule_2;
use crate::ruleset::rule_3;
use crate::ruleset::rule_4;
use crate::ruleset::RuleSetBuilder;
use crate::time::Direction;

verus! {

/// The rules that join two times and that take a particle after a time.
pub open spec fn time_intersections() -> Seq<Rule> {
    seq![
        r2(
            "intersect",
            Matcher::Time(TimeFilter::NotLatent),
            Matcher::Time(TimeFilter::NotLatent),
            Production::Intersect { left: 0, right: 1 },
        ),
        r3(
            "intersect by \",\"",
            Matcher::Time(TimeFilter::NotLatent),
            Matcher::Text(","),
            Matcher::Time(TimeFilter::NotLatent),
            Production::Intersect { left: 0, right: 2 },
        ),
        r3(
            "intersect by \"의\"",
            Matcher::Time(TimeFilter::NotLatent),
            Matcher::Text("의"),
            Matcher::Time(TimeFilter::NotLatent),
            Production::Intersect { left: 0, right: 2 },
        ),
        r2(
            "<date>에",
            Matcher::Time(TimeFilter::Any),
            Matcher::Text("에|때"),
            Production::Same { child: 0 },
        ),
        r2(
            "<date>동안",
            Matcher::Time(TimeFilter::Any),
            Matcher::Text("동안"),
            Production::Adjust { child: 0, clear_latent: true, approximate: false, direction: Direction::Neither },
        ),
        r2(
            "<named-day>에",
            Matcher::Time(TimeFilter::DayOfWeek),
            Matcher::Text("에"),
            Production::Same { child: 0 },
        ),
        r2(
            "<named-month>에",
            Matcher::Time(TimeFilter::Month),
            Matcher::Text("에"),
            Production::Same { child: 0 },
        ),
    ]
}

fn time_intersections_list() -> (v: Vec<Rule>)
    ensures
        v@ == time_intersections(),
{
    let mut v: Vec<Rule> = Vec::new();
    v.push(rule_2(
        "intersect",
        Matcher::Time(TimeFilter::NotLatent),
        Matcher::Time(TimeFilter::NotLatent),
        Production::Intersect { left: 0, right: 1 },
    ));
    v.push(rule_3(
        "intersect by \",\"",
        Matcher::Time(TimeFilter::NotLatent),
        Matcher::Text(","),
        Matcher::Time(TimeFilter::NotLatent),
        Production::Intersect { left: 0, right: 2 },
    ));
    v.push(rule_3(
        "intersect by \"의\"",
        Matcher::Time(TimeFilter::NotLatent),
        Matcher::Text("의"),
        Matcher::Time(TimeFilter::NotLatent),
        Production::Intersect { left: 0, right: 2 },
    ));
    v.push(rule_2(
        "<date>에",
        Matcher::Time(TimeFilter::Any),
        Matcher::Text("에|때"),
        Production::Same { child: 0 },
    ));
    v.push(rule_2(
        "<date>동안",
        Matcher::Time(TimeFilter::Any),
        Matcher::Text("동안"),
        Production::Adjust { child: 0, clear_latent: true, approximate: false, direction: Direction::Neither },
    ));
    v.push(rule_2(
        "<named-day>에",
        Matcher::Time(TimeFilter::DayOfWeek),
        Matcher::Text("에"),
        Production::Same { child: 0 },
    ));
    v.push(rule_2(
        "<named-month>에",
        Matcher::Time(TimeFilter::Month),
        Matcher::Text("에"),
        Production::Same { child: 0 },
    ));
    v
}

/// The rules for days of the week, months and days of the month.
pub open spec fn time_days() -> Seq<Rule> {
    seq![
        r1(
            "day-of-week",
            Matcher::Text("(월|화|수|목|금|토|일)(요일|욜)"),
            Production::WeekdayWord { child: 0, group: 1 },
        ),
        r2(
            "month",
            Matcher::Integer { min: 1, max: 12 },
            Matcher::Text("월"),
            Production::MonthOf { child: 0 },
        ),
        r2(
            "day",
            Matcher::Integer { min: 1, max: 31 },
            Matcher::Text("일"),
            Production::DayOf { child: 0 },
        ),
        r1(
            "day with korean number - 십일..삼십일일",
            Matcher::Text("([이|삼]?십[일|이|삼|사|오|육|칠|팔|구]?)일"),
            Production::DayNumeral { child: 0, group: 1 },
        ),
        r1(
            "day with korean number - 일일..구일",
            Matcher::Text("([일|이|삼|사|오|육|칠|팔|구])일"),
            Production::DayDigit { child: 0, group: 1 },
        ),
    ]
}

fn time_days_list() -> (v: Vec<Rule>)
    ensures
        v@ == time_days(),
{
    let mut v: Vec<Rule> = Vec::new();
    v.push(rule_1(
        "day-of-week",
        Matcher::Text("(월|화|수|목|금|토|일)(요일|욜)"),
        Production::WeekdayWord { child: 0, group: 1 },
    ));
    v.push(rule_2(
        "month",
        Matcher::Integer { min: 1, max: 12 },
        Matcher::Text("월"),
        Production::MonthOf { child: 0 },
    ));
    v.push(rule_2(
        "day",
        Matcher::Integer { min: 1, max: 31 },
        Matcher::Text("일"),
        Production::DayOf { child: 0 },
    ));
    v.push(rule_1(
        "day with korean number - 십일..삼십일일",
        Matcher::Text("([이|삼]?십[일|이|삼|사|오|육|칠|팔|구]?)일"),
        Production::DayNumeral { child: 0, group: 1 },
    ));
    v.push(rule_1(
        "day with korean number - 일일..구일",
        Matcher::Text("([일|이|삼|사|오|육|칠|팔|구])일"),
        Production::DayDigit { child: 0, group: 1 },
    ));
    v
}

/// The rules for the days that have a name.
pub open spec fn time_holidays() -> Seq<Rule> {
    seq![
        r1(
            "New Year's Day",
            Matcher::Text("신정|설날"),
            Production::MonthDay { month: 1, day: 1 },
        ),
        r1(
            "Independence Movement Day",
            Matcher::Text("삼일절"),
            Production::MonthDay { month: 3, day: 1 },
        ),
        r1(
            "Children's Day",
            Matcher::Text("어린이날"),
            Production::MonthDay { month: 5, day: 5 },
        ),
        r1(
            "Memorial Day",
            Matcher::Text("현충일"),
            Production::MonthDay { month: 6, day: 6 },
        ),
        r1(
            "Constitution Day",
            Matcher::Text("제헌절"),
            Production::MonthDay { month: 6, day: 17 },
        ),
        r1(
            "Liberation Day",
            Matcher::Text("광복절"),
            Production::MonthDay { month: 8, day: 15 },
        ),
        r1(
            "National Foundation Day",
            Matcher::Text("개천절"),
            Production::MonthDay { month: 10, day: 3 },
        ),
        r1(
            "Hangul Day",
            Matcher::Text("한글날"),
            Production::MonthDay { month: 10, day: 9 },
        ),
        r1(
            "christmas eve",
            Matcher::Text("(크리스마스)?이브"),
            Production::MonthDay { month: 12, day: 24 },
        ),
        r1(
            "christmas",
            Matcher::Text("크리스마스"),
            Production::MonthDay { month: 12, day: 25 },
        ),
        r2(
            "absorption of , after named day",
            Matcher::Time(TimeFilter::DayOfWeek),
            Matcher::Text(","),
            Production::Same { child: 0 },
        ),
    ]
}

fn time_holidays_list() -> (v: Vec<Rule>)
    ensures
        v@ == time_holidays(),
{
    let mut v: Vec<Rule> = Vec::new();
    v.push(rule_1(
        "New Year's Day",
        Matcher::Text("신정|설날"),
        Production::MonthDay { month: 1, day: 1 },
    ));
    v.push(rule_1(
        "Independence Movement Day",
        Matcher::Text("삼일절"),
        Production::MonthDay { month: 3, day: 1 },
    ));
    v.push(rule_1(
        "Children's Day",
        Matcher::Text("어린이날"),
        Production::MonthDay { month: 5, day: 5 },
    ));
    v.push(rule_1(
        "Memorial Day",
        Matcher::Text("현충일"),
        Production::MonthDay { month: 6, day: 6 },
    ));
    v.push(rule_1(
        "Constitution Day",
        Matcher::Text("제헌절"),
        Production::MonthDay { month: 6, day: 17 },
    ));
    v.push(rule_1(
        "Liberation Day",
        Matcher::Text("광복절"),
        Production::MonthDay { month: 8, day: 15 },
    ));
    v.push(rule_1(
        "National Foundation Day",
        Matcher::Text("개천절"),
        Production::MonthDay { month: 10, day: 3 },
    ));
    v.push(rule_1(
        "Hangul Day",
        Matcher::Text("한글날"),
        Production::MonthDay { month: 10, day: 9 },
    ));
    v.push(rule_1(
        "christmas eve",
        Matcher::Text("(크리스마스)?이브"),
        Production::MonthDay { month: 12, day: 24 },
    ));
    v.push(rule_1(
        "christmas",
        Matcher::Text("크리스마스"),
        Production::MonthDay { month: 12, day: 25 },
    ));
    v.push(rule_2(
        "absorption of , after named day",
        Matcher::Time(TimeFilter::DayOfWeek),
        Matcher::Text(","),
        Production::Same { child: 0 },
    ));
    v
}

/// The rules for times named from the present.
pub open spec fn time_relatives() -> Seq<Rule> {
    seq![
        r1(
            "now",
            Matcher::Text("방금|지금|방금|막|이제"),
            Production::CycleNth { grain: Grain::Second, offset: 0 },
        ),
        r1(
            "today",
            Matcher::Text("오늘|당일|금일"),
            Production::CycleNth { grain: Grain::Day, offset: 0 },
        ),
        r1(
            "tomorrow",
            Matcher::Text("내일|명일|낼"),
            Production::CycleNth { grain: Grain::Day, offset: 1 },
        ),
        r1(
            "yesterday",
            Matcher::Text("어제|작일|어저께"),
            Production::CycleNth { grain: Grain::Day, offset: -1i64 },
        ),
        r2(
            "end of <time>",
            Matcher::Time(TimeFilter::Any),
            Matcher::Text("말"),
            Production::TheNth { child: 0, n: 1 },
        ),
        r2(
            "this <day-of-week>",
            Matcher::Text("이번\\s*주?|돌아오는|금주"),
            Matcher::Time(TimeFilter::DayOfWeek),
            Production::TheNth { child: 1, n: 0 },
        ),
        r2(
            "this <time>",
            Matcher::Text("이번|이|금|올|돌아오는"),
            Matcher::Time(TimeFilter::Any),
            Production::TheNth { child: 1, n: 0 },
        ),
        r2(
            "next <time>",
            Matcher::Text("다음|오는"),
            Matcher::Time(TimeFilter::NotLatent),
            Production::TheNth { child: 1, n: 1 },
        ),
        r2(
            "last <time>",
            Matcher::Text("전|저번|지난"),
            Matcher::Time(TimeFilter::Any),
            Production::TheNth { child: 1, n: -1i64 },
        ),
        r3(
            "<time> 마지막 <day-of-week>",
            Matcher::Time(TimeFilter::Any),
            Matcher::Text("마지막"),
            Matcher::Time(TimeFilter::DayOfWeek),
            Production::LastOf { inner: 2, outer: 0 },
        ),
        r3(
            "<time> 마지막 <cycle>",
            Matcher::Time(TimeFilter::Any),
            Matcher::Text("마지막"),
            Matcher::Cycle,
            Production::LastCycleOf { cycle: 2, outer: 0 },
        ),
        r3(
            "<time> nth <time> - 3월 첫째 화요일",
            Matcher::Time(TimeFilter::Any),
            Matcher::Ordinal,
            Matcher::Time(TimeFilter::Any),
            Production::NthOf { left: 0, ordinal: 1, right: 2 },
        ),
        r4(
            "nth <time> - 3월 첫째 화요일",
            Matcher::Time(TimeFilter::Any),
            Matcher::Text("의"),
            Matcher::Ordinal,
            Matcher::Time(TimeFilter::Any),
            Production::NthOf { left: 0, ordinal: 2, right: 3 },
        ),
        r3(
            "<time> nth <cycle> - 3월 첫째 화요일",
            Matcher::Time(TimeFilter::Any),
            Matcher::Ordinal,
            Matcher::Cycle,
            Production::NthCycleAfter { time: 0, ordinal: 1, cycle: 2 },
        ),
        r4(
            "<time> nth of <cycle> - 3월 첫째 화요일",
            Matcher::Time(TimeFilter::Any),
            Matcher::Text("의"),
            Matcher::Ordinal,
            Matcher::Cycle,
            Production::NthCycleAfter { time: 0, ordinal: 2, cycle: 3 },
        ),
        r2(
            "year",
            Matcher::Integer { min: 1, max: i64::MAX },
            Matcher::Text("년"),
            Production::YearOf { child: 0 },
        ),
    ]
}

fn time_relatives_list() -> (v: Vec<Rule>)
    ensures
        v@ == time_relatives(),
{
    let mut v: Vec<Rule> = Vec::new();
    v.push(rule_1(
        "now",
        Matcher::Text("방금|지금|방금|막|이제"),
        Production::CycleNth { grain: Grain::Second, offset: 0 },
    ));
    v.push(rule_1(
        "today",
        Matcher::Text("오늘|당일|금일"),
        Production::CycleNth { grain: Grain::Day, offset: 0 },
    ));
    v.push(rule_1(
        "tomorrow",
        Matcher::Text("내일|명일|낼"),
        Production::CycleNth { grain: Grain::Day, offset: 1 },
    ));
    v.push(rule_1(
        "yesterday",
        Matcher::Text("어제|작일|어저께"),
        Production::CycleNth { grain: Grain::Day, offset: -1i64 },
    ));
    v.push(rule_2(
        "end of <time>",
        Matcher::Time(TimeFilter::Any),
        Matcher::Text("말"),
        Production::TheNth { child: 0, n: 1 },
    ));
    v.push(rule_2(
        "this <day-of-week>",
        Matcher::Text("이번\\s*주?|돌아오는|금주"),
        Matcher::Time(TimeFilter::DayOfWeek),
        Production::TheNth { child: 1, n: 0 },
    ));
    v.push(rule_2(
        "this <time>",
        Matcher::Text("이번|이|금|올|돌아오는"),
        Matcher::Time(TimeFilter::Any),
        Production::TheNth { child: 1, n: 0 },
    ));
    v.push(rule_2(
        "next <time>",
        Matcher::Text("다음|오는"),
        Matcher::Time(TimeFilter::NotLatent),
        Production::TheNth { child: 1, n: 1 },
    ));
    v.push(rule_2(
        "last <time>",
        Matcher::Text("전|저번|지난"),
        Matcher::Time(TimeFilter::Any),
        Production::TheNth { child: 1, n: -1i64 },
    ));
    v.push(rule_3(
        "<time> 마지막 <day-of-week>",
        Matcher::Time(TimeFilter::Any),
        Matcher::Text("마지막"),
        Matcher::Time(TimeFilter::DayOfWeek),
        Production::LastOf { inner: 2, outer: 0 },
    ));
    v.push(rule_3(
        "<time> 마지막 <cycle>",
        Matcher::Time(TimeFilter::Any),
        Matcher::Text("마지막"),
        Matcher::Cycle,
        Production::LastCycleOf { cycle: 2, outer: 0 },
    ));
    v.push(rule_3(
        "<time> nth <time> - 3월 첫째 화요일",
        Matcher::Time(TimeFilter::Any),
        Matcher::Ordinal,
        Matcher::Time(TimeFilter::Any),
        Production::NthOf { left: 0, ordinal: 1, right: 2 },
    ));
    v.push(rule_4(
        "nth <time> - 3월 첫째 화요일",
        Matcher::Time(TimeFilter::Any),
        Matcher::Text("의"),
        Matcher::Ordinal,
        Matcher::Time(TimeFilter::Any),
        Production::NthOf { left: 0, ordinal: 2, right: 3 },
    ));
    v.push(rule_3(
        "<time> nth <cycle> - 3월 첫째 화요일",
        Matcher::Time(TimeFilter::Any),
        Matcher::Ordinal,
        Matcher::Cycle,
        Production::NthCycleAfter { time: 0, ordinal: 1, cycle: 2 },
    ));
    v.push(rule_4(
        "<time> nth of <cycle> - 3월 첫째 화요일",
        Matcher::Time(TimeFilter::Any),
        Matcher::Text("의"),
        Matcher::Ordinal,
        Matcher::Cycle,
        Production::NthCycleAfter { time: 0, ordinal: 2, cycle: 3 },
    ));
    v.push(rule_2(
        "year",
        Matcher::Integer { min: 1, max: i64::MAX },
        Matcher::Text("년"),
        Production::YearOf { child: 0 },
    ));
    v
}

/// The rules for times of day.
pub open spec fn time_clock() -> Seq<Rule> {
    seq![
        r1(
            "time-of-day (latent)",
            Matcher::Integer { min: 0, max: 23 },
            Production::HourOf { child: 0, latent: true },
        ),
        r2(
            "time-of-day",
            Matcher::Integer { min: 0, max: 24 },
            Matcher::Text("시"),
            Production::HourOf { child: 0, latent: false },
        ),
        r2(
            "<time-of-day>에",
            Matcher::Time(TimeFilter::TimeOfDay),
            Matcher::Text("에"),
            Production::Adjust { child: 0, clear_latent: true, approximate: false, direction: Direction::Neither },
        ),
        r2(
            "<time-of-day> 정각",
            Matcher::Text("정각"),
            Matcher::Time(TimeFilter::TimeOfDay),
            Production::Adjust { child: 1, clear_latent: true, approximate: false, direction: Direction::Neither },
        ),
        r1(
            "hh:mm",
            Matcher::Text("((?:[01]?\\d)|(?:2[0-3]))[:.]([0-5]\\d)"),
            Production::ClockText { child: 0, seconds: false },
        ),
        r1(
            "hh:mm:ss",
            Matcher::Text("((?:[01]?\\d)|(?:2[0-3]))[:.]([0-5]\\d)[:.]([0-5]\\d)"),
            Production::ClockText { child: 0, seconds: true },
        ),
        r2(
            "<time-of-day> am",
            Matcher::Text("오전|아침|새벽"),
            Matcher::Time(TimeFilter::TimeOfDay),
            Production::HalfDay { child: 1, afternoon: false },
        ),
        r2(
            "<time-of-day> pm",
            Matcher::Text("오후|저녁|밤"),
            Matcher::Time(TimeFilter::TimeOfDay),
            Production::HalfDay { child: 1, afternoon: true },
        ),
        r1(
            "noon",
            Matcher::Text("정오|오정|한낮"),
            Production::Hour { hour: 12 },
        ),
        r1(
            "midnight|EOD|end of day",
            Matcher::Text("자정|영시"),
            Production::Hour { hour: 0 },
        ),
        r1(
            "half (relative minutes)",
            Matcher::Text("반"),
            Production::Minutes { minutes: 30 },
        ),
        r2(
            "number (as relative minutes)",
            Matcher::Integer { min: 1, max: 59 },
            Matcher::Text("분"),
            Production::MinutesOf { child: 0 },
        ),
        r2(
            "<hour-of-day> <integer> (as relative minutes)",
            Matcher::Time(TimeFilter::HourOfDay),
            Matcher::RelativeMinute,
            Production::HourPlusMinutes { clock: 0, minutes_at: 1, before: false },
        ),
        r2(
            "<hour-of-day> <integer>",
            Matcher::Time(TimeFilter::HourOfDay),
            Matcher::Integer { min: 0, max: 59 },
            Production::HourMinuteOf { clock: 0, minute: 1 },
        ),
        r3(
            "<integer> (hour-of-day) relative minutes 전",
            Matcher::Time(TimeFilter::HourOfDay),
            Matcher::RelativeMinute,
            Matcher::Text("전"),
            Production::HourPlusMinutes { clock: 0, minutes_at: 1, before: true },
        ),
        r2(
            "seconds",
            Matcher::Integer { min: 1, max: 59 },
            Matcher::Text("초"),
            Production::SecondOf { child: 0 },
        ),
    ]
}

fn time_clock_list() -> (v: Vec<Rule>)
    ensures
        v@ == time_clock(),
{
    let mut v: Vec<Rule> = Vec::new();
    v.push(rule_1(
        "time-of-day (latent)",
        Matcher::Integer { min: 0, max: 23 },
        Production::HourOf { child: 0, latent: true },
    ));
    v.push(rule_2(
        "time-of-day",
        Matcher::Integer { min: 0, max: 24 },
        Matcher::Text("시"),
        Production::HourOf { child: 0, latent: false },
    ));
    v.push(rule_2(
        "<time-of-day>에",
        Matcher::Time(TimeFilter::TimeOfDay),
        Matcher::Text("에"),
        Production::Adjust { child: 0, clear_latent: true, approximate: false, direction: Direction::Neither },
    ));
    v.push(rule_2(
        "<time-of-day> 정각",
        Matcher::Text("정각"),
        Matcher::Time(TimeFilter::TimeOfDay),
        Production::Adjust { child: 1, clear_latent: true, approximate: false, direction: Direction::Neither },
    ));
    v.push(rule_1(
        "hh:mm",
        Matcher::Text("((?:[01]?\\d)|(?:2[0-3]))[:.]([0-5]\\d)"),
        Production::ClockText { child: 0, seconds: false },
    ));
    v.push(rule_1(
        "hh:mm:ss",
        Matcher::Text("((?:[01]?\\d)|(?:2[0-3]))[:.]([0-5]\\d)[:.]([0-5]\\d)"),
        Production::ClockText { child: 0, seconds: true },
    ));
    v.push(rule_2(
        "<time-of-day> am",
        Matcher::Text("오전|아침|새벽"),
        Matcher::Time(TimeFilter::TimeOfDay),
        Production::HalfDay { child: 1, afternoon: false },
    ));
    v.push(rule_2(
        "<time-of-day> pm",
        Matcher::Text("오후|저녁|밤"),
        Matcher::Time(TimeFilter::TimeOfDay),
        Production::HalfDay { child: 1, afternoon: true },
    ));
    v.push(rule_1(
        "noon",
        Matcher::Text("정오|오정|한낮"),
        Production::Hour { hour: 12 },
    ));
    v.push(rule_1(
        "midnight|EOD|end of day",
        Matcher::Text("자정|영시"),
        Production::Hour { hour: 0 },
    ));
    v.push(rule_1(
        "half (relative minutes)",
        Matcher::Text("반"),
        Production::Minutes { minutes: 30 },
    ));
    v.push(rule_2(
        "number (as relative minutes)",
        Matcher::Integer { min: 1, max: 59 },
        Matcher::Text("분"),
        Production::MinutesOf { child: 0 },
    ));
    v.push(rule_2(
        "<hour-of-day> <integer> (as relative minutes)",
        Matcher::Time(TimeFilter::HourOfDay),
        Matcher::RelativeMinute,
        Production::HourPlusMinutes { clock: 0, minutes_at: 1, before: false },
    ));
    v.push(rule_2(
        "<hour-of-day> <integer>",
        Matcher::Time(TimeFilter::HourOfDay),
        Matcher::Integer { min: 0, max: 59 },
        Production::HourMinuteOf { clock: 0, minute: 1 },
    ));
    v.push(rule_3(
        "<integer> (hour-of-day) relative minutes 전",
        Matcher::Time(TimeFilter::HourOfDay),
        Matcher::RelativeMinute,
        Matcher::Text("전"),
        Production::HourPlusMinutes { clock: 0, minutes_at: 1, before: true },
    ));
    v.push(rule_2(
        "seconds",
        Matcher::Integer { min: 1, max: 59 },
        Matcher::Text("초"),
        Production::SecondOf { child: 0 },
    ));
    v
}

/// The rules for dates written in digits.
pub open spec fn time_dates() -> Seq<Rule> {
    seq![
        r1(
            "mm/dd/yyyy",
            Matcher::Text("(\\d{2,4})[-/](0?[1-9]|1[0-2])[/-](3[01]|[12]\\d|0?[1-9])"),
            Production::DateText { child: 0, year: true },
        ),
        r1(
            "yyyy-mm-dd",
            Matcher::Text("(\\d{2,4})-(0?[1-9]|1[0-2])-(3[01]|[12]\\d|0?[1-9])"),
            Production::DateText { child: 0, year: true },
        ),
        r1(
            "mm/dd",
            Matcher::Text("(0?[1-9]|1[0-2])/(3[01]|[12]\\d|0?[1-9])"),
            Production::DateText { child: 0, year: false },
        ),
    ]
}

fn time_dates_list() -> (v: Vec<Rule>)
    ensures
        v@ == time_dates(),
{
    let mut v: Vec<Rule> = Vec::new();
    v.push(rule_1(
        "mm/dd/yyyy",
        Matcher::Text("(\\d{2,4})[-/](0?[1-9]|1[0-2])[/-](3[01]|[12]\\d|0?[1-9])"),
        Production::DateText { child: 0, year: true },
    ));
    v.push(rule_1(
        "yyyy-mm-dd",
        Matcher::Text("(\\d{2,4})-(0?[1-9]|1[0-2])-(3[01]|[12]\\d|0?[1-9])"),
        Production::DateText { child: 0, year: true },
    ));
    v.push(rule_1(
        "mm/dd",
        Matcher::Text("(0?[1-9]|1[0-2])/(3[01]|[12]\\d|0?[1-9])"),
        Production::DateText { child: 0, year: false },
    ));
    v
}

/// The rules for the parts of a day.
pub open spec fn time_parts_of_day() -> Seq<Rule> {
    seq![
        r1(
            "early morning",
            Matcher::Text("이른 아침|조조|아침 일찍"),
            Production::PartOfDay { from_hour: 4, from_minute: 0, to_hour: 9 },
        ),
        r1(
            "morning",
            Matcher::Text("아침|오전"),
            Production::PartOfDay { from_hour: 4, from_minute: 0, to_hour: 12 },
        ),
        r1(
            "late morning",
            Matcher::Text("늦은 아침|오전 늦게|아침 늦게|아침 느지막이"),
            Production::PartOfDay { from_hour: 11, from_minute: 0, to_hour: 12 },
        ),
        r1(
            "early afternoon",
            Matcher::Text("이른 오후|낮곁|오후 들어|오후 일찍"),
            Production::PartOfDay { from_hour: 12, from_minute: 0, to_hour: 16 },
        ),
        r1(
            "afternoon",
            Matcher::Text("오후"),
            Production::PartOfDay { from_hour: 12, from_minute: 0, to_hour: 19 },
        ),
        r1(
            "late afternoon",
            Matcher::Text("늦은 오후|오후 늦게"),
            Production::PartOfDay { from_hour: 17, from_minute: 0, to_hour: 19 },
        ),
        r1(
            "early evening",
            Matcher::Text("이른 저녁|초저녁|저녁 일찍"),
            Production::PartOfDay { from_hour: 18, from_minute: 0, to_hour: 21 },
        ),
        r1(
            "evening",
            Matcher::Text("저녁"),
            Production::PartOfDay { from_hour: 18, from_minute: 0, to_hour: 0 },
        ),
        r1(
            "late evening",
            Matcher::Text("늦은 저녁|저녁 늦게"),
            Production::PartOfDay { from_hour: 21, from_minute: 0, to_hour: 0 },
        ),
        r1(
            "early night",
            Matcher::Text("이른 밤|밤에 일찍"),
            Production::PartOfDay { from_hour: 21, from_minute: 0, to_hour: 0 },
        ),
        r1(
            "night",
            Matcher::Text("밤"),
            Production::PartOfDay { from_hour: 19, from_minute: 0, to_hour: 0 },
        ),
        r1(
            "late night",
            Matcher::Text("늦은 밤|밤 늦게|깊은 밤"),
            Production::PartOfDay { from_hour: 1, from_minute: 0, to_hour: 4 },
        ),
        r1(
            "breakfast",
            Matcher::Text("아침(?: ?(?:식사|밥))?|조반"),
            Production::PartOfDay { from_hour: 6, from_minute: 0, to_hour: 9 },
        ),
        r1(
            "brunch",
            Matcher::Text("브런취|브런치|아침 겸 점심|늦은 아침|아점"),
            Production::PartOfDay { from_hour: 11, from_minute: 0, to_hour: 14 },
        ),
        r1(
            "lunch",
            Matcher::Text("점심(?: ?(?:식사|밥))?"),
            Production::PartOfDay { from_hour: 12, from_minute: 0, to_hour: 14 },
        ),
        r1(
            "dinner",
            Matcher::Text("저녁(?: ?(?:식사|밥))?"),
            Production::PartOfDay { from_hour: 17, from_minute: 30, to_hour: 21 },
        ),
        r2(
            "in|during the <part-of-day>",
            Matcher::Time(TimeFilter::PartOfDay),
            Matcher::Text("에|동안"),
            Production::Adjust { child: 0, clear_latent: true, approximate: false, direction: Direction::Neither },
        ),
        r2(
            "<time> <part-of-day>",
            Matcher::Time(TimeFilter::Any),
            Matcher::Time(TimeFilter::PartOfDay),
            Production::Intersect { left: 1, right: 0 },
        ),
    ]
}

fn time_parts_of_day_list() -> (v: Vec<Rule>)
    ensures
        v@ == time_parts_of_day(),
{
    let mut v: Vec<Rule> = Vec::new();
    v.push(rule_1(
        "early morning",
        Matcher::Text("이른 아침|조조|아침 일찍"),
        Production::PartOfDay { from_hour: 4, from_minute: 0, to_hour: 9 },
    ));
    v.push(rule_1(
        "morning",
        Matcher::Text("아침|오전"),
        Production::PartOfDay { from_hour: 4, from_minute: 0, to_hour: 12 },
    ));
    v.push(rule_1(
        "late morning",
        Matcher::Text("늦은 아침|오전 늦게|아침 늦게|아침 느지막이"),
        Production::PartOfDay { from_hour: 11, from_minute: 0, to_hour: 12 },
    ));
    v.push(rule_1(
        "early afternoon",
        Matcher::Text("이른 오후|낮곁|오후 들어|오후 일찍"),
        Production::PartOfDay { from_hour: 12, from_minute: 0, to_hour: 16 },
    ));
    v.push(rule_1(
        "afternoon",
        Matcher::Text("오후"),
        Production::PartOfDay { from_hour: 12, from_minute: 0, to_hour: 19 },
    ));
    v.push(rule_1(
        "late afternoon",
        Matcher::Text("늦은 오후|오후 늦게"),
        Production::PartOfDay { from_hour: 17, from_minute: 0, to_hour: 19 },
    ));
    v.push(rule_1(
        "early evening",
        Matcher::Text("이른 저녁|초저녁|저녁 일찍"),
        Production::PartOfDay { from_hour: 18, from_minute: 0, to_hour: 21 },
    ));
    v.push(rule_1(
        "evening",
        Matcher::Text("저녁"),
        Production::PartOfDay { from_hour: 18, from_minute: 0, to_hour: 0 },
    ));
    v.push(rule_1(
        "late evening",
        Matcher::Text("늦은 저녁|저녁 늦게"),
        Production::PartOfDay { from_hour: 21, from_minute: 0, to_hour: 0 },
    ));
    v.push(rule_1(
        "early night",
        Matcher::Text("이른 밤|밤에 일찍"),
        Production::PartOfDay { from_hour: 21, from_minute: 0, to_hour: 0 },
    ));
    v.push(rule_1(
        "night",
        Matcher::Text("밤"),
        Production::PartOfDay { from_hour: 19, from_minute: 0, to_hour: 0 },
    ));
    v.push(rule_1(
        "late night",
        Matcher::Text("늦은 밤|밤 늦게|깊은 밤"),
        Production::PartOfDay { from_hour: 1, from_minute: 0, to_hour: 4 },
    ));
    v.push(rule_1(
        "breakfast",
        Matcher::Text("아침(?: ?(?:식사|밥))?|조반"),
        Production::PartOfDay { from_hour: 6, from_minute: 0, to_hour: 9 },
    ));
    v.push(rule_1(
        "brunch",
        Matcher::Text("브런취|브런치|아침 겸 점심|늦은 아침|아점"),
        Production::PartOfDay { from_hour: 11, from_minute: 0, to_hour: 14 },
    ));
    v.push(rule_1(
        "lunch",
        Matcher::Text("점심(?: ?(?:식사|밥))?"),
        Production::PartOfDay { from_hour: 12, from_minute: 0, to_hour: 14 },
    ));
    v.push(rule_1(
        "dinner",
        Matcher::Text("저녁(?: ?(?:식사|밥))?"),
        Production::PartOfDay { from_hour: 17, from_minute: 30, to_hour: 21 },
    ));
    v.push(rule_2(
        "in|during the <part-of-day>",
        Matcher::Time(TimeFilter::PartOfDay),
        Matcher::Text("에|동안"),
        Production::Adjust { child: 0, clear_latent: true, approximate: false, direction: Direction::Neither },
    ));
    v.push(rule_2(
        "<time> <part-of-day>",
        Matcher::Time(TimeFilter::Any),
        Matcher::Time(TimeFilter::PartOfDay),
        Production::Intersect { left: 1, right: 0 },
    ));
    v
}

/// The rules for the week-end and the seasons, and for rough times.
pub open spec fn time_seasons() -> Seq<Rule> {
    seq![
        r1(
            "week-end",
            Matcher::Text("주말"),
            Production::Weekend,
        ),
        r1(
            "season",
            Matcher::Text("여름"),
            Production::Season { from_month: 6, from_day: 21, to_month: 9, to_day: 23 },
        ),
        r1(
            "season",
            Matcher::Text("가을"),
            Production::Season { from_month: 9, from_day: 23, to_month: 12, to_day: 21 },
        ),
        r1(
            "season",
            Matcher::Text("겨울"),
            Production::Season { from_month: 12, from_day: 21, to_month: 3, to_day: 20 },
        ),
        r1(
            "season",
            Matcher::Text("봄"),
            Production::Season { from_month: 3, from_day: 20, to_month: 6, to_day: 21 },
        ),
        r2(
            "<time> approximately",
            Matcher::Time(TimeFilter::Any),
            Matcher::Text("경"),
            Production::Adjust { child: 0, clear_latent: false, approximate: true, direction: Direction::Neither },
        ),
        r2(
            "<time-of-day> approximately",
            Matcher::Time(TimeFilter::TimeOfDay),
            Matcher::Text("정도|쯤"),
            Production::Adjust { child: 0, clear_latent: true, approximate: true, direction: Direction::Neither },
        ),
        r2(
            "about <time-of-day>",
            Matcher::Text("대충|약"),
            Matcher::Time(TimeFilter::TimeOfDay),
            Production::Adjust { child: 1, clear_latent: true, approximate: true, direction: Direction::Neither },
        ),
        r2(
            "exactly <time-of-day>",
            Matcher::Time(TimeFilter::TimeOfDay),
            Matcher::Text("정각"),
            Production::Adjust { child: 0, clear_latent: true, approximate: true, direction: Direction::Neither },
        ),
    ]
}

fn time_seasons_list() -> (v: Vec<Rule>)
    ensures
        v@ == time_seasons(),
{
    let mut v: Vec<Rule> = Vec::new();
    v.push(rule_1(
        "week-end",
        Matcher::Text("주말"),
        Production::Weekend,
    ));
    v.push(rule_1(
        "season",
        Matcher::Text("여름"),
        Production::Season { from_month: 6, from_day: 21, to_month: 9, to_day: 23 },
    ));
    v.push(rule_1(
        "season",
        Matcher::Text("가을"),
        Production::Season { from_month: 9, from_day: 23, to_month: 12, to_day: 21 },
    ));
    v.push(rule_1(
        "season",
        Matcher::Text("겨울"),
        Production::Season { from_month: 12, from_day: 21, to_month: 3, to_day: 20 },
    ));
    v.push(rule_1(
        "season",
        Matcher::Text("봄"),
        Production::Season { from_month: 3, from_day: 20, to_month: 6, to_day: 21 },
    ));
    v.push(rule_2(
        "<time> approximately",
        Matcher::Time(TimeFilter::Any),
        Matcher::Text("경"),
        Production::Adjust { child: 0, clear_latent: false, approximate: true, direction: Direction::Neither },
    ));
    v.push(rule_2(
        "<time-of-day> approximately",
        Matcher::Time(TimeFilter::TimeOfDay),
        Matcher::Text("정도|쯤"),
        Production::Adjust { child: 0, clear_latent: true, approximate: true, direction: Direction::Neither },
    ));
    v.push(rule_2(
        "about <time-of-day>",
        Matcher::Text("대충|약"),
        Matcher::Time(TimeFilter::TimeOfDay),
        Production::Adjust { child: 1, clear_latent: true, approximate: true, direction: Direction::Neither },
    ));
    v.push(rule_2(
        "exactly <time-of-day>",
        Matcher::Time(TimeFilter::TimeOfDay),
        Matcher::Text("정각"),
        Production::Adjust { child: 0, clear_latent: true, approximate: true, direction: Direction::Neither },
    ));
    v
}

/// The rules for stretches of time and for times with a direction.
pub open spec fn time_intervals() -> Seq<Rule> {
    seq![
        r3(
            "<datetime> - <datetime> (interval)",
            Matcher::Time(TimeFilter::NotLatent),
            Matcher::Text("\\-|\\~"),
            Matcher::Time(TimeFilter::NotLatent),
            Production::SpanTo { from: 0, to: 2, inclusive: true },
        ),
        r3(
            "<time-of-day> - <time-of-day> (interval)",
            Matcher::Time(TimeFilter::TimeOfDayNotLatent),
            Matcher::Text("\\-|\\~"),
            Matcher::Time(TimeFilter::TimeOfDay),
            Production::SpanTo { from: 0, to: 2, inclusive: true },
        ),
        r2(
            "within <duration>",
            Matcher::Duration,
            Matcher::Text("이내에?"),
            Production::Within { child: 0 },
        ),
        r2(
            "within <duration>",
            Matcher::Duration,
            Matcher::Text("(?:안|내)에?"),
            Production::Within { child: 0 },
        ),
        r2(
            "by <time> - 까지",
            Matcher::Time(TimeFilter::Any),
            Matcher::Text("까지"),
            Production::Until { child: 0 },
        ),
        r2(
            "<time-of-day>이전",
            Matcher::Time(TimeFilter::Any),
            Matcher::Text("이?전"),
            Production::Adjust { child: 0, clear_latent: false, approximate: false, direction: Direction::Before },
        ),
        r2(
            "after <time-of-day>",
            Matcher::Time(TimeFilter::Any),
            Matcher::Text("지나(?:서|고)|되면|이?후에?|뒤에?"),
            Production::Adjust { child: 0, clear_latent: false, approximate: false, direction: Direction::After },
        ),
        r2(
            "since <time-of-day>",
            Matcher::Time(TimeFilter::Any),
            Matcher::Text("(이래|이후)로?"),
            Production::Since { child: 0 },
        ),
        r4(
            "from <time> to <time>",
            Matcher::Time(TimeFilter::Any),
            Matcher::Text("부터"),
            Matcher::Time(TimeFilter::Any),
            Matcher::Text("까지"),
            Production::SpanTo { from: 0, to: 2, inclusive: true },
        ),
        r3(
            "during the last n cycle",
            Matcher::Text("과거"),
            Matcher::Integer { min: 0, max: i64::MAX },
            Matcher::Cycle,
            Production::CycleRange { integer: 1, cycle: 2, past: true },
        ),
        r3(
            "during the next n cycle",
            Matcher::Text("앞으로"),
            Matcher::Integer { min: 1, max: i64::MAX },
            Matcher::Cycle,
            Production::CycleRange { integer: 1, cycle: 2, past: false },
        ),
        r4(
            "<duration> from <time>",
            Matcher::Time(TimeFilter::Any),
            Matcher::Text("보다"),
            Matcher::Duration,
            Matcher::Text("후에|뒤에"),
            Production::AfterTime { time: 0, duration: 2 },
        ),
    ]
}

fn time_intervals_list() -> (v: Vec<Rule>)
    ensures
        v@ == time_intervals(),
{
    let mut v: Vec<Rule> = Vec::new();
    v.push(rule_3(
        "<datetime> - <datetime> (interval)",
        Matcher::Time(TimeFilter::NotLatent),
        Matcher::Text("\\-|\\~"),
        Matcher::Time(TimeFilter::NotLatent),
        Production::SpanTo { from: 0, to: 2, inclusive: true },
    ));
    v.push(rule_3(
        "<time-of-day> - <time-of-day> (interval)",
        Matcher::Time(TimeFilter::TimeOfDayNotLatent),
        Matcher::Text("\\-|\\~"),
        Matcher::Time(TimeFilter::TimeOfDay),
        Production::SpanTo { from: 0, to: 2, inclusive: true },
    ));
    v.push(rule_2(
        "within <duration>",
        Matcher::Duration,
        Matcher::Text("이내에?"),
        Production::Within { child: 0 },
    ));
    v.push(rule_2(
        "within <duration>",
        Matcher::Duration,
        Matcher::Text("(?:안|내)에?"),
        Production::Within { child: 0 },
    ));
    v.push(rule_2(
        "by <time> - 까지",
        Matcher::Time(TimeFilter::Any),
        Matcher::Text("까지"),
        Production::Until { child: 0 },
    ));
    v.push(rule_2(
        "<time-of-day>이전",
        Matcher::Time(TimeFilter::Any),
        Matcher::Text("이?전"),
        Production::Adjust { child: 0, clear_latent: false, approximate: false, direction: Direction::Before },
    ));
    v.push(rule_2(
        "after <time-of-day>",
        Matcher::Time(TimeFilter::Any),
        Matcher::Text("지나(?:서|고)|되면|이?후에?|뒤에?"),
        Production::Adjust { child: 0, clear_latent: false, approximate: false, direction: Direction::After },
    ));
    v.push(rule_2(
        "since <time-of-day>",
        Matcher::Time(TimeFilter::Any),
        Matcher::Text("(이래|이후)로?"),
        Production::Since { child: 0 },
    ));
    v.push(rule_4(
        "from <time> to <time>",
        Matcher::Time(TimeFilter::Any),
        Matcher::Text("부터"),
        Matcher::Time(TimeFilter::Any),
        Matcher::Text("까지"),
        Production::SpanTo { from: 0, to: 2, inclusive: true },
    ));
    v.push(rule_3(
        "during the last n cycle",
        Matcher::Text("과거"),
        Matcher::Integer { min: 0, max: i64::MAX },
        Matcher::Cycle,
        Production::CycleRange { integer: 1, cycle: 2, past: true },
    ));
    v.push(rule_3(
        "during the next n cycle",
        Matcher::Text("앞으로"),
        Matcher::Integer { min: 1, max: i64::MAX },
        Matcher::Cycle,
        Production::CycleRange { integer: 1, cycle: 2, past: false },
    ));
    v.push(rule_4(
        "<duration> from <time>",
        Matcher::Time(TimeFilter::Any),
        Matcher::Text("보다"),
        Matcher::Duration,
        Matcher::Text("후에|뒤에"),
        Production::AfterTime { time: 0, duration: 2 },
    ));
    v
}

/// The rules for times, in the order in which they are registered.
pub open spec fn time_rules() -> Seq<Rule> {
    time_intersections() + time_days() + time_holidays() + time_relatives() + time_clock() + time_dates() + time_parts_of_day() + time_seasons() + time_intervals()
}

/// Registers the rules for times.
pub fn rule_time(b: &mut RuleSetBuilder) -> (r: Result<(), ParserError>)
    requires
        old(b).wf(),
    ensures
        registered(old(b).rules@, time_rules(), final(b).rules@, r),
        final(b).words == old(b).words,
        final(b).wf(),
{
    let mut all: Vec<Rule> = time_intersections_list();
    let mut more_0: Vec<Rule> = time_days_list();
    all.append(&mut more_0);
    let mut more_1: Vec<Rule> = time_holidays_list();
    all.append(&mut more_1);
    let mut more_2: Vec<Rule> = time_relatives_list();
    all.append(&mut more_2);
    let mut more_3: Vec<Rule> = time_clock_list();
    all.append(&mut more_3);
    let mut more_4: Vec<Rule> = time_dates_list();
    all.append(&mut more_4);
    let mut more_5: Vec<Rule> = time_parts_of_day_list();
    all.append(&mut more_5);
    let mut more_6: Vec<Rule> = time_seasons_list();
    all.append(&mut more_6);
    let mut more_7: Vec<Rule> = time_intervals_list();
    all.append(&mut more_7);
    b.add_all(&all)
}

/// The rules for the units of duration.
pub open spec fn duration_units() -> Seq<Rule> {
    seq![
        r1(
            "second (unit-of-duration)",
            Matcher::Text("초"),
            Production::Unit { grain: Grain::Second },
        ),
        r1(
            "minute (unit-of-duration)",
            Matcher::Text("분"),
            Production::Unit { grain: Grain::Minute },
        ),
        r1(
            "hour (unit-of-duration)",
            Matcher::Text("시간?"),
            Production::Unit { grain: Grain::Hour },
        ),
        r1(
            "day (unit-of-duration)",
            Matcher::Text("날|일간?"),
            Production::Unit { grain: Grain::Day },
        ),
        r1(
            "week (unit-of-duration)",
            Matcher::Text("주(?:일|간)?"),
            Production::Unit { grain: Grain::Week },
        ),
        r1(
            "month (unit-of-duration)",
            Matcher::Text("달간?|개월"),
            Production::Unit { grain: Grain::Month },
        ),
        r1(
            "year (unit-of-duration)",
            Matcher::Text("해|연간?|년간?"),
            Production::Unit { grain: Grain::Year },
        ),
    ]
}

fn duration_units_list() -> (v: Vec<Rule>)
    ensures
        v@ == duration_units(),
{
    let mut v: Vec<Rule> = Vec::new();
    v.push(rule_1(
        "second (unit-of-duration)",
        Matcher::Text("초"),
        Production::Unit { grain: Grain::Second },
    ));
    v.push(rule_1(
        "minute (unit-of-duration)",
        Matcher::Text("분"),
        Production::Unit { grain: Grain::Minute },
    ));
    v.push(rule_1(
        "hour (unit-of-duration)",
        Matcher::Text("시간?"),
        Production::Unit { grain: Grain::Hour },
    ));
    v.push(rule_1(
        "day (unit-of-duration)",
        Matcher::Text("날|일간?"),
        Production::Unit { grain: Grain::Day },
    ));
    v.push(rule_1(
        "week (unit-of-duration)",
        Matcher::Text("주(?:일|간)?"),
        Production::Unit { grain: Grain::Week },
    ));
    v.push(rule_1(
        "month (unit-of-duration)",
        Matcher::Text("달간?|개월"),
        Production::Unit { grain: Grain::Month },
    ));
    v.push(rule_1(
        "year (unit-of-duration)",
        Matcher::Text("해|연간?|년간?"),
        Production::Unit { grain: Grain::Year },
    ));
    v
}

/// The rules that make durations and times from durations.
pub open spec fn duration_lengths() -> Seq<Rule> {
    seq![
        r2(
            "<duration>동안",
            Matcher::Duration,
            Matcher::Text("동안|사이에"),
            Production::Same { child: 0 },
        ),
        r2(
            "half an hour",
            Matcher::CycleOf(Grain::Hour),
            Matcher::Text("반"),
            Production::Span { grain: Grain::Minute, count: 30 },
        ),
        r1(
            "a day - 하루",
            Matcher::Text("하루"),
            Production::Span { grain: Grain::Day, count: 1 },
        ),
        r2(
            "<integer> <unit-of-duration>",
            Matcher::Integer { min: 0, max: i64::MAX },
            Matcher::UnitOfDuration,
            Production::DurationOf { integer: 0, unit: 1 },
        ),
        r2(
            "number.number hours",
            Matcher::Text("(\\d+)\\.(\\d+)"),
            Matcher::Text("시간"),
            Production::DecimalHours { child: 0 },
        ),
        r2(
            "<integer> and an half hours",
            Matcher::Integer { min: 0, max: i64::MAX },
            Matcher::Text("시간반"),
            Production::HoursAndHalf { child: 0 },
        ),
        r2(
            "in <duration>",
            Matcher::Duration,
            Matcher::Text("후|뒤|되면|지나(?:고|서|면)|있다가"),
            Production::InPresent { child: 0, after: false },
        ),
        r2(
            "after <duration>",
            Matcher::Duration,
            Matcher::Text("(?:이 ?)후|부터"),
            Production::InPresent { child: 0, after: true },
        ),
        r3(
            "<duration> from now",
            Matcher::Text("지금부터|현시간부터"),
            Matcher::Duration,
            Matcher::Text("후|뒤"),
            Production::InPresent { child: 1, after: false },
        ),
        r2(
            "<duration> ago",
            Matcher::Duration,
            Matcher::Text("이?전"),
            Production::Ago { child: 0 },
        ),
        r2(
            "about <duration>",
            Matcher::Text("대충|약"),
            Matcher::Duration,
            Production::DurationPrecision { child: 1, approximate: true },
        ),
        r2(
            "exactly <duration>",
            Matcher::Text("정확히|딱"),
            Matcher::Duration,
            Production::DurationPrecision { child: 1, approximate: false },
        ),
        r1(
            "Specific number of days",
            Matcher::Text("(하루|이틀|양일|(?:사|나)흘|(?:닷|엿)새|(?:이|여드|아흐)레|열흘|열하루)"),
            Production::DaysWord { child: 0, group: 1 },
        ),
    ]
}

fn duration_lengths_list() -> (v: Vec<Rule>)
    ensures
        v@ == duration_lengths(),
{
    let mut v: Vec<Rule> = Vec::new();
    v.push(rule_2(
        "<duration>동안",
        Matcher::Duration,
        Matcher::Text("동안|사이에"),
        Production::Same { child: 0 },
    ));
    v.push(rule_2(
        "half an hour",
        Matcher::CycleOf(Grain::Hour),
        Matcher::Text("반"),
        Production::Span { grain: Grain::Minute, count: 30 },
    ));
    v.push(rule_1(
        "a day - 하루",
        Matcher::Text("하루"),
        Production::Span { grain: Grain::Day, count: 1 },
    ));
    v.push(rule_2(
        "<integer> <unit-of-duration>",
        Matcher::Integer { min: 0, max: i64::MAX },
        Matcher::UnitOfDuration,
        Production::DurationOf { integer: 0, unit: 1 },
    ));
    v.push(rule_2(
        "number.number hours",
        Matcher::Text("(\\d+)\\.(\\d+)"),
        Matcher::Text("시간"),
        Production::DecimalHours { child: 0 },
    ));
    v.push(rule_2(
        "<integer> and an half hours",
        Matcher::Integer { min: 0, max: i64::MAX },
        Matcher::Text("시간반"),
        Production::HoursAndHalf { child: 0 },
    ));
    v.push(rule_2(
        "in <duration>",
        Matcher::Duration,
        Matcher::Text("후|뒤|되면|지나(?:고|서|면)|있다가"),
        Production::InPresent { child: 0, after: false },
    ));
    v.push(rule_2(
        "after <duration>",
        Matcher::Duration,
        Matcher::Text("(?:이 ?)후|부터"),
        Production::InPresent { child: 0, after: true },
    ));
    v.push(rule_3(
        "<duration> from now",
        Matcher::Text("지금부터|현시간부터"),
        Matcher::Duration,
        Matcher::Text("후|뒤"),
        Production::InPresent { child: 1, after: false },
    ));
    v.push(rule_2(
        "<duration> ago",
        Matcher::Duration,
        Matcher::Text("이?전"),
        Production::Ago { child: 0 },
    ));
    v.push(rule_2(
        "about <duration>",
        Matcher::Text("대충|약"),
        Matcher::Duration,
        Production::DurationPrecision { child: 1, approximate: true },
    ));
    v.push(rule_2(
        "exactly <duration>",
        Matcher::Text("정확히|딱"),
        Matcher::Duration,
        Production::DurationPrecision { child: 1, approximate: false },
    ));
    v.push(rule_1(
        "Specific number of days",
        Matcher::Text("(하루|이틀|양일|(?:사|나)흘|(?:닷|엿)새|(?:이|여드|아흐)레|열흘|열하루)"),
        Production::DaysWord { child: 0, group: 1 },
    ));
    v
}

/// The rules for durations.
pub open spec fn duration_rules() -> Seq<Rule> {
    duration_units() + duration_lengths()
}

/// Registers the rules for durations.
pub fn rules_duration(b: &mut RuleSetBuilder) -> (r: Result<(), ParserError>)
    requires
        old(b).wf(),
    ensures
        registered(old(b).rules@, duration_rules(), final(b).rules@, r),
        final(b).words == old(b).words,
        final(b).wf(),
{
    let mut all: Vec<Rule> = duration_units_list();
    let mut more_0: Vec<Rule> = duration_lengths_list();
    all.append(&mut more_0);
    b.add_all(&all)
}

/// The rules for the cycles themselves.
pub open spec fn cycle_grains() -> Seq<Rule> {
    seq![
        r1(
            "second (cycle)",
            Matcher::Text("초"),
            Production::Cycle { grain: Grain::Second },
        ),
        r1(
            "minute (cycle)",
            Matcher::Text("분"),
            Production::Cycle { grain: Grain::Minute },
        ),
        r1(
            "hour (cycle)",
            Matcher::Text("시간?"),
            Production::Cycle { grain: Grain::Hour },
        ),
        r1(
            "day (cycle)",
            Matcher::Text("날|일간?"),
            Production::Cycle { grain: Grain::Day },
        ),
        r1(
            "week (cycle)",
            Matcher::Text("주(?:간|일)?"),
            Production::Cycle { grain: Grain::Week },
        ),
        r1(
            "month (cycle)",
            Matcher::Text("(?:달|개?월)"),
            Production::Cycle { grain: Grain::Month },
        ),
        r1(
            "quarter (cycle)",
            Matcher::Text("분기"),
            Production::Cycle { grain: Grain::Quarter },
        ),
        r1(
            "year (cycle)",
            Matcher::Text("해|(?:연|년)간?"),
            Production::Cycle { grain: Grain::Year },
        ),
    ]
}

fn cycle_grains_list() -> (v: Vec<Rule>)
    ensures
        v@ == cycle_grains(),
{
    let mut v: Vec<Rule> = Vec::new();
    v.push(rule_1(
        "second (cycle)",
        Matcher::Text("초"),
        Production::Cycle { grain: Grain::Second },
    ));
    v.push(rule_1(
        "minute (cycle)",
        Matcher::Text("분"),
        Production::Cycle { grain: Grain::Minute },
    ));
    v.push(rule_1(
        "hour (cycle)",
        Matcher::Text("시간?"),
        Production::Cycle { grain: Grain::Hour },
    ));
    v.push(rule_1(
        "day (cycle)",
        Matcher::Text("날|일간?"),
        Production::Cycle { grain: Grain::Day },
    ));
    v.push(rule_1(
        "week (cycle)",
        Matcher::Text("주(?:간|일)?"),
        Production::Cycle { grain: Grain::Week },
    ));
    v.push(rule_1(
        "month (cycle)",
        Matcher::Text("(?:달|개?월)"),
        Production::Cycle { grain: Grain::Month },
    ));
    v.push(rule_1(
        "quarter (cycle)",
        Matcher::Text("분기"),
        Production::Cycle { grain: Grain::Quarter },
    ));
    v.push(rule_1(
        "year (cycle)",
        Matcher::Text("해|(?:연|년)간?"),
        Production::Cycle { grain: Grain::Year },
    ));
    v
}

/// The rules that make times from cycles.
pub open spec fn cycle_windows() -> Seq<Rule> {
    seq![
        r2(
            "this <cycle>",
            Matcher::Text("이번?|금|올|돌아오는"),
            Matcher::Cycle,
            Production::CycleNthOf { cycle: 1, offset: 0 },
        ),
        r2(
            "last <cycle>",
            Matcher::Text("지난|작|전|저번|거"),
            Matcher::Cycle,
            Production::CycleNthOf { cycle: 1, offset: -1i64 },
        ),
        r2(
            "next <cycle>",
            Matcher::Text("다음|차|오는|내|새|훗"),
            Matcher::Cycle,
            Production::CycleNthOf { cycle: 1, offset: 1 },
        ),
        r3(
            "<time> 마지막 <cycle>",
            Matcher::Time(TimeFilter::Any),
            Matcher::Text("다음|오는|차|내"),
            Matcher::Cycle,
            Production::LastCycleOf { cycle: 2, outer: 0 },
        ),
        r3(
            "<time> <ordinal> <cycle>",
            Matcher::Time(TimeFilter::Any),
            Matcher::Ordinal,
            Matcher::Cycle,
            Production::NthCycleAfter { time: 0, ordinal: 1, cycle: 2 },
        ),
        r1(
            "the day after tomorrow - 내일모래",
            Matcher::Text("(?:내일)?모레|명후일|다음다음 ?날"),
            Production::CycleTwice { grain: Grain::Day, offset: 1 },
        ),
        r1(
            "the day before yesterday - 엊그제",
            Matcher::Text("그(?:제|재)|그저께|전전 ?날|재작일"),
            Production::CycleTwice { grain: Grain::Day, offset: -1i64 },
        ),
        r3(
            "last n <cycle>",
            Matcher::Text("지난"),
            Matcher::Integer { min: 1, max: 9999 },
            Matcher::Cycle,
            Production::CycleCount { integer: 1, cycle: 2, past: true },
        ),
        r3(
            "next n <cycle>",
            Matcher::Text("다음"),
            Matcher::Integer { min: 1, max: 9999 },
            Matcher::Cycle,
            Production::CycleCount { integer: 1, cycle: 2, past: false },
        ),
        r2(
            "<1..4> quarter",
            Matcher::Integer { min: 1, max: 4 },
            Matcher::CycleOf(Grain::Quarter),
            Production::Quarter { integer: 0 },
        ),
        r3(
            "<year> <1..4>quarter",
            Matcher::Time(TimeFilter::Any),
            Matcher::Integer { min: 1, max: 4 },
            Matcher::CycleOf(Grain::Quarter),
            Production::QuarterOf { time: 0, integer: 1 },
        ),
    ]
}

fn cycle_windows_list() -> (v: Vec<Rule>)
    ensures
        v@ == cycle_windows(),
{
    let mut v: Vec<Rule> = Vec::new();
    v.push(rule_2(
        "this <cycle>",
        Matcher::Text("이번?|금|올|돌아오는"),
        Matcher::Cycle,
        Production::CycleNthOf { cycle: 1, offset: 0 },
    ));
    v.push(rule_2(
        "last <cycle>",
        Matcher::Text("지난|작|전|저번|거"),
        Matcher::Cycle,
        Production::CycleNthOf { cycle: 1, offset: -1i64 },
    ));
    v.push(rule_2(
        "next <cycle>",
        Matcher::Text("다음|차|오는|내|새|훗"),
        Matcher::Cycle,
        Production::CycleNthOf { cycle: 1, offset: 1 },
    ));
    v.push(rule_3(
        "<time> 마지막 <cycle>",
        Matcher::Time(TimeFilter::Any),
        Matcher::Text("다음|오는|차|내"),
        Matcher::Cycle,
        Production::LastCycleOf { cycle: 2, outer: 0 },
    ));
    v.push(rule_3(
        "<time> <ordinal> <cycle>",
        Matcher::Time(TimeFilter::Any),
        Matcher::Ordinal,
        Matcher::Cycle,
        Production::NthCycleAfter { time: 0, ordinal: 1, cycle: 2 },
    ));
    v.push(rule_1(
        "the day after tomorrow - 내일모래",
        Matcher::Text("(?:내일)?모레|명후일|다음다음 ?날"),
        Production::CycleTwice { grain: Grain::Day, offset: 1 },
    ));
    v.push(rule_1(
        "the day before yesterday - 엊그제",
        Matcher::Text("그(?:제|재)|그저께|전전 ?날|재작일"),
        Production::CycleTwice { grain: Grain::Day, offset: -1i64 },
    ));
    v.push(rule_3(
        "last n <cycle>",
        Matcher::Text("지난"),
        Matcher::Integer { min: 1, max: 9999 },
        Matcher::Cycle,
        Production::CycleCount { integer: 1, cycle: 2, past: true },
    ));
    v.push(rule_3(
        "next n <cycle>",
        Matcher::Text("다음"),
        Matcher::Integer { min: 1, max: 9999 },
        Matcher::Cycle,
        Production::CycleCount { integer: 1, cycle: 2, past: false },
    ));
    v.push(rule_2(
        "<1..4> quarter",
        Matcher::Integer { min: 1, max: 4 },
        Matcher::CycleOf(Grain::Quarter),
        Production::Quarter { integer: 0 },
    ));
    v.push(rule_3(
        "<year> <1..4>quarter",
        Matcher::Time(TimeFilter::Any),
        Matcher::Integer { min: 1, max: 4 },
        Matcher::CycleOf(Grain::Quarter),
        Production::QuarterOf { time: 0, integer: 1 },
    ));
    v
}

/// The rules for cycles.
pub open spec fn cycle_rules() -> Seq<Rule> {
    cycle_grains() + cycle_windows()
}

/// Registers the rules for cycles.
pub fn rules_cycle(b: &mut RuleSetBuilder) -> (r: Result<(), ParserError>)
    requires
        old(b).wf(),
    ensures
        registered(old(b).rules@, cycle_rules(), final(b).rules@, r),
        final(b).words == old(b).words,
        final(b).wf(),
{
    let mut all: Vec<Rule> = cycle_grains_list();
    let mut more_0: Vec<Rule> = cycle_windows_list();
    all.append(&mut more_0);
    b.add_all(&all)
}

/// The rules for whole numbers and ordinals.
pub open spec fn number_integers() -> Seq<Rule> {
    seq![
        r1(
            "integer (numeric)",
            Matcher::Text("(\\d{1,18})"),
            Production::IntegerText { child: 0, group: 1, separated: false },
        ),
        r1(
            "integer with thousands separator ,",
            Matcher::Text("(\\d{1,3}(,\\d\\d\\d){1,5})"),
            Production::IntegerText { child: 0, group: 1, separated: true },
        ),
        r1(
            "integer 0",
            Matcher::Text("영|공|빵"),
            Production::Integer { value: 0, approximate: false },
        ),
        r1(
            "half - 반",
            Matcher::Text("반"),
            Production::Ratio { numerator: 1, denominator: 2 },
        ),
        r1(
            "few 몇",
            Matcher::Text("몇"),
            Production::Integer { value: 3, approximate: true },
        ),
        r1(
            "integer - TYPE 1",
            Matcher::Text("[일|이|삼|사|오|육|칠|팔|구|십|백|천|만|억|조]+"),
            Production::Numeral { child: 0 },
        ),
        r1(
            "integer (1..10) - TYPE 2",
            Matcher::Text("(하나|둘|셋|넷|다섯|여섯|일곱|여덟|아홉)"),
            Production::NumberWord { child: 0, group: 1, table: WordTable::NativeUnits },
        ),
        r1(
            "integer (1..4) - for ordinals",
            Matcher::Text("(한|두|세|네)"),
            Production::NumberWord { child: 0, group: 1, table: WordTable::NativeCounters },
        ),
        r1(
            "first ordinal",
            Matcher::Text("첫(?:번째|번|째|째번)?"),
            Production::Ordinal { value: 1 },
        ),
        r1(
            "integer (20..90) - TYPE 2 and ordinals",
            Matcher::Text("(열|스물|서른|마흔|쉰|예순|일흔|여든|아흔)"),
            Production::NumberWord { child: 0, group: 1, table: WordTable::NativeTens },
        ),
        r2(
            "integer (11..99) - TYPE 2",
            Matcher::RoundInteger { min: 10, max: 90 },
            Matcher::Integer { min: 1, max: 9 },
            Production::Sum { left: 0, right: 1 },
        ),
    ]
}

fn number_integers_list() -> (v: Vec<Rule>)
    ensures
        v@ == number_integers(),
{
    let mut v: Vec<Rule> = Vec::new();
    v.push(rule_1(
        "integer (numeric)",
        Matcher::Text("(\\d{1,18})"),
        Production::IntegerText { child: 0, group: 1, separated: false },
    ));
    v.push(rule_1(
        "integer with thousands separator ,",
        Matcher::Text("(\\d{1,3}(,\\d\\d\\d){1,5})"),
        Production::IntegerText { child: 0, group: 1, separated: true },
    ));
    v.push(rule_1(
        "integer 0",
        Matcher::Text("영|공|빵"),
        Production::Integer { value: 0, approximate: false },
    ));
    v.push(rule_1(
        "half - 반",
        Matcher::Text("반"),
        Production::Ratio { numerator: 1, denominator: 2 },
    ));
    v.push(rule_1(
        "few 몇",
        Matcher::Text("몇"),
        Production::Integer { value: 3, approximate: true },
    ));
    v.push(rule_1(
        "integer - TYPE 1",
        Matcher::Text("[일|이|삼|사|오|육|칠|팔|구|십|백|천|만|억|조]+"),
        Production::Numeral { child: 0 },
    ));
    v.push(rule_1(
        "integer (1..10) - TYPE 2",
        Matcher::Text("(하나|둘|셋|넷|다섯|여섯|일곱|여덟|아홉)"),
        Production::NumberWord { child: 0, group: 1, table: WordTable::NativeUnits },
    ));
    v.push(rule_1(
        "integer (1..4) - for ordinals",
        Matcher::Text("(한|두|세|네)"),
        Production::NumberWord { child: 0, group: 1, table: WordTable::NativeCounters },
    ));
    v.push(rule_1(
        "first ordinal",
        Matcher::Text("첫(?:번째|번|째|째번)?"),
        Production::Ordinal { value: 1 },
    ));
    v.push(rule_1(
        "integer (20..90) - TYPE 2 and ordinals",
        Matcher::Text("(열|스물|서른|마흔|쉰|예순|일흔|여든|아흔)"),
        Production::NumberWord { child: 0, group: 1, table: WordTable::NativeTens },
    ));
    v.push(rule_2(
        "integer (11..99) - TYPE 2",
        Matcher::RoundInteger { min: 10, max: 90 },
        Matcher::Integer { min: 1, max: 9 },
        Production::Sum { left: 0, right: 1 },
    ));
    v
}

/// The rules for decimals, signs, ordinals and fractions.
pub open spec fn number_fractions() -> Seq<Rule> {
    seq![
        r1(
            "decimal number",
            Matcher::Text("(\\d*\\.\\d+)"),
            Production::DecimalText { child: 0, group: 1, separated: false },
        ),
        r2(
            "number dot number - 삼점사",
            Matcher::Unprefixed,
            Matcher::Text("(점|쩜)([일|이|삼|사|오|육|칠|팔|구|영]+)"),
            Production::DotDigits { number: 0, digits: 1, group: 2 },
        ),
        r1(
            "decimal with thousands separator",
            Matcher::Text("(\\d+(,\\d\\d\\d)+\\.\\d+)"),
            Production::DecimalText { child: 0, group: 1, separated: true },
        ),
        r2(
            "numbers prefix with -, 마이너스, or 마이나스",
            Matcher::Text("-|마이너스\\s?|마이나스\\s?"),
            Matcher::Unprefixed,
            Production::Negative { child: 1 },
        ),
        r2(
            "ordinals (첫번째)",
            Matcher::Integer { min: i64::MIN, max: i64::MAX },
            Matcher::Text("번째|째|째번"),
            Production::OrdinalOf { child: 0 },
        ),
        r3(
            "fraction",
            Matcher::Unprefixed,
            Matcher::Text("분(의|에)"),
            Matcher::Unsuffixed,
            Production::Quotient { top: 2, bottom: 0 },
        ),
        r3(
            "fraction",
            Matcher::Unprefixed,
            Matcher::Text("/"),
            Matcher::Unsuffixed,
            Production::Quotient { top: 0, bottom: 2 },
        ),
    ]
}

fn number_fractions_list() -> (v: Vec<Rule>)
    ensures
        v@ == number_fractions(),
{
    let mut v: Vec<Rule> = Vec::new();
    v.push(rule_1(
        "decimal number",
        Matcher::Text("(\\d*\\.\\d+)"),
        Production::DecimalText { child: 0, group: 1, separated: false },
    ));
    v.push(rule_2(
        "number dot number - 삼점사",
        Matcher::Unprefixed,
        Matcher::Text("(점|쩜)([일|이|삼|사|오|육|칠|팔|구|영]+)"),
        Production::DotDigits { number: 0, digits: 1, group: 2 },
    ));
    v.push(rule_1(
        "decimal with thousands separator",
        Matcher::Text("(\\d+(,\\d\\d\\d)+\\.\\d+)"),
        Production::DecimalText { child: 0, group: 1, separated: true },
    ));
    v.push(rule_2(
        "numbers prefix with -, 마이너스, or 마이나스",
        Matcher::Text("-|마이너스\\s?|마이나스\\s?"),
        Matcher::Unprefixed,
        Production::Negative { child: 1 },
    ));
    v.push(rule_2(
        "ordinals (첫번째)",
        Matcher::Integer { min: i64::MIN, max: i64::MAX },
        Matcher::Text("번째|째|째번"),
        Production::OrdinalOf { child: 0 },
    ));
    v.push(rule_3(
        "fraction",
        Matcher::Unprefixed,
        Matcher::Text("분(의|에)"),
        Matcher::Unsuffixed,
        Production::Quotient { top: 2, bottom: 0 },
    ));
    v.push(rule_3(
        "fraction",
        Matcher::Unprefixed,
        Matcher::Text("/"),
        Matcher::Unsuffixed,
        Production::Quotient { top: 0, bottom: 2 },
    ));
    v
}

/// The rules for numbers.
pub open spec fn number_rules() -> Seq<Rule> {
    number_integers() + number_fractions()
}

/// Registers the rules for numbers.
pub fn rules_numbers(b: &mut RuleSetBuilder) -> (r: Result<(), ParserError>)
    requires
        old(b).wf(),
    ensures
        registered(old(b).rules@, number_rules(), final(b).rules@, r),
        final(b).words == old(b).words,
        final(b).wf(),
{
    let mut all: Vec<Rule> = number_integers_list();
    let mut more_0: Vec<Rule> = number_fractions_list();
    all.append(&mut more_0);
    b.add_all(&all)
}

} // verus!
