use rustling_ontology::calendar::Moment;
use rustling_ontology::dimension::DimensionKind;
use rustling_ontology::duration::Period;
use rustling_ontology::grain::Grain;
use rustling_ontology::number::Precision;
use rustling_ontology::output::DurationOutput;
use rustling_ontology::output::FloatOutput;
use rustling_ontology::output::IntegerOutput;
use rustling_ontology::output::Output;
use rustling_ontology::output::ParsingContext;
use rustling_ontology::output::TimeIntervalOutput;
use rustling_ontology::output::TimeOutput;
use rustling_ontology::parser::build_parser;
use rustling_ontology::parser::Lang;
use rustling_ontology::parser::Parser;
use rustling_ontology::ranker::Model;

fn at(year: i64, month: i64, day: i64, hour: i64, minute: i64, second: i64) -> Moment {
    Moment { year, month, day, hour, minute, second }
}

fn context(year: i64, month: i64, day: i64) -> ParsingContext {
    ParsingContext::new(at(year, month, day, 0, 0, 0)).unwrap()
}

fn korean() -> Parser {
    build_parser(Lang::KO, Model::empty()).unwrap()
}

fn english() -> Parser {
    build_parser(Lang::EN, Model::empty()).unwrap()
}

#[test]
fn test_long_number_en() {
    let ctx = context(2017, 1, 1);
    let parser = english();
    let number = "one million five hundred twenty-one thousand eighty-two";
    let result = parser
        .parse_with_kind_order(number, &ctx, &vec![DimensionKind::Number], true)
        .unwrap();
    let int: IntegerOutput = result[0].value.clone().as_integer().unwrap();
    assert_eq!(1521082, int.0);
    assert_eq!(result.len(), 1);
    assert_eq!(result[0].byte_range, (0, number.len()));
}

#[test]
fn twenty_one_in_english() {
    let ctx = context(2017, 1, 1);
    let result = english().parse("twenty-one", &ctx, true).unwrap();
    assert_eq!(result.len(), 1);
    assert_eq!(result[0].value, Output::Integer(IntegerOutput(21)));
}

#[test]
fn first_tuesday_of_march() {
    let ctx = context(2017, 1, 1);
    let text = "3월 첫째 화요일";
    let result = korean().parse(text, &ctx, true).unwrap();
    assert_eq!(result.len(), 1);
    assert_eq!(
        result[0].value,
        Output::Time(TimeOutput {
            moment: at(2017, 3, 7, 0, 0, 0),
            grain: Grain::Day,
            precision: Precision::Exact,
        })
    );
    assert_eq!(result[0].char_range, (0, 9));
    assert_eq!(result[0].byte_range, (0, text.len()));
}

#[test]
fn tomorrow_in_korean() {
    let ctx = context(2017, 1, 15);
    let result = korean().parse("내일", &ctx, true).unwrap();
    assert_eq!(result.len(), 1);
    assert_eq!(
        result[0].value,
        Output::Time(TimeOutput {
            moment: at(2017, 1, 16, 0, 0, 0),
            grain: Grain::Day,
            precision: Precision::Exact,
        })
    );
}

#[test]
fn from_nine_in_the_morning_to_six_in_the_evening() {
    let ctx = context(2017, 1, 15);
    let result = korean().parse("아침 9시부터 오후 6시까지", &ctx, true).unwrap();
    assert_eq!(result.len(), 1);
    assert_eq!(
        result[0].value,
        Output::TimeInterval(TimeIntervalOutput::Between {
            start: at(2017, 1, 15, 9, 0, 0),
            end: at(2017, 1, 15, 19, 0, 0),
            grain: Grain::Hour,
            precision: Precision::Exact,
        })
    );
}

#[test]
fn three_and_a_half_hours() {
    let ctx = context(2017, 1, 15);
    let result = korean().parse("3.5시간", &ctx, true).unwrap();
    assert_eq!(result.len(), 1);
    assert_eq!(
        result[0].value,
        Output::Duration(DurationOutput {
            period: Period {
                seconds: 0,
                minutes: 210,
                hours: 0,
                days: 0,
                weeks: 0,
                months: 0,
                quarters: 0,
                years: 0,
            },
            precision: Precision::Exact,
        })
    );
}

#[test]
fn half_alone_is_one_half() {
    let ctx = context(2017, 1, 15);
    let result = korean().parse("반", &ctx, true).unwrap();
    assert_eq!(result.len(), 1);
    assert_eq!(result[0].value, Output::Float(FloatOutput { numerator: 1, denominator: 2 }));
}

#[test]
fn half_after_an_hour_is_thirty_minutes() {
    let ctx = context(2017, 1, 15);
    let result = korean().parse("3시 반", &ctx, true).unwrap();
    assert_eq!(result.len(), 1);
    assert_eq!(
        result[0].value,
        Output::Time(TimeOutput {
            moment: at(2017, 1, 15, 3, 30, 0),
            grain: Grain::Minute,
            precision: Precision::Exact,
        })
    );
}

#[test]
fn unrecognised_input_gives_no_match() {
    let ctx = context(2017, 1, 15);
    assert_eq!(korean().parse("zzz", &ctx, true).unwrap().len(), 0);
    assert_eq!(korean().parse("", &ctx, true).unwrap().len(), 0);
}

#[test]
fn a_bare_number_is_no_time() {
    let ctx = context(2017, 1, 15);
    let result = korean().parse("3", &ctx, false).unwrap();
    assert_eq!(result.len(), 1);
    assert_eq!(result[0].value, Output::Integer(IntegerOutput(3)));
    assert!(!result[0].latent);
}
