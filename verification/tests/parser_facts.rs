use rustling_ontology::apply::produce;
use rustling_ontology::args::Arg;
use rustling_ontology::calendar::Moment;
use rustling_ontology::dimension::Dimension;
use rustling_ontology::dimension::DimensionKind;
use rustling_ontology::duration::DurationValue;
use rustling_ontology::duration::Period;
use rustling_ontology::error::ParserError;
use rustling_ontology::error::ProductionError;
use rustling_ontology::grain::Grain;
use rustling_ontology::helpers::hour;
use rustling_ontology::number::IntegerValue;
use rustling_ontology::number::NumberValue;
use rustling_ontology::number::Precision;
use rustling_ontology::output::DurationOutput;
use rustling_ontology::output::FloatOutput;
use rustling_ontology::output::IntegerOutput;
use rustling_ontology::output::OrdinalOutput;
use rustling_ontology::output::Output;
use rustling_ontology::output::ParsingContext;
use rustling_ontology::output::TimeIntervalOutput;
use rustling_ontology::output::TimeOutput;
use rustling_ontology::parser::build_parser;
use rustling_ontology::parser::build_raw_parser;
use rustling_ontology::ranker::check_model;
use rustling_ontology::parser::train_parser;
use rustling_ontology::parser::Lang;
use rustling_ontology::parser::Parser;
use rustling_ontology::pattern::compiles;
use rustling_ontology::ranker::Model;
use rustling_ontology::rule::Matcher;
use rustling_ontology::rule::Production;
use rustling_ontology::ruleset::rule_1;
use rustling_ontology::ruleset::rule_2;
use rustling_ontology::ruleset::RuleSetBuilder;
use rustling_ontology::select::ParserMatch;
use rustling_ontology::train::Example;

fn at(year: i64, month: i64, day: i64, hour: i64, minute: i64, second: i64) -> Moment {
    Moment { year, month, day, hour, minute, second }
}

fn context(year: i64, month: i64, day: i64) -> ParsingContext {
    ParsingContext::new(at(year, month, day, 0, 0, 0)).unwrap()
}

fn korean() -> Parser {
    build_parser(Lang::KO, Model::empty()).unwrap()
}

fn english() -> Parser {
    build_parser(Lang::EN, Model::empty()).unwrap()
}

fn day(year: i64, month: i64, day: i64) -> Output {
    Output::Time(TimeOutput {
        moment: at(year, month, day, 0, 0, 0),
        grain: Grain::Day,
        precision: Precision::Exact,
    })
}

fn values(found: &Vec<ParserMatch<Output>>) -> Vec<Output> {
    found.iter().map(|m| m.value).collect()
}

fn chars(s: &str) -> Vec<char> {
    s.chars().collect()
}

#[test]
fn bytes_and_characters_name_the_same_text() {
    let ctx = context(2017, 1, 15);
    let text = "회의는 내일 3시에";
    let found = korean().parse(text, &ctx, false).unwrap();
    assert!(!found.is_empty());
    for m in &found {
        let by_chars: String =
            text.chars().skip(m.char_range.0).take(m.char_range.1 - m.char_range.0).collect();
        assert_eq!(&text[m.byte_range.0..m.byte_range.1], by_chars);
    }
    let tomorrow: Vec<_> = found.iter().filter(|m| m.value == day(2017, 1, 16)).collect();
    assert_eq!(tomorrow.len(), 1);
    assert_eq!(tomorrow[0].char_range, (4, 6));
    assert_eq!(tomorrow[0].byte_range, (10, 16));
}

#[test]
fn no_two_matches_overlap_when_overlaps_are_removed() {
    let ctx = context(2017, 1, 15);
    let text = "내일 3시 30분 그리고 다음 주 화요일";
    let all = korean().parse(text, &ctx, false).unwrap();
    let kept = korean().parse(text, &ctx, true).unwrap();
    assert!(kept.len() < all.len());
    assert!(!kept.is_empty());
    for (i, a) in kept.iter().enumerate() {
        for (j, b) in kept.iter().enumerate() {
            if i != j {
                assert!(a.byte_range.1 <= b.byte_range.0 || b.byte_range.1 <= a.byte_range.0);
            }
        }
    }
    let mut overlapping = false;
    for (i, a) in all.iter().enumerate() {
        for (j, b) in all.iter().enumerate() {
            if i != j && a.byte_range.0 < b.byte_range.1 && b.byte_range.0 < a.byte_range.1 {
                overlapping = true;
            }
        }
    }
    assert!(overlapping);
}

#[test]
fn the_same_parse_twice_gives_the_same_matches() {
    let ctx = context(2017, 1, 15);
    let text = "다음 주 화요일 오후 3시";
    let one = korean().parse(text, &ctx, false).unwrap();
    let two = korean().parse(text, &ctx, false).unwrap();
    assert_eq!(one.len(), two.len());
    for (a, b) in one.iter().zip(two.iter()) {
        assert_eq!(a.value, b.value);
        assert_eq!(a.byte_range, b.byte_range);
        assert_eq!(a.char_range, b.char_range);
        assert_eq!(a.probalog, b.probalog);
        assert_eq!(a.latent, b.latent);
    }
}

#[test]
fn a_latent_time_does_not_surface() {
    let ctx = context(2017, 1, 15);
    let found = korean()
        .parse_with_kind_order("3", &ctx, &vec![DimensionKind::Time], false)
        .unwrap();
    assert!(found.is_empty());
    let raw = build_raw_parser(Lang::KO, Model::empty())
        .unwrap()
        .parse_with_kind_order("3", &vec![DimensionKind::Time], false);
    assert_eq!(raw.len(), 1);
    assert!(raw[0].latent);
    let with_particle = korean()
        .parse_with_kind_order("3시", &ctx, &vec![DimensionKind::Time], true)
        .unwrap();
    assert_eq!(with_particle.len(), 1);
    assert!(!with_particle[0].latent);
    let ctx2 = context(2017, 1, 15);
    assert_eq!(ctx2.resolve(&Dimension::Time(hour(3, true).unwrap().latent())), None);
}

#[test]
fn numbers_in_digits_are_themselves() {
    let ctx = context(2017, 1, 15);
    for (text, n) in [
        ("0", 0i64),
        ("7", 7),
        ("42", 42),
        ("1000000", 1000000),
        ("999999999999999999", 999_999_999_999_999_999),
    ] {
        let found = korean()
            .parse_with_kind_order(text, &ctx, &vec![DimensionKind::Number], true)
            .unwrap();
        assert_eq!(values(&found), vec![Output::Integer(IntegerOutput(n))]);
        let english = english().parse(text, &ctx, true).unwrap();
        assert_eq!(values(&english), vec![Output::Integer(IntegerOutput(n))]);
    }
    let separated = english().parse("1,234,567", &ctx, true).unwrap();
    assert_eq!(values(&separated), vec![Output::Integer(IntegerOutput(1234567))]);
}

#[test]
fn a_duration_comes_back_from_its_output() {
    let ctx = context(2017, 1, 15);
    let found = korean()
        .parse_with_kind_order("3일", &ctx, &vec![DimensionKind::Duration], true)
        .unwrap();
    assert_eq!(found.len(), 1);
    let expected = DurationValue::new(Period::of(Grain::Day, 3));
    assert_eq!(found[0].value.duration_of(), Some(expected));
    assert_eq!(
        found[0].value,
        Output::Duration(DurationOutput { period: expected.period, precision: Precision::Exact })
    );
    for grain in [
        Grain::Second,
        Grain::Minute,
        Grain::Hour,
        Grain::Day,
        Grain::Week,
        Grain::Month,
        Grain::Quarter,
        Grain::Year,
    ] {
        let d = DurationValue::new(Period::of(grain, 5));
        let out = ctx.resolve(&Dimension::Duration(d)).unwrap();
        assert_eq!(out.duration_of(), Some(d));
        assert_eq!(d.period.count(grain), 5);
        assert_eq!(d.period.finest_grain(), grain);
    }
    assert_eq!(Output::Integer(IntegerOutput(3)).duration_of(), None);
}

#[test]
fn kinds_are_filtered() {
    let ctx = context(2017, 1, 15);
    let numbers = korean()
        .parse_with_kind_order("3월", &ctx, &vec![DimensionKind::Number], true)
        .unwrap();
    assert_eq!(values(&numbers), vec![Output::Integer(IntegerOutput(3))]);
    let times = korean()
        .parse_with_kind_order("3월", &ctx, &vec![DimensionKind::Time], true)
        .unwrap();
    assert_eq!(
        values(&times),
        vec![Output::Time(TimeOutput {
            moment: at(2017, 3, 1, 0, 0, 0),
            grain: Grain::Month,
            precision: Precision::Exact,
        })]
    );
    let none = korean().parse_with_kind_order("3월", &ctx, &vec![], true).unwrap();
    assert!(none.is_empty());
    let ordinals = korean()
        .parse_with_kind_order("첫째", &ctx, &vec![DimensionKind::Ordinal], true)
        .unwrap();
    assert_eq!(values(&ordinals), vec![Output::Ordinal(OrdinalOutput(1))]);
}

#[test]
fn korean_numbers() {
    let ctx = context(2017, 1, 15);
    let kinds = vec![DimensionKind::Number];
    let cases: Vec<(&str, Output)> = vec![
        ("삼십", Output::Integer(IntegerOutput(30))),
        ("삼천사백오십육", Output::Integer(IntegerOutput(3456))),
        ("스물하나", Output::Integer(IntegerOutput(21))),
        ("영", Output::Integer(IntegerOutput(0))),
        ("-3", Output::Integer(IntegerOutput(-3))),
        ("마이너스 3", Output::Integer(IntegerOutput(-3))),
        ("3.14", Output::Float(FloatOutput { numerator: 314, denominator: 100 })),
        ("1,234.5", Output::Float(FloatOutput { numerator: 12345, denominator: 10 })),
        ("삼점사", Output::Float(FloatOutput { numerator: 34, denominator: 10 })),
        ("3/4", Output::Float(FloatOutput { numerator: 3, denominator: 4 })),
        ("4분의 3", Output::Float(FloatOutput { numerator: 3, denominator: 4 })),
    ];
    for (text, expected) in cases {
        let found = korean().parse_with_kind_order(text, &ctx, &kinds, true).unwrap();
        assert_eq!(values(&found), vec![expected], "{}", text);
    }
    let few = korean().parse_with_kind_order("몇", &ctx, &kinds, true).unwrap();
    assert_eq!(values(&few), vec![Output::Integer(IntegerOutput(3))]);
}

#[test]
fn korean_times() {
    let ctx = context(2017, 1, 15);
    let kinds = vec![DimensionKind::Time];
    let cases: Vec<(&str, Output)> = vec![
        ("오늘", day(2017, 1, 15)),
        ("어제", day(2017, 1, 14)),
        ("모레", day(2017, 1, 17)),
        ("크리스마스", day(2017, 12, 25)),
        ("화요일", day(2017, 1, 17)),
        ("지난 화요일", day(2017, 1, 10)),
        ("2017년 3월 5일", day(2017, 3, 5)),
        ("2017-03-05", day(2017, 3, 5)),
        ("3월 마지막 금요일", day(2017, 3, 31)),
        (
            "다음 주",
            Output::Time(TimeOutput {
                moment: at(2017, 1, 16, 0, 0, 0),
                grain: Grain::Week,
                precision: Precision::Exact,
            }),
        ),
        (
            "오후 3시",
            Output::Time(TimeOutput {
                moment: at(2017, 1, 15, 15, 0, 0),
                grain: Grain::Hour,
                precision: Precision::Exact,
            }),
        ),
        (
            "15:30",
            Output::Time(TimeOutput {
                moment: at(2017, 1, 15, 15, 30, 0),
                grain: Grain::Minute,
                precision: Precision::Exact,
            }),
        ),
        (
            "3시쯤",
            Output::Time(TimeOutput {
                moment: at(2017, 1, 15, 3, 0, 0),
                grain: Grain::Hour,
                precision: Precision::Approximate,
            }),
        ),
        (
            "정오",
            Output::Time(TimeOutput {
                moment: at(2017, 1, 15, 12, 0, 0),
                grain: Grain::Hour,
                precision: Precision::Exact,
            }),
        ),
        (
            "주말",
            Output::TimeInterval(TimeIntervalOutput::Between {
                start: at(2017, 1, 13, 18, 0, 0),
                end: at(2017, 1, 16, 0, 0, 0),
                grain: Grain::Hour,
                precision: Precision::Exact,
            }),
        ),
        (
            "내일 아침",
            Output::TimeInterval(TimeIntervalOutput::Between {
                start: at(2017, 1, 16, 4, 0, 0),
                end: at(2017, 1, 16, 12, 0, 0),
                grain: Grain::Hour,
                precision: Precision::Exact,
            }),
        ),
    ];
    for (text, expected) in cases {
        let found = korean().parse_with_kind_order(text, &ctx, &kinds, true).unwrap();
        assert_eq!(values(&found), vec![expected], "{}", text);
    }
}

#[test]
fn english_numbers() {
    let ctx = context(2017, 1, 15);
    let cases: Vec<(&str, i64)> = vec![
        ("zero", 0),
        ("nineteen", 19),
        ("twenty one", 21),
        ("ninety-nine", 99),
        ("three hundred", 300),
        ("three hundred and five", 305),
        ("two thousand seventeen", 2017),
        ("five million", 5000000),
        ("minus twelve", -12),
    ];
    for (text, expected) in cases {
        let found = english().parse(text, &ctx, true).unwrap();
        assert_eq!(values(&found), vec![Output::Integer(IntegerOutput(expected))], "{}", text);
    }
    let inside = english().parse("money", &ctx, true).unwrap();
    assert!(inside.is_empty());
}

#[test]
fn a_model_decides_between_overlapping_derivations() {
    let ctx = context(2017, 1, 15);
    let plain = korean().parse("3월", &ctx, true).unwrap();
    assert_eq!(plain.len(), 1);
    assert_eq!(plain[0].probalog, 0);
    assert!(matches!(plain[0].value, Output::Time(_)));
    let model = Model {
        bias: 7,
        keys: vec![chars("month|integer (numeric)"), chars("integer (numeric)")],
        weights: vec![-1, 5000000],
    };
    let weighted = build_parser(Lang::KO, model).unwrap();
    let found = weighted.parse("3월", &ctx, true).unwrap();
    assert_eq!(found.len(), 1);
    assert_eq!(found[0].value, Output::Integer(IntegerOutput(3)));
    assert_eq!(found[0].probalog, 5000007);
    let all = weighted.parse("3월", &ctx, false).unwrap();
    let month: Vec<_> = all.iter().filter(|m| matches!(m.value, Output::Time(_))).collect();
    assert_eq!(month.len(), 1);
    assert_eq!(month[0].probalog, 5000006);
}

#[test]
fn a_model_is_fitted_to_examples() {
    let ctx = context(2017, 1, 15);
    let text = "3일 후";
    let kinds = vec![DimensionKind::Time];
    let plain = korean().parse_with_kind_order(text, &ctx, &kinds, true).unwrap();
    assert_eq!(plain.len(), 1);
    let in_three_days = Output::Time(TimeOutput {
        moment: at(2017, 1, 18, 0, 0, 0),
        grain: Grain::Day,
        precision: Precision::Exact,
    });
    assert!(plain[0].value != in_three_days);
    let examples = vec![Example { text: text.to_string(), target: in_three_days }];
    let trained = train_parser(Lang::KO, &examples, &ctx, false).unwrap();
    let found = trained.parse_with_kind_order(text, &ctx, &kinds, true).unwrap();
    assert_eq!(values(&found), vec![in_three_days]);
    assert!(found[0].probalog > 0);
    assert_eq!(check_model(&trained.0.model), None);
    let position = trained
        .0
        .model
        .keys
        .iter()
        .position(|k| k == &chars("in <duration>|<integer> <unit-of-duration>"))
        .unwrap();
    assert_eq!(trained.0.model.weights[position], 1000000);
}

#[test]
fn an_example_without_a_parse_fails_the_training() {
    let ctx = context(2017, 1, 15);
    let good = Example { text: "내일".to_string(), target: day(2017, 1, 16) };
    let bad = Example { text: "내일".to_string(), target: day(2017, 1, 17) };
    assert!(train_parser(Lang::KO, &vec![good], &ctx, false).is_ok());
    let good = Example { text: "내일".to_string(), target: day(2017, 1, 16) };
    assert_eq!(
        train_parser(Lang::KO, &vec![good, bad], &ctx, false).err(),
        Some(ParserError::Training { example: 1 })
    );
    assert!(train_parser(Lang::KO, &vec![], &ctx, false).is_ok());
    let good = Example { text: "내일".to_string(), target: day(2017, 1, 16) };
    let bad = Example { text: "내일".to_string(), target: day(2017, 1, 17) };
    let skipping = train_parser(Lang::KO, &vec![bad, good], &ctx, true).unwrap();
    let position = skipping.0.model.keys.iter().position(|k| k == &chars("tomorrow")).unwrap();
    assert_eq!(skipping.0.model.weights[position], 1000000);
}

#[test]
fn languages_without_rules_have_no_parser() {
    assert_eq!(build_parser(Lang::FR, Model::empty()).err(), Some(ParserError::Language));
    assert_eq!(build_parser(Lang::ES, Model::empty()).err(), Some(ParserError::Language));
    assert_eq!(build_raw_parser(Lang::FR, Model::empty()).err(), Some(ParserError::Language));
    assert_eq!(
        train_parser(Lang::ES, &vec![], &context(2017, 1, 1), false).err(),
        Some(ParserError::Language)
    );
}

#[test]
fn a_model_that_names_a_feature_twice_is_refused() {
    let twice = Model { bias: 0, keys: vec![chars("a"), chars("b"), chars("a")], weights: vec![1, 2, 3] };
    assert_eq!(check_model(&twice), Some(2));
    assert_eq!(build_parser(Lang::KO, twice).err(), Some(ParserError::ModelLoad { entry: 2 }));
    let short = Model { bias: 0, keys: vec![chars("a"), chars("b")], weights: vec![1] };
    assert_eq!(build_parser(Lang::EN, short).err(), Some(ParserError::ModelLoad { entry: 1 }));
    let long = Model { bias: 0, keys: vec![chars("a")], weights: vec![1, 2] };
    assert_eq!(build_parser(Lang::EN, long).err(), Some(ParserError::ModelLoad { entry: 1 }));
    let fine = Model { bias: 0, keys: vec![chars("a"), chars("b")], weights: vec![1, 2] };
    assert_eq!(check_model(&fine), None);
}

#[test]
fn regular_expressions_are_checked_when_a_rule_is_registered() {
    assert!(compiles("(월|화)요일"));
    assert!(compiles("\\d{1,18}"));
    assert!(!compiles("(월"));
    assert!(!compiles("[a"));
    let mut b = RuleSetBuilder::new(false);
    let good = rule_1("good", Matcher::Text("a+"), Production::Integer { value: 1, approximate: false });
    assert_eq!(b.rule(good), Ok(()));
    let bad = rule_2(
        "bad",
        Matcher::Number,
        Matcher::Text("(b"),
        Production::Same { child: 0 },
    );
    assert_eq!(b.rule(bad), Err(ParserError::RuleBuild { rule: 1, matcher: 1 }));
    let empty = rule_1("empty", Matcher::Nothing, Production::Same { child: 0 });
    assert_eq!(b.rule(empty), Err(ParserError::RuleShape { rule: 1 }));
    let hole = rule_2("hole", Matcher::Nothing, Matcher::Number, Production::Same { child: 0 });
    assert_eq!(b.rule(hole), Err(ParserError::RuleShape { rule: 1 }));
    assert_eq!(b.rules.len(), 1);
    let rest = vec![good, bad, good];
    assert_eq!(b.add_all(&rest), Err(ParserError::RuleBuild { rule: 2, matcher: 1 }));
    assert_eq!(b.rules.len(), 2);
    assert_eq!(b.build().rules.len(), 2);
}

#[test]
fn productions_say_why_they_make_nothing() {
    let three = Arg::Value(Dimension::Number(NumberValue::Integer(IntegerValue::new(3))));
    let text = Arg::Text(vec![Some(chars("12x")), Some(chars("12x"))]);
    assert_eq!(
        produce(&Production::MonthOf { child: 0 }, &vec![three]),
        Ok(Dimension::Time(rustling_ontology::helpers::month(3).unwrap()))
    );
    let thirteen = Arg::Value(Dimension::Number(NumberValue::Integer(IntegerValue::new(13))));
    assert_eq!(
        produce(&Production::MonthOf { child: 0 }, &vec![thirteen]),
        Err(ProductionError::OutOfRange)
    );
    assert_eq!(
        produce(&Production::MonthOf { child: 0 }, &vec![text]),
        Err(ProductionError::Malformed)
    );
    assert_eq!(produce(&Production::MonthOf { child: 0 }, &vec![]), Err(ProductionError::Malformed));
    let text = Arg::Text(vec![Some(chars("12x")), Some(chars("12x"))]);
    assert_eq!(
        produce(&Production::IntegerText { child: 0, group: 1, separated: false }, &vec![text]),
        Err(ProductionError::Malformed)
    );
    let most = Arg::Value(Dimension::Number(NumberValue::Integer(IntegerValue::new(i64::MAX))));
    let one = Arg::Value(Dimension::Number(NumberValue::Integer(IntegerValue::new(1))));
    assert_eq!(
        produce(&Production::Sum { left: 0, right: 1 }, &vec![most, one]),
        Err(ProductionError::Overflow)
    );
    assert_eq!(
        produce(&Production::Ratio { numerator: 1, denominator: 0 }, &vec![]),
        Err(ProductionError::DivisionByZero)
    );
    let nine = Arg::Value(Dimension::Time(hour(9, true).unwrap()));
    let ten = Arg::Value(Dimension::Time(hour(10, true).unwrap()));
    assert_eq!(
        produce(&Production::Intersect { left: 0, right: 1 }, &vec![nine, ten]),
        Err(ProductionError::Incompatible)
    );
    let digits = Arg::Text(vec![Some(chars("0042")), Some(chars("0042"))]);
    assert_eq!(
        produce(&Production::IntegerText { child: 0, group: 1, separated: false }, &vec![digits]),
        Ok(Dimension::Number(NumberValue::Integer(IntegerValue::new(42))))
    );
}

#[test]
fn a_context_needs_a_moment_of_the_calendar() {
    assert!(ParsingContext::new(at(2017, 2, 28, 23, 59, 59)).is_some());
    assert!(ParsingContext::new(at(2017, 2, 29, 0, 0, 0)).is_none());
    assert!(ParsingContext::new(at(0, 1, 1, 0, 0, 0)).is_none());
    assert!(ParsingContext::new(at(10000, 1, 1, 0, 0, 0)).is_none());
    let tuesday = ParsingContext::new(at(2013, 2, 12, 4, 30, 0)).unwrap();
    assert_eq!(tuesday.weekday(), rustling_ontology::time::Weekday::Tue);
    let sunday = ParsingContext::new(at(2017, 1, 15, 0, 0, 0)).unwrap();
    assert_eq!(sunday.weekday(), rustling_ontology::time::Weekday::Sun);
}

#[test]
fn a_longer_sentence_is_parsed() {
    let ctx = context(2017, 1, 15);
    let text = "내일 오후 3시 30분에 회의가 있고 다음 주 화요일 오전 10시에 또 회의가 있습니다";
    let kept = korean().parse(text, &ctx, true).unwrap();
    let times: Vec<Output> = kept
        .iter()
        .filter(|m| matches!(m.value, Output::Time(_)))
        .map(|m| m.value)
        .collect();
    assert!(times.contains(&Output::Time(TimeOutput {
        moment: at(2017, 1, 16, 15, 30, 0),
        grain: Grain::Minute,
        precision: Precision::Exact,
    })));
    assert!(times.contains(&Output::Time(TimeOutput {
        moment: at(2017, 1, 17, 10, 0, 0),
        grain: Grain::Hour,
        precision: Precision::Exact,
    })));
}
