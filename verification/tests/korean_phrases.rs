use rustling_ontology::calendar::Moment;
use rustling_ontology::duration::Period;
use rustling_ontology::number::Precision;
use rustling_ontology::output::DurationOutput;
use rustling_ontology::output::TimeIntervalOutput;
use rustling_ontology::output::TimeOutput;
use rustling_ontology::build_parser;
use rustling_ontology::DimensionKind;
use rustling_ontology::Grain;
use rustling_ontology::Lang;
use rustling_ontology::Model;
use rustling_ontology::Output;
use rustling_ontology::Parser;
use rustling_ontology::ParsingContext;

fn at(year: i64, month: i64, day: i64, hour: i64, minute: i64, second: i64) -> Moment {
    Moment { year, month, day, hour, minute, second }
}

fn korean() -> Parser {
    build_parser(Lang::KO, Model::empty()).unwrap()
}

fn reference() -> ParsingContext {
    ParsingContext::new(at(2013, 2, 12, 4, 30, 0)).unwrap()
}

fn time(moment: Moment, grain: Grain) -> Output {
    Output::Time(TimeOutput { moment, grain, precision: Precision::Exact })
}

fn between(start: Moment, end: Moment, grain: Grain) -> Output {
    Output::TimeInterval(TimeIntervalOutput::Between {
        start,
        end,
        grain,
        precision: Precision::Exact,
    })
}

fn duration(grain: Grain, count: i64, precision: Precision) -> Output {
    Output::Duration(DurationOutput { period: Period::of(grain, count), precision })
}

fn check(kind: DimensionKind, cases: Vec<(&str, Output)>) {
    let parser = korean();
    let ctx = reference();
    for (text, expected) in cases {
        let found = parser.parse_with_kind_order(text, &ctx, &vec![kind], true).unwrap();
        let values: Vec<Output> = found.iter().map(|m| m.value).collect();
        assert_eq!(values, vec![expected], "{}", text);
        assert_eq!(found[0].byte_range, (0, text.len()), "{}", text);
    }
}

#[test]
fn durations_in_korean() {
    check(
        DimensionKind::Duration,
        vec![
            ("30분", duration(Grain::Minute, 30, Precision::Exact)),
            ("2시간", duration(Grain::Hour, 2, Precision::Exact)),
            ("하루", duration(Grain::Day, 1, Precision::Exact)),
            ("이틀", duration(Grain::Day, 2, Precision::Exact)),
            ("3주", duration(Grain::Week, 3, Precision::Exact)),
            ("6개월", duration(Grain::Month, 6, Precision::Exact)),
            ("2년", duration(Grain::Year, 2, Precision::Exact)),
            ("약 3시간", duration(Grain::Hour, 3, Precision::Approximate)),
            ("2시간반", duration(Grain::Minute, 150, Precision::Exact)),
            ("1.25시간", duration(Grain::Minute, 75, Precision::Exact)),
            ("3일 동안", duration(Grain::Day, 3, Precision::Exact)),
        ],
    );
}

#[test]
fn days_in_korean() {
    check(
        DimensionKind::Time,
        vec![
            ("지금", time(at(2013, 2, 12, 4, 30, 0), Grain::Second)),
            ("오늘", time(at(2013, 2, 12, 0, 0, 0), Grain::Day)),
            ("내일", time(at(2013, 2, 13, 0, 0, 0), Grain::Day)),
            ("어제", time(at(2013, 2, 11, 0, 0, 0), Grain::Day)),
            ("내일모레", time(at(2013, 2, 14, 0, 0, 0), Grain::Day)),
            ("그저께", time(at(2013, 2, 10, 0, 0, 0), Grain::Day)),
            ("월요일", time(at(2013, 2, 18, 0, 0, 0), Grain::Day)),
            ("화요일", time(at(2013, 2, 12, 0, 0, 0), Grain::Day)),
            ("다음 화요일", time(at(2013, 2, 19, 0, 0, 0), Grain::Day)),
            ("3월", time(at(2013, 3, 1, 0, 0, 0), Grain::Month)),
            ("3월 3일", time(at(2013, 3, 3, 0, 0, 0), Grain::Day)),
            ("십오일", time(at(2013, 2, 15, 0, 0, 0), Grain::Day)),
            ("2015년 3월 3일", time(at(2015, 3, 3, 0, 0, 0), Grain::Day)),
            ("2013-02-15", time(at(2013, 2, 15, 0, 0, 0), Grain::Day)),
            ("10/31", time(at(2013, 10, 31, 0, 0, 0), Grain::Day)),
            ("삼일절", time(at(2013, 3, 1, 0, 0, 0), Grain::Day)),
            ("한글날", time(at(2013, 10, 9, 0, 0, 0), Grain::Day)),
            ("2014년", time(at(2014, 1, 1, 0, 0, 0), Grain::Year)),
            ("3월 첫째 화요일", time(at(2013, 3, 5, 0, 0, 0), Grain::Day)),
            ("3월 마지막 월요일", time(at(2013, 3, 25, 0, 0, 0), Grain::Day)),
        ],
    );
}

#[test]
fn cycles_in_korean() {
    check(
        DimensionKind::Time,
        vec![
            ("이번 주", time(at(2013, 2, 11, 0, 0, 0), Grain::Week)),
            ("지난 주", time(at(2013, 2, 4, 0, 0, 0), Grain::Week)),
            ("다음 주", time(at(2013, 2, 18, 0, 0, 0), Grain::Week)),
            ("지난 달", time(at(2013, 1, 1, 0, 0, 0), Grain::Month)),
            ("다음 달", time(at(2013, 3, 1, 0, 0, 0), Grain::Month)),
            ("이번 분기", time(at(2013, 1, 1, 0, 0, 0), Grain::Quarter)),
            ("다음 분기", time(at(2013, 4, 1, 0, 0, 0), Grain::Quarter)),
            ("작년", time(at(2012, 1, 1, 0, 0, 0), Grain::Year)),
            ("내년", time(at(2014, 1, 1, 0, 0, 0), Grain::Year)),
            ("3분기", time(at(2013, 7, 1, 0, 0, 0), Grain::Quarter)),
            (
                "지난 2주",
                between(at(2013, 1, 28, 0, 0, 0), at(2013, 2, 11, 0, 0, 0), Grain::Week),
            ),
            (
                "앞으로 3일",
                between(at(2013, 2, 13, 0, 0, 0), at(2013, 2, 16, 0, 0, 0), Grain::Day),
            ),
        ],
    );
}

#[test]
fn times_of_day_in_korean() {
    check(
        DimensionKind::Time,
        vec![
            ("3시", time(at(2013, 2, 12, 15, 0, 0), Grain::Hour)),
            ("오후 3시", time(at(2013, 2, 12, 15, 0, 0), Grain::Hour)),
            ("오전 9시", time(at(2013, 2, 12, 9, 0, 0), Grain::Hour)),
            ("저녁 7시", time(at(2013, 2, 12, 19, 0, 0), Grain::Hour)),
            ("15시", time(at(2013, 2, 12, 15, 0, 0), Grain::Hour)),
            ("자정", time(at(2013, 2, 13, 0, 0, 0), Grain::Hour)),
            ("3시 15분", time(at(2013, 2, 12, 15, 15, 0), Grain::Minute)),
            ("5시 반", time(at(2013, 2, 12, 5, 30, 0), Grain::Minute)),
            ("5시 15분 전", time(at(2013, 2, 12, 4, 45, 0), Grain::Minute)),
            ("15:23", time(at(2013, 2, 12, 15, 23, 0), Grain::Minute)),
            ("15:23:24", time(at(2013, 2, 12, 15, 23, 24), Grain::Second)),
            ("내일 오후 2시", time(at(2013, 2, 13, 14, 0, 0), Grain::Hour)),
        ],
    );
}

#[test]
fn stretches_in_korean() {
    check(
        DimensionKind::Time,
        vec![
            (
                "오전 9시부터 오전 11시까지",
                between(at(2013, 2, 12, 9, 0, 0), at(2013, 2, 12, 12, 0, 0), Grain::Hour),
            ),
            (
                "여름",
                between(at(2013, 6, 21, 0, 0, 0), at(2013, 9, 23, 0, 0, 0), Grain::Day),
            ),
            (
                "겨울",
                between(at(2012, 12, 21, 0, 0, 0), at(2013, 3, 20, 0, 0, 0), Grain::Day),
            ),
            (
                "오늘 저녁",
                between(at(2013, 2, 12, 18, 0, 0), at(2013, 2, 13, 0, 0, 0), Grain::Hour),
            ),
        ],
    );
}

#[test]
fn times_named_from_other_times_in_korean() {
    check(
        DimensionKind::Time,
        vec![
            ("2시간 후", time(at(2013, 2, 12, 6, 30, 0), Grain::Hour)),
            ("3일 전", time(at(2013, 2, 9, 4, 30, 0), Grain::Day)),
            (
                "3시 지나서",
                Output::TimeInterval(TimeIntervalOutput::After {
                    start: at(2013, 2, 12, 15, 0, 0),
                    grain: Grain::Hour,
                    precision: Precision::Exact,
                }),
            ),
            (
                "3시까지",
                between(at(2013, 2, 12, 4, 30, 0), at(2013, 2, 12, 15, 0, 0), Grain::Second),
            ),
            (
                "2시간 이내에",
                between(at(2013, 2, 12, 4, 30, 0), at(2013, 2, 12, 6, 30, 0), Grain::Second),
            ),
            ("3월 마지막 주", time(at(2013, 3, 25, 0, 0, 0), Grain::Week)),
            ("3월 첫째 주", time(at(2013, 3, 4, 0, 0, 0), Grain::Week)),
            ("2013년 2분기", time(at(2013, 4, 1, 0, 0, 0), Grain::Quarter)),
        ],
    );
}
