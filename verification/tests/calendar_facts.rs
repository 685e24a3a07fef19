use rustling_ontology::calendar::add_months;
use rustling_ontology::calendar::date_from_day;
use rustling_ontology::calendar::day_of_date;
use rustling_ontology::calendar::is_leap_year;
use rustling_ontology::calendar::is_valid_date;
use rustling_ontology::calendar::month_length;
use rustling_ontology::calendar::shift_window;
use rustling_ontology::calendar::truncate;
use rustling_ontology::calendar::Date;
use rustling_ontology::calendar::Moment;
use rustling_ontology::grain::Grain;

fn instant(year: i64, month: i64, day: i64, hour: i64, minute: i64, second: i64) -> i64 {
    Moment { year, month, day, hour, minute, second }.to_instant()
}

#[test]
fn day_numbers_count_from_the_first_of_january_of_year_one() {
    assert_eq!(day_of_date(Date { year: 1, month: 1, day: 1 }), 0);
    assert_eq!(day_of_date(Date { year: 1970, month: 1, day: 1 }), 719162);
    assert_eq!(day_of_date(Date { year: 2017, month: 3, day: 7 }), 736394);
    assert_eq!(day_of_date(Date { year: 9999, month: 12, day: 31 }), 3652058);
}

#[test]
fn dates_come_back_from_their_day_numbers() {
    assert_eq!(date_from_day(0), Date { year: 1, month: 1, day: 1 });
    assert_eq!(date_from_day(719162), Date { year: 1970, month: 1, day: 1 });
    assert_eq!(date_from_day(736394), Date { year: 2017, month: 3, day: 7 });
    assert_eq!(date_from_day(3652058), Date { year: 9999, month: 12, day: 31 });
    let mut day = 730000;
    while day < 731500 {
        assert_eq!(day_of_date(date_from_day(day)), day);
        day += 1;
    }
}

#[test]
fn leap_years_and_month_lengths() {
    assert!(is_leap_year(2016));
    assert!(is_leap_year(2000));
    assert!(!is_leap_year(1900));
    assert!(!is_leap_year(2017));
    assert_eq!(month_length(2016, 2), 29);
    assert_eq!(month_length(2017, 2), 28);
    assert_eq!(month_length(2017, 4), 30);
    assert_eq!(month_length(2017, 12), 31);
    assert!(is_valid_date(2016, 2, 29));
    assert!(!is_valid_date(2017, 2, 29));
    assert!(!is_valid_date(2017, 13, 1));
    assert!(!is_valid_date(0, 1, 1));
}

#[test]
fn the_seventh_of_march_2017_is_a_tuesday() {
    assert_eq!(day_of_date(Date { year: 2017, month: 3, day: 7 }) % 7, 1);
    assert_eq!(day_of_date(Date { year: 2017, month: 1, day: 1 }) % 7, 6);
}

#[test]
fn moments_and_instants_agree() {
    let m = Moment { year: 2017, month: 1, day: 15, hour: 9, minute: 30, second: 5 };
    assert!(m.is_valid());
    let t = m.to_instant();
    assert_eq!(t, 736343 * 86400 + 9 * 3600 + 30 * 60 + 5);
    assert_eq!(Moment::from_instant(t), m);
    assert!(!Moment { year: 2017, month: 2, day: 30, hour: 0, minute: 0, second: 0 }.is_valid());
    assert!(!Moment { year: 2017, month: 1, day: 1, hour: 24, minute: 0, second: 0 }.is_valid());
    assert!(!Moment { year: 2017, month: 1, day: 1, hour: 0, minute: 60, second: 0 }.is_valid());
    assert!(!Moment { year: 2017, month: 1, day: 1, hour: 0, minute: 0, second: 60 }.is_valid());
}

#[test]
fn windows_begin_where_their_grain_begins() {
    let t = instant(2017, 5, 17, 13, 45, 12);
    assert_eq!(truncate(t, Grain::Second), t);
    assert_eq!(truncate(t, Grain::Minute), instant(2017, 5, 17, 13, 45, 0));
    assert_eq!(truncate(t, Grain::Hour), instant(2017, 5, 17, 13, 0, 0));
    assert_eq!(truncate(t, Grain::Day), instant(2017, 5, 17, 0, 0, 0));
    assert_eq!(truncate(t, Grain::Week), instant(2017, 5, 15, 0, 0, 0));
    assert_eq!(truncate(t, Grain::Month), instant(2017, 5, 1, 0, 0, 0));
    assert_eq!(truncate(t, Grain::Quarter), instant(2017, 4, 1, 0, 0, 0));
    assert_eq!(truncate(t, Grain::Year), instant(2017, 1, 1, 0, 0, 0));
}

#[test]
fn windows_shift_by_their_grain() {
    let day = instant(2017, 12, 31, 0, 0, 0);
    assert_eq!(shift_window(day, Grain::Day, 1), Some(instant(2018, 1, 1, 0, 0, 0)));
    assert_eq!(shift_window(day, Grain::Day, -365), Some(instant(2016, 12, 31, 0, 0, 0)));
    let month = instant(2017, 11, 1, 0, 0, 0);
    assert_eq!(shift_window(month, Grain::Month, 3), Some(instant(2018, 2, 1, 0, 0, 0)));
    assert_eq!(shift_window(month, Grain::Month, -11), Some(instant(2016, 12, 1, 0, 0, 0)));
    assert_eq!(
        shift_window(instant(2017, 10, 1, 0, 0, 0), Grain::Quarter, 1),
        Some(instant(2018, 1, 1, 0, 0, 0))
    );
    assert_eq!(
        shift_window(instant(2017, 1, 1, 0, 0, 0), Grain::Year, -2016),
        Some(instant(1, 1, 1, 0, 0, 0))
    );
    assert_eq!(shift_window(instant(2017, 1, 1, 0, 0, 0), Grain::Year, -2017), None);
    assert_eq!(shift_window(instant(9999, 12, 31, 0, 0, 0), Grain::Day, 1), None);
    assert_eq!(shift_window(day, Grain::Second, 1_000_000_000_000), None);
}

#[test]
fn months_are_added_with_the_day_held_within_the_month() {
    let t = instant(2017, 1, 31, 8, 0, 0);
    assert_eq!(add_months(t, 1), Some(instant(2017, 2, 28, 8, 0, 0)));
    assert_eq!(add_months(t, 13), Some(instant(2018, 2, 28, 8, 0, 0)));
    assert_eq!(add_months(t, 37), Some(instant(2020, 2, 29, 8, 0, 0)));
    assert_eq!(add_months(t, -2), Some(instant(2016, 11, 30, 8, 0, 0)));
    assert_eq!(add_months(t, 2), Some(instant(2017, 3, 31, 8, 0, 0)));
    assert_eq!(add_months(t, 12 * 8000), None);
}
