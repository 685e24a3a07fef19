use rustling_ontology::calendar::Moment;
use rustling_ontology::duration::DurationValue;
use rustling_ontology::duration::Period;
use rustling_ontology::error::ProductionError;
use rustling_ontology::grain::Grain;
use rustling_ontology::helpers::cycle_n_not_immediate;
use rustling_ontology::helpers::cycle_nth;
use rustling_ontology::helpers::cycle_nth_after;
use rustling_ontology::helpers::cycle_nth_after_not_immediate;
use rustling_ontology::helpers::day_of_month;
use rustling_ontology::helpers::day_of_week;
use rustling_ontology::helpers::hour;
use rustling_ontology::helpers::hour_minute;
use rustling_ontology::helpers::hour_minute_second;
use rustling_ontology::helpers::hour_or_midnight;
use rustling_ontology::helpers::hour_relative_minute;
use rustling_ontology::helpers::month;
use rustling_ontology::helpers::month_day;
use rustling_ontology::helpers::second;
use rustling_ontology::helpers::year;
use rustling_ontology::helpers::ymd;
use rustling_ontology::order::compare;
use rustling_ontology::resolve::resolve;
use rustling_ontology::resolve::Interval;
use rustling_ontology::time::Constraint;
use rustling_ontology::time::Direction;
use rustling_ontology::time::Form;
use rustling_ontology::time::HourForm;
use rustling_ontology::time::TimeValue;
use rustling_ontology::time::Weekday;

fn instant(year: i64, month: i64, day: i64, hour: i64, minute: i64, second: i64) -> i64 {
    Moment { year, month, day, hour, minute, second }.to_instant()
}

fn window(from: i64, to: i64) -> Option<Interval> {
    Some(Interval { start: from, end: to, explicit: false })
}

fn stretch(from: i64, to: i64) -> Option<Interval> {
    Some(Interval { start: from, end: to, explicit: true })
}

fn at(t: &TimeValue, reference: i64) -> Option<Interval> {
    resolve(&t.constraint, reference)
}

#[test]
fn calendar_fields_are_held_to_their_ranges() {
    assert!(month(1).is_ok());
    assert!(month(12).is_ok());
    assert_eq!(month(0), Err(ProductionError::OutOfRange));
    assert_eq!(month(13), Err(ProductionError::OutOfRange));
    assert_eq!(month(99), Err(ProductionError::OutOfRange));
    assert!(day_of_month(1).is_ok());
    assert!(day_of_month(31).is_ok());
    assert_eq!(day_of_month(0), Err(ProductionError::OutOfRange));
    assert_eq!(day_of_month(32), Err(ProductionError::OutOfRange));
    assert!(hour(0, false).is_ok());
    assert!(hour(23, true).is_ok());
    assert_eq!(hour(24, false), Err(ProductionError::OutOfRange));
    assert_eq!(hour(-1, false), Err(ProductionError::OutOfRange));
    assert!(hour_or_midnight(24, true).is_ok());
    assert_eq!(hour_or_midnight(25, true), Err(ProductionError::OutOfRange));
    assert!(hour_minute(23, 59, false).is_ok());
    assert_eq!(hour_minute(23, 60, false), Err(ProductionError::OutOfRange));
    assert_eq!(hour_minute(23, -1, false), Err(ProductionError::OutOfRange));
    assert!(hour_minute_second(0, 0, 59, false).is_ok());
    assert_eq!(hour_minute_second(0, 0, 60, false), Err(ProductionError::OutOfRange));
    assert!(second(59).is_ok());
    assert_eq!(second(60), Err(ProductionError::OutOfRange));
    assert_eq!(month_day(2, 32), Err(ProductionError::OutOfRange));
    assert_eq!(month_day(13, 1), Err(ProductionError::OutOfRange));
    assert_eq!(ymd(2017, 0, 1), Err(ProductionError::OutOfRange));
    assert_eq!(ymd(10000, 1, 1), Err(ProductionError::OutOfRange));
    assert_eq!(year(-1), Err(ProductionError::OutOfRange));
    assert_eq!(hour_relative_minute(3, 60, true), Err(ProductionError::OutOfRange));
    assert_eq!(hour_relative_minute(3, -60, true), Err(ProductionError::OutOfRange));
    assert_eq!(cycle_n_not_immediate(Grain::Day, 0), Err(ProductionError::OutOfRange));
}

#[test]
fn forms_of_the_constructors() {
    assert_eq!(month(3).unwrap().form, Form::Month(3));
    assert_eq!(day_of_week(Weekday::Tue).form, Form::DayOfWeek(Weekday::Tue));
    assert_eq!(
        hour(9, true).unwrap().form,
        Form::TimeOfDay(HourForm::Known { full_hour: 9, twelve: true })
    );
    assert_eq!(hour_minute(9, 30, true).unwrap().form, Form::TimeOfDay(HourForm::Unknown));
    assert_eq!(hour(9, true).unwrap().form_time_of_day(), Ok((9, true)));
    assert_eq!(month(3).unwrap().form_time_of_day(), Err(ProductionError::Malformed));
    assert_eq!(month(3).unwrap().grain(), Grain::Month);
    assert_eq!(hour_minute(9, 30, true).unwrap().grain(), Grain::Minute);
}

#[test]
fn a_year_of_two_digits_is_the_nearest_such_year() {
    let reference = instant(2017, 6, 1, 0, 0, 0);
    let seventeen = year(17).unwrap();
    assert_eq!(
        at(&seventeen, reference),
        window(instant(2017, 1, 1, 0, 0, 0), instant(2018, 1, 1, 0, 0, 0))
    );
    let ninety_nine = year(99).unwrap();
    assert_eq!(
        at(&ninety_nine, reference),
        window(instant(1999, 1, 1, 0, 0, 0), instant(2000, 1, 1, 0, 0, 0))
    );
    let sixty = year(60).unwrap();
    assert_eq!(
        at(&sixty, reference),
        window(instant(2060, 1, 1, 0, 0, 0), instant(2061, 1, 1, 0, 0, 0))
    );
    let literal = year(150).unwrap();
    assert_eq!(
        at(&literal, reference),
        window(instant(150, 1, 1, 0, 0, 0), instant(151, 1, 1, 0, 0, 0))
    );
    let hundred = year(100).unwrap();
    assert_eq!(
        at(&hundred, reference),
        window(instant(100, 1, 1, 0, 0, 0), instant(101, 1, 1, 0, 0, 0))
    );
}

#[test]
fn the_occurrence_number_zero_holds_the_reference_or_follows_it() {
    let tuesday = day_of_week(Weekday::Tue);
    let on_a_tuesday = instant(2017, 3, 7, 15, 0, 0);
    assert_eq!(
        at(&tuesday.the_nth(0), on_a_tuesday),
        window(instant(2017, 3, 7, 0, 0, 0), instant(2017, 3, 8, 0, 0, 0))
    );
    let on_a_wednesday = instant(2017, 3, 8, 0, 0, 0);
    assert_eq!(
        at(&tuesday.the_nth(0), on_a_wednesday),
        window(instant(2017, 3, 14, 0, 0, 0), instant(2017, 3, 15, 0, 0, 0))
    );
    assert_eq!(
        at(&tuesday.the_nth(1), on_a_tuesday),
        window(instant(2017, 3, 14, 0, 0, 0), instant(2017, 3, 15, 0, 0, 0))
    );
    assert_eq!(
        at(&tuesday.the_nth(-1), on_a_tuesday),
        window(instant(2017, 2, 28, 0, 0, 0), instant(2017, 3, 1, 0, 0, 0))
    );
    assert_eq!(
        at(&tuesday.the_nth(-2), on_a_wednesday),
        window(instant(2017, 2, 28, 0, 0, 0), instant(2017, 3, 1, 0, 0, 0))
    );
    assert_eq!(at(&tuesday.the_nth(1001), on_a_tuesday), None);
}

#[test]
fn an_intersection_does_not_depend_on_the_order_of_its_operands() {
    let march = month(3).unwrap();
    let tuesday = day_of_week(Weekday::Tue);
    let nine = hour(9, false).unwrap();
    let one = march.intersect(&tuesday).unwrap();
    let other = tuesday.intersect(&march).unwrap();
    assert_eq!(one, other);
    let deep = one.intersect(&nine).unwrap();
    let deep_other = nine.intersect(&other).unwrap();
    assert_eq!(deep, deep_other);
    let reference = instant(2017, 1, 1, 0, 0, 0);
    assert_eq!(
        at(&one, reference),
        window(instant(2017, 3, 7, 0, 0, 0), instant(2017, 3, 8, 0, 0, 0))
    );
    assert_eq!(
        at(&deep, reference),
        window(instant(2017, 3, 7, 9, 0, 0), instant(2017, 3, 7, 10, 0, 0))
    );
    assert_eq!(compare(&march.constraint, &tuesday.constraint), -1);
    assert_eq!(compare(&tuesday.constraint, &march.constraint), 1);
    assert_eq!(compare(&one.constraint, &other.constraint), 0);
}

#[test]
fn times_of_a_common_dimension_do_not_intersect() {
    let nine = hour(9, false).unwrap();
    let ten = hour(10, false).unwrap();
    assert_eq!(nine.intersect(&ten), Err(ProductionError::Incompatible));
    assert_eq!(nine.intersect(&nine), Err(ProductionError::Incompatible));
    let tomorrow = cycle_nth(Grain::Day, 1);
    let march = month(3).unwrap();
    assert_eq!(tomorrow.intersect(&march), Err(ProductionError::Incompatible));
    assert!(tomorrow.intersect(&nine).is_ok());
}

#[test]
fn the_thirtieth_of_february_never_comes() {
    let never = month_day(2, 30).unwrap();
    assert_eq!(at(&never, instant(2017, 1, 1, 0, 0, 0)), None);
    let leap = month_day(2, 29).unwrap();
    assert_eq!(
        at(&leap, instant(2017, 1, 1, 0, 0, 0)),
        window(instant(2020, 2, 29, 0, 0, 0), instant(2020, 3, 1, 0, 0, 0))
    );
}

#[test]
fn hours_on_a_twelve_hour_clock() {
    let nine = hour(9, true).unwrap();
    assert_eq!(
        at(&nine, instant(2017, 1, 1, 10, 0, 0)),
        window(instant(2017, 1, 1, 21, 0, 0), instant(2017, 1, 1, 22, 0, 0))
    );
    assert_eq!(
        at(&nine, instant(2017, 1, 1, 22, 0, 0)),
        window(instant(2017, 1, 2, 9, 0, 0), instant(2017, 1, 2, 10, 0, 0))
    );
    let plain = hour(9, false).unwrap();
    assert_eq!(
        at(&plain, instant(2017, 1, 1, 10, 0, 0)),
        window(instant(2017, 1, 2, 9, 0, 0), instant(2017, 1, 2, 10, 0, 0))
    );
    let midnight = hour_or_midnight(24, true).unwrap();
    assert_eq!(
        at(&midnight, instant(2017, 1, 1, 10, 0, 0)),
        window(instant(2017, 1, 2, 0, 0, 0), instant(2017, 1, 2, 1, 0, 0))
    );
}

#[test]
fn minutes_before_and_after_the_hour() {
    let reference = instant(2017, 1, 1, 0, 0, 0);
    let after = hour_relative_minute(3, 30, false).unwrap();
    assert_eq!(
        at(&after, reference),
        window(instant(2017, 1, 1, 3, 30, 0), instant(2017, 1, 1, 3, 31, 0))
    );
    let before = hour_relative_minute(3, -15, false).unwrap();
    assert_eq!(
        at(&before, reference),
        window(instant(2017, 1, 1, 2, 45, 0), instant(2017, 1, 1, 2, 46, 0))
    );
    let wrapped = hour_relative_minute(0, -15, false).unwrap();
    assert_eq!(
        at(&wrapped, reference),
        window(instant(2017, 1, 1, 23, 45, 0), instant(2017, 1, 1, 23, 46, 0))
    );
    let twelve = hour_relative_minute(1, -15, true).unwrap();
    assert_eq!(
        at(&twelve, reference),
        window(instant(2017, 1, 1, 0, 45, 0), instant(2017, 1, 1, 0, 46, 0))
    );
}

#[test]
fn cycles_count_windows_from_the_present_one() {
    let reference = instant(2017, 1, 15, 13, 0, 0);
    assert_eq!(
        at(&cycle_nth(Grain::Day, 1), reference),
        window(instant(2017, 1, 16, 0, 0, 0), instant(2017, 1, 17, 0, 0, 0))
    );
    assert_eq!(
        at(&cycle_nth(Grain::Day, -1), reference),
        window(instant(2017, 1, 14, 0, 0, 0), instant(2017, 1, 15, 0, 0, 0))
    );
    assert_eq!(
        at(&cycle_nth(Grain::Week, 1), reference),
        window(instant(2017, 1, 16, 0, 0, 0), instant(2017, 1, 23, 0, 0, 0))
    );
    assert_eq!(
        at(&cycle_nth(Grain::Month, -1), reference),
        window(instant(2016, 12, 1, 0, 0, 0), instant(2017, 1, 1, 0, 0, 0))
    );
    assert_eq!(
        at(&cycle_nth(Grain::Quarter, 1), reference),
        window(instant(2017, 4, 1, 0, 0, 0), instant(2017, 7, 1, 0, 0, 0))
    );
    assert_eq!(
        at(&cycle_nth(Grain::Year, 0), reference),
        window(instant(2017, 1, 1, 0, 0, 0), instant(2018, 1, 1, 0, 0, 0))
    );
    let day_after_tomorrow = cycle_nth_after(Grain::Day, 1, &cycle_nth(Grain::Day, 1));
    assert_eq!(
        at(&day_after_tomorrow, reference),
        window(instant(2017, 1, 17, 0, 0, 0), instant(2017, 1, 18, 0, 0, 0))
    );
    let third_quarter = cycle_nth_after(Grain::Quarter, 2, &cycle_nth(Grain::Year, 0));
    assert_eq!(
        at(&third_quarter, reference),
        window(instant(2017, 7, 1, 0, 0, 0), instant(2017, 10, 1, 0, 0, 0))
    );
    let first_week_of_march =
        cycle_nth_after_not_immediate(Grain::Week, 0, &month(3).unwrap());
    assert_eq!(
        at(&first_week_of_march, reference),
        window(instant(2017, 3, 6, 0, 0, 0), instant(2017, 3, 13, 0, 0, 0))
    );
    let next_three_days = cycle_n_not_immediate(Grain::Day, 3).unwrap();
    assert_eq!(
        at(&next_three_days, reference),
        stretch(instant(2017, 1, 16, 0, 0, 0), instant(2017, 1, 19, 0, 0, 0))
    );
    let last_two_days = cycle_n_not_immediate(Grain::Day, -2).unwrap();
    assert_eq!(
        at(&last_two_days, reference),
        stretch(instant(2017, 1, 13, 0, 0, 0), instant(2017, 1, 15, 0, 0, 0))
    );
}

#[test]
fn the_last_of_one_time_within_another() {
    let reference = instant(2017, 1, 15, 0, 0, 0);
    let friday = day_of_week(Weekday::Fri);
    let march = month(3).unwrap();
    assert_eq!(
        at(&friday.last_of(&march), reference),
        window(instant(2017, 3, 31, 0, 0, 0), instant(2017, 4, 1, 0, 0, 0))
    );
    let sunday = day_of_week(Weekday::Sun);
    let april = month(4).unwrap();
    assert_eq!(
        at(&sunday.last_of(&april), reference),
        window(instant(2017, 4, 30, 0, 0, 0), instant(2017, 5, 1, 0, 0, 0))
    );
}

#[test]
fn stretches_from_one_time_to_another() {
    let reference = instant(2017, 1, 15, 10, 0, 0);
    let morning = hour(4, false).unwrap().span_to(&hour(12, false).unwrap(), false);
    assert_eq!(
        at(&morning, reference),
        stretch(instant(2017, 1, 15, 4, 0, 0), instant(2017, 1, 15, 12, 0, 0))
    );
    assert_eq!(
        at(&morning, instant(2017, 1, 15, 12, 0, 0)),
        stretch(instant(2017, 1, 16, 4, 0, 0), instant(2017, 1, 16, 12, 0, 0))
    );
    let evening = hour(18, false).unwrap().span_to(&hour(0, false).unwrap(), false);
    assert_eq!(
        at(&evening, reference),
        stretch(instant(2017, 1, 15, 18, 0, 0), instant(2017, 1, 16, 0, 0, 0))
    );
    let inclusive = hour(9, false).unwrap().span_to(&hour(18, false).unwrap(), true);
    assert_eq!(
        at(&inclusive, instant(2017, 1, 15, 0, 0, 0)),
        stretch(instant(2017, 1, 15, 9, 0, 0), instant(2017, 1, 15, 19, 0, 0))
    );
    let empty = hour(9, false).unwrap().span_to(&hour(9, false).unwrap(), false);
    assert_eq!(at(&empty, reference), None);
}

#[test]
fn durations_move_the_present() {
    let reference = instant(2017, 1, 31, 10, 30, 0);
    let three_days = DurationValue::new(Period::of(Grain::Day, 3));
    assert_eq!(
        at(&three_days.in_present().unwrap(), reference),
        window(instant(2017, 2, 3, 10, 30, 0), instant(2017, 2, 4, 10, 30, 0))
    );
    assert_eq!(
        at(&three_days.ago().unwrap(), reference),
        window(instant(2017, 1, 28, 10, 30, 0), instant(2017, 1, 29, 10, 30, 0))
    );
    let one_month = DurationValue::new(Period::of(Grain::Month, 1));
    assert_eq!(
        at(&one_month.in_present().unwrap(), reference),
        window(instant(2017, 2, 28, 10, 30, 0), instant(2017, 3, 28, 10, 30, 0))
    );
    let ninety_minutes = DurationValue::new(Period::of(Grain::Minute, 90));
    let after_noon = ninety_minutes.after(&hour(12, false).unwrap()).unwrap();
    assert_eq!(
        at(&after_noon, reference),
        window(instant(2017, 1, 31, 13, 30, 0), instant(2017, 1, 31, 13, 31, 0))
    );
    let endless = DurationValue::new(Period::of(Grain::Year, i64::MAX));
    assert_eq!(endless.in_present(), Err(ProductionError::Overflow));
    assert_eq!(endless.ago(), Err(ProductionError::Overflow));
}

#[test]
fn what_is_known_of_a_time_can_be_changed() {
    let nine = hour(9, true).unwrap().latent();
    assert!(nine.latent);
    assert!(!nine.clone().not_latent().latent);
    assert_eq!(nine.clone().direction(Direction::After).direction, Direction::After);
    assert_eq!(nine.clone().form(Form::PartOfDay).form, Form::PartOfDay);
    assert_eq!(nine.copy(), nine);
    assert!(nine.same(&nine.clone()));
    assert!(!nine.same(&hour(10, true).unwrap()));
    assert!(Constraint::Month(3).same(&Constraint::Month(3)));
    assert!(!Constraint::Month(3).same(&Constraint::DayOfMonth(3)));
}
