use rustling_ontology::error::ProductionError;
use rustling_ontology::helpers::decimal_hour_in_minute;
use rustling_ontology::korean::day_numeral;
use rustling_ontology::korean::decimals;
use rustling_ontology::korean::numeral;
use rustling_ontology::number::negate;
use rustling_ontology::number::parse_decimal;
use rustling_ontology::number::parse_integer;
use rustling_ontology::number::power_of_ten;
use rustling_ontology::number::quotient;
use rustling_ontology::number::strip;
use rustling_ontology::number::sum;
use rustling_ontology::number::FloatValue;
use rustling_ontology::number::IntegerValue;
use rustling_ontology::number::NumberValue;
use rustling_ontology::rule::WordTable;
use rustling_ontology::text::byte_offsets;
use rustling_ontology::text::char_index;
use rustling_ontology::text::chars_of;
use rustling_ontology::text::spells;
use rustling_ontology::words::weekday_word;
use rustling_ontology::words::word_number;
use rustling_ontology::time::Weekday;

fn chars(s: &str) -> Vec<char> {
    s.chars().collect()
}

#[test]
fn digits_are_read_as_their_number() {
    assert_eq!(parse_integer(&chars("0")), Some(0));
    assert_eq!(parse_integer(&chars("007")), Some(7));
    assert_eq!(parse_integer(&chars("1521082")), Some(1521082));
    assert_eq!(parse_integer(&chars("999999999999999999")), Some(999_999_999_999_999_999));
    assert_eq!(parse_integer(&chars("9223372036854775807")), Some(i64::MAX));
    assert_eq!(parse_integer(&chars("9223372036854775808")), None);
    assert_eq!(parse_integer(&chars("")), None);
    assert_eq!(parse_integer(&chars("12a")), None);
    assert_eq!(parse_integer(&chars("-1")), None);
}

#[test]
fn powers_of_ten() {
    assert_eq!(power_of_ten(0), 1);
    assert_eq!(power_of_ten(1), 10);
    assert_eq!(power_of_ten(18), 1_000_000_000_000_000_000);
}

#[test]
fn separators_are_stripped() {
    assert_eq!(strip(&chars("1,234,567"), ','), chars("1234567"));
    assert_eq!(strip(&chars(",,"), ','), chars(""));
    assert_eq!(strip(&chars("abc"), ','), chars("abc"));
}

#[test]
fn decimals_are_read_as_fractions() {
    let a = parse_decimal(&chars("3.14")).unwrap();
    assert_eq!((a.numerator, a.denominator), (314, 100));
    let b = parse_decimal(&chars(".5")).unwrap();
    assert_eq!((b.numerator, b.denominator), (5, 10));
    let c = parse_decimal(&chars("10.050")).unwrap();
    assert_eq!((c.numerator, c.denominator), (10050, 1000));
    assert_eq!(parse_decimal(&chars("3")), Err(ProductionError::Malformed));
    assert_eq!(parse_decimal(&chars("3.")), Err(ProductionError::Malformed));
    assert_eq!(parse_decimal(&chars("a.5")), Err(ProductionError::Malformed));
    assert_eq!(parse_decimal(&chars("1.2.3")), Err(ProductionError::Malformed));
    assert_eq!(
        parse_decimal(&chars("9223372036854775807.55")),
        Err(ProductionError::Overflow)
    );
}

#[test]
fn decimal_hours_are_minutes() {
    assert_eq!(decimal_hour_in_minute(&chars("3"), &chars("5")), Ok(210));
    assert_eq!(decimal_hour_in_minute(&chars("1"), &chars("25")), Ok(75));
    assert_eq!(decimal_hour_in_minute(&chars("0"), &chars("99")), Ok(59));
    assert_eq!(decimal_hour_in_minute(&chars("2"), &chars("0")), Ok(120));
    assert_eq!(decimal_hour_in_minute(&chars(""), &chars("5")), Err(ProductionError::Malformed));
    assert_eq!(decimal_hour_in_minute(&chars("3"), &chars("")), Err(ProductionError::Malformed));
    assert_eq!(decimal_hour_in_minute(&chars("x"), &chars("5")), Err(ProductionError::Malformed));
    assert_eq!(
        decimal_hour_in_minute(&chars("9223372036854775807"), &chars("5")),
        Err(ProductionError::Overflow)
    );
}

#[test]
fn fractions_of_numbers() {
    let one = NumberValue::Integer(IntegerValue::new(1));
    let three = NumberValue::Integer(IntegerValue::new(3));
    let zero = NumberValue::Integer(IntegerValue::new(0));
    let half = NumberValue::Float(FloatValue::new(1, 2).unwrap());
    let q = quotient(&one, &three).unwrap();
    assert_eq!((q.numerator, q.denominator), (1, 3));
    let r = quotient(&three, &half).unwrap();
    assert_eq!((r.numerator, r.denominator), (6, 1));
    let minus = NumberValue::Integer(IntegerValue::new(-3));
    let s = quotient(&one, &minus).unwrap();
    assert_eq!((s.numerator, s.denominator), (-1, 3));
    assert_eq!(quotient(&one, &zero), Err(ProductionError::DivisionByZero));
    let big = NumberValue::Integer(IntegerValue::new(i64::MAX));
    assert_eq!(quotient(&big, &half), Err(ProductionError::Overflow));
    let t = sum(&three, &half).unwrap();
    assert_eq!((t.numerator, t.denominator), (7, 2));
    assert_eq!(sum(&big, &big), Err(ProductionError::Overflow));
    assert_eq!(FloatValue::new(1, 0), Err(ProductionError::DivisionByZero));
    assert_eq!(FloatValue::new(1, -2).map(|f| (f.numerator, f.denominator)), Ok((-1, 2)));
    assert_eq!(FloatValue::new(i64::MIN, -2), Err(ProductionError::Overflow));
}

#[test]
fn a_sign_is_applied_once() {
    let three = NumberValue::Integer(IntegerValue::new(3));
    let minus = negate(three).unwrap();
    assert_eq!(minus.numerator(), -3);
    assert!(minus.prefixed());
    assert!(!three.prefixed());
    assert!(!minus.suffixed());
    let worst = NumberValue::Integer(IntegerValue::new(i64::MIN));
    assert_eq!(negate(worst), Err(ProductionError::Overflow));
    let half = NumberValue::Float(FloatValue::new(1, 2).unwrap());
    let other = negate(half).unwrap();
    assert_eq!((other.numerator(), other.denominator()), (-1, 2));
}

#[test]
fn korean_numerals_are_read_by_their_marks() {
    assert_eq!(numeral(&chars("일")), 1);
    assert_eq!(numeral(&chars("십")), 10);
    assert_eq!(numeral(&chars("십일")), 11);
    assert_eq!(numeral(&chars("이십")), 20);
    assert_eq!(numeral(&chars("백")), 100);
    assert_eq!(numeral(&chars("삼천사백오십육")), 3456);
    assert_eq!(numeral(&chars("만")), 10000);
    assert_eq!(numeral(&chars("삼만")), 30000);
    assert_eq!(numeral(&chars("십만")), 100000);
    assert_eq!(numeral(&chars("일억")), 100000000);
    assert_eq!(numeral(&chars("이조삼억사만오")), 2_000_300_040_005);
    assert_eq!(numeral(&chars("구천구백구십구조구천구백구십구억구천구백구십구만구천구백구십구")), 9999_9999_9999_9999);
    assert_eq!(numeral(&chars("조")), 0);
    assert_eq!(numeral(&chars("")), 0);
}

#[test]
fn korean_day_numerals() {
    assert_eq!(day_numeral(&chars("십")), 10);
    assert_eq!(day_numeral(&chars("십일")), 11);
    assert_eq!(day_numeral(&chars("이십삼")), 23);
    assert_eq!(day_numeral(&chars("삼십일")), 31);
}

#[test]
fn korean_decimal_digits() {
    assert_eq!(decimals(&chars("사")), Some((4, 1)));
    assert_eq!(decimals(&chars("영오")), Some((5, 2)));
    assert_eq!(decimals(&chars("일|이")), Some((12, 2)));
    assert_eq!(decimals(&chars("")), Some((0, 0)));
    assert_eq!(decimals(&chars("일이삼사오육칠팔구일이삼사오육칠팔구일")), None);
}

#[test]
fn words_stand_for_numbers() {
    assert_eq!(word_number(WordTable::NativeUnits, &chars("하나")), Some(1));
    assert_eq!(word_number(WordTable::NativeUnits, &chars("아홉")), Some(9));
    assert_eq!(word_number(WordTable::NativeUnits, &chars("열")), None);
    assert_eq!(word_number(WordTable::NativeCounters, &chars("네")), Some(4));
    assert_eq!(word_number(WordTable::NativeTens, &chars("스물")), Some(20));
    assert_eq!(word_number(WordTable::NativeTens, &chars("아흔")), Some(90));
    assert_eq!(word_number(WordTable::NamedDays, &chars("이틀")), Some(2));
    assert_eq!(word_number(WordTable::NamedDays, &chars("양일")), Some(2));
    assert_eq!(word_number(WordTable::NamedDays, &chars("열하루")), Some(11));
    assert_eq!(word_number(WordTable::EnglishUnits, &chars("zero")), Some(0));
    assert_eq!(word_number(WordTable::EnglishUnits, &chars("nineteen")), Some(19));
    assert_eq!(word_number(WordTable::EnglishTens, &chars("forty")), Some(40));
    assert_eq!(word_number(WordTable::EnglishTens, &chars("fourty")), Some(40));
    assert_eq!(word_number(WordTable::EnglishTens, &chars("ten")), None);
    assert_eq!(weekday_word(&chars("월")), Some(Weekday::Mon));
    assert_eq!(weekday_word(&chars("일")), Some(Weekday::Sun));
    assert_eq!(weekday_word(&chars("x")), None);
}

#[test]
fn characters_and_their_bytes() {
    let text = "a월 3";
    let cs = chars_of(text);
    assert_eq!(cs, chars(text));
    let table = byte_offsets(text, &cs);
    assert_eq!(table, vec![0, 1, 4, 5, 6]);
    assert_eq!(char_index(&table, 4), Some(2));
    assert_eq!(char_index(&table, 2), None);
    assert_eq!(char_index(&table, 6), Some(4));
    assert!(spells(&cs, text));
    assert!(!spells(&cs, "a월 4"));
    assert!(!spells(&cs, "a월"));
}
