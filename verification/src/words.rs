//! The small tables of words that stand for numbers and days of the week.

use vstd::prelude::*;
use crate::rule::WordTable;
use crate::text::spells;
use crate::time::Weekday;

verus! {

/// The number that a word of a table stands for.
pub open spec fn word_value(table: WordTable, s: Seq<char>) -> Option<i64> {
    match table {
        WordTable::NativeUnits => if s == "하나"@ {
            Some(1i64)
        } else if s == "둘"@ {
            Some(2i64)
        } else if s == "셋"@ {
            Some(3i64)
        } else if s == "넷"@ {
            Some(4i64)
        } else if s == "다섯"@ {
            Some(5i64)
        } else if s == "여섯"@ {
            Some(6i64)
        } else if s == "일곱"@ {
            Some(7i64)
        } else if s == "여덟"@ {
            Some(8i64)
        } else if s == "아홉"@ {
            Some(9i64)
        } else {
            None
        },
        WordTable::NativeCounters => if s == "한"@ {
            Some(1i64)
        } else if s == "두"@ {
            Some(2i64)
        } else if s == "세"@ {
            Some(3i64)
        } else if s == "네"@ {
            Some(4i64)
        } else {
            None
        },
        WordTable::NativeTens => if s == "열"@ {
            Some(10i64)
        } else if s == "스물"@ {
            Some(20i64)
        } else if s == "서른"@ {
            Some(30i64)
        } else if s == "마흔"@ {
            Some(40i64)
        } else if s == "쉰"@ {
            Some(50i64)
        } else if s == "예순"@ {
            Some(60i64)
        } else if s == "일흔"@ {
            Some(70i64)
        } else if s == "여든"@ {
            Some(80i64)
        } else if s == "아흔"@ {
            Some(90i64)
        } else {
            None
        },
        WordTable::NamedDays => if s == "하루"@ {
            Some(1i64)
        } else if s == "이틀"@ || s == "양일"@ {
            Some(2i64)
        } else if s == "사흘"@ {
            Some(3i64)
        } else if s == "나흘"@ {
            Some(4i64)
        } else if s == "닷새"@ {
            Some(5i64)
        } else if s == "엿새"@ {
            Some(6i64)
        } else if s == "이레"@ {
            Some(7i64)
        } else if s == "여드레"@ {
            Some(8i64)
        } else if s == "아흐레"@ {
            Some(9i64)
        } else if s == "열흘"@ {
            Some(10i64)
        } else if s == "열하루"@ {
            Some(11i64)
        } else {
            None
        },
        WordTable::EnglishUnits => if s == "zero"@ {
            Some(0i64)
        } else if s == "one"@ {
            Some(1i64)
        } else if s == "two"@ {
            Some(2i64)
        } else if s == "three"@ {
            Some(3i64)
        } else if s == "four"@ {
            Some(4i64)
        } else if s == "five"@ {
            Some(5i64)
        } else if s == "six"@ {
            Some(6i64)
        } else if s == "seven"@ {
            Some(7i64)
        } else if s == "eight"@ {
            Some(8i64)
        } else if s == "nine"@ {
            Some(9i64)
        } else if s == "ten"@ {
            Some(10i64)
        } else if s == "eleven"@ {
            Some(11i64)
        } else if s == "twelve"@ {
            Some(12i64)
        } else if s == "thirteen"@ {
            Some(13i64)
        } else if s == "fourteen"@ {
            Some(14i64)
        } else if s == "fifteen"@ {
            Some(15i64)
        } else if s == "sixteen"@ {
            Some(16i64)
        } else if s == "seventeen"@ {
            Some(17i64)
        } else if s == "eighteen"@ {
            Some(18i64)
        } else if s == "nineteen"@ {
            Some(19i64)
        } else {
            None
        },
        WordTable::EnglishTens => if s == "twenty"@ {
            Some(20i64)
        } else if s == "thirty"@ {
            Some(30i64)
        } else if s == "forty"@ || s == "fourty"@ {
            Some(40i64)
        } else if s == "fifty"@ {
            Some(50i64)
        } else if s == "sixty"@ {
            Some(60i64)
        } else if s == "seventy"@ {
            Some(70i64)
        } else if s == "eighty"@ {
            Some(80i64)
        } else if s == "ninety"@ {
            Some(90i64)
        } else {
            None
        },
    }
}

/// The number that a word of a table stands for.
pub fn word_number(table: WordTable, chars: &Vec<char>) -> (r: Option<i64>)
    ensures
        r == word_value(table, chars@),
{
    match table {
        WordTable::NativeUnits => if spells(chars, "하나") {
            Some(1)
        } else if spells(chars, "둘") {
            Some(2)
        } else if spells(chars, "셋") {
            Some(3)
        } else if spells(chars, "넷") {
            Some(4)
        } else if spells(chars, "다섯") {
            Some(5)
        } else if spells(chars, "여섯") {
            Some(6)
        } else if spells(chars, "일곱") {
            Some(7)
        } else if spells(chars, "여덟") {
            Some(8)
        } else if spells(chars, "아홉") {
            Some(9)
        } else {
            None
        },
        WordTable::NativeCounters => if spells(chars, "한") {
            Some(1)
        } else if spells(chars, "두") {
            Some(2)
        } else if spells(chars, "세") {
            Some(3)
        } else if spells(chars, "네") {
            Some(4)
        } else {
            None
        },
        WordTable::NativeTens => if spells(chars, "열") {
            Some(10)
        } else if spells(chars, "스물") {
            Some(20)
        } else if spells(chars, "서른") {
            Some(30)
        } else if spells(chars, "마흔") {
            Some(40)
        } else if spells(chars, "쉰") {
            Some(50)
        } else if spells(chars, "예순") {
            Some(60)
        } else if spells(chars, "일흔") {
            Some(70)
        } else if spells(chars, "여든") {
            Some(80)
        } else if spells(chars, "아흔") {
            Some(90)
        } else {
            None
        },
        WordTable::NamedDays => if spells(chars, "하루") {
            Some(1)
        } else if spells(chars, "이틀") || spells(chars, "양일") {
            Some(2)
        } else if spells(chars, "사흘") {
            Some(3)
        } else if spells(chars, "나흘") {
            Some(4)
        } else if spells(chars, "닷새") {
            Some(5)
        } else if spells(chars, "엿새") {
            Some(6)
        } else if spells(chars, "이레") {
            Some(7)
        } else if spells(chars, "여드레") {
            Some(8)
        } else if spells(chars, "아흐레") {
            Some(9)
        } else if spells(chars, "열흘") {
            Some(10)
        } else if spells(chars, "열하루") {
            Some(11)
        } else {
            None
        },
        WordTable::EnglishUnits => if spells(chars, "zero") {
            Some(0)
        } else if spells(chars, "one") {
            Some(1)
        } else if spells(chars, "two") {
            Some(2)
        } else if spells(chars, "three") {
            Some(3)
        } else if spells(chars, "four") {
            Some(4)
        } else if spells(chars, "five") {
            Some(5)
        } else if spells(chars, "six") {
            Some(6)
        } else if spells(chars, "seven") {
            Some(7)
        } else if spells(chars, "eight") {
            Some(8)
        } else if spells(chars, "nine") {
            Some(9)
        } else if spells(chars, "ten") {
            Some(10)
        } else if spells(chars, "eleven") {
            Some(11)
        } else if spells(chars, "twelve") {
            Some(12)
        } else if spells(chars, "thirteen") {
            Some(13)
        } else if spells(chars, "fourteen") {
            Some(14)
        } else if spells(chars, "fifteen") {
            Some(15)
        } else if spells(chars, "sixteen") {
            Some(16)
        } else if spells(chars, "seventeen") {
            Some(17)
        } else if spells(chars, "eighteen") {
            Some(18)
        } else if spells(chars, "nineteen") {
            Some(19)
        } else {
            None
        },
        WordTable::EnglishTens => if spells(chars, "twenty") {
            Some(20)
        } else if spells(chars, "thirty") {
            Some(30)
        } else if spells(chars, "forty") || spells(chars, "fourty") {
            Some(40)
        } else if spells(chars, "fifty") {
            Some(50)
        } else if spells(chars, "sixty") {
            Some(60)
        } else if spells(chars, "seventy") {
            Some(70)
        } else if spells(chars, "eighty") {
            Some(80)
        } else if spells(chars, "ninety") {
            Some(90)
        } else {
            None
        },
    }
}

/// The day of the week that one of 월, 화, 수, 목, 금, 토, 일 names.
pub open spec fn weekday_value(s: Seq<char>) -> Option<Weekday> {
    if s == "월"@ {
        Some(Weekday::Mon)
    } else if s == "화"@ {
        Some(Weekday::Tue)
    } else if s == "수"@ {
        Some(Weekday::Wed)
    } else if s == "목"@ {
        Some(Weekday::Thu)
    } else if s == "금"@ {
        Some(Weekday::Fri)
    } else if s == "토"@ {
        Some(Weekday::Sat)
    } else if s == "일"@ {
        Some(Weekday::Sun)
    } else {
        None
    }
}

/// The day of the week that one of 월, 화, 수, 목, 금, 토, 일 names.
pub fn weekday_word(chars: &Vec<char>) -> (r: Option<Weekday>)
    ensures
        r == weekday_value(chars@),
{
    if spells(chars, "월") {
        Some(Weekday::Mon)
    } else if spells(chars, "화") {
        Some(Weekday::Tue)
    } else if spells(chars, "수") {
        Some(Weekday::Wed)
    } else if spells(chars, "목") {
        Some(Weekday::Thu)
    } else if spells(chars, "금") {
        Some(Weekday::Fri)
    } else if spells(chars, "토") {
        Some(Weekday::Sat)
    } else if spells(chars, "일") {
        Some(Weekday::Sun)
    } else {
        None
    }
}

} // verus!
