//! Reading of Sino-Korean numerals.
//!
//! A numeral is read by its magnitude marks. The text up to the last 조 counts
//! millions of millions, what follows up to the last 억 counts hundreds of
//! millions, what follows up to the last 만 counts tens of thousands, and the
//! rest counts units. Each of the four parts is read in the same way by the
//! marks 천, 백 and 십, and of each piece only the first character counts.

use vstd::prelude::*;
use crate::text::last_index;

verus! {

/// Value of one of the digits 일 to 구; 0 for any other character.
pub open spec fn digit_value(c: char) -> int {
    if c == '일' {
        1
    } else if c == '이' {
        2
    } else if c == '삼' {
        3
    } else if c == '사' {
        4
    } else if c == '오' {
        5
    } else if c == '육' {
        6
    } else if c == '칠' {
        7
    } else if c == '팔' {
        8
    } else if c == '구' {
        9
    } else {
        0
    }
}

/// What the first character of a piece counts: a digit its value, a mark
/// among those given one, anything else nothing.
pub open spec fn leading_value(c: char, marks: Seq<char>) -> int {
    if marks.contains(c) {
        1
    } else {
        digit_value(c)
    }
}

/// The marks that count one at the head of a piece of a numeral.
pub open spec fn numeral_marks() -> Seq<char> {
    seq!['천', '백', '십']
}

/// The one mark that counts one at the head of a piece of a day number.
pub open spec fn day_marks() -> Seq<char> {
    seq!['십']
}

/// The text up to and with the last `c`; empty where there is none.
pub open spec fn up_to(s: Seq<char>, c: char) -> Seq<char> {
    s.subrange(0, last_index(s, c) + 1)
}

/// The text after the last `c`; all of it where there is none.
pub open spec fn behind(s: Seq<char>, c: char) -> Seq<char> {
    s.subrange(last_index(s, c) + 1, s.len() as int)
}

/// What a piece counts: the value of its first character, 0 when empty.
pub open spec fn piece(s: Seq<char>, marks: Seq<char>) -> int {
    if s.len() == 0 {
        0
    } else {
        leading_value(s[0], marks)
    }
}

/// The number below ten thousand that a part of a numeral writes.
pub open spec fn part_value(s: Seq<char>) -> int {
    let marks = numeral_marks();
    let rest1 = behind(s, '천');
    let rest2 = behind(rest1, '백');
    1000 * piece(up_to(s, '천'), marks) + 100 * piece(up_to(rest1, '백'), marks) + 10 * piece(
        up_to(rest2, '십'),
        marks,
    ) + piece(behind(rest2, '십'), marks)
}

/// The part that counts tens of thousands: the bare mark counts one.
pub open spec fn myriad_value(s: Seq<char>) -> int {
    if s =~= seq!['만'] {
        1
    } else {
        part_value(s)
    }
}

/// The number that a Sino-Korean numeral writes.
pub open spec fn numeral_value(s: Seq<char>) -> int {
    let rest1 = behind(s, '조');
    let rest2 = behind(rest1, '억');
    1000000000000 * part_value(up_to(s, '조')) + 100000000 * part_value(up_to(rest1, '억')) + 10000
        * myriad_value(up_to(rest2, '만')) + part_value(behind(rest2, '만'))
}

/// The day of the month that a numeral from 십 to 삼십일 writes.
pub open spec fn day_value(s: Seq<char>) -> int {
    10 * piece(up_to(s, '십'), day_marks()) + piece(behind(s, '십'), day_marks())
}

/// Value of one of the digits 일 to 구; 0 for any other character.
pub fn digit(c: char) -> (v: i64)
    ensures
        v == digit_value(c),
        0 <= v <= 9,
{
    if c == '일' {
        1
    } else if c == '이' {
        2
    } else if c == '삼' {
        3
    } else if c == '사' {
        4
    } else if c == '오' {
        5
    } else if c == '육' {
        6
    } else if c == '칠' {
        7
    } else if c == '팔' {
        8
    } else if c == '구' {
        9
    } else {
        0
    }
}

/// Index of the last `c` at or after `from` and before `to`; `to` itself
/// where there is none, so that the text behind the mark begins at the
/// result plus one, or at `from`.
fn split_point(chars: &Vec<char>, from: usize, to: usize, c: char) -> (cut: usize)
    requires
        from <= to <= chars@.len(),
    ensures
        from <= cut <= to,
        cut - from == last_index(chars@.subrange(from as int, to as int), c) + 1,
{
    let ghost s = chars@.subrange(from as int, to as int);
    let mut i: usize = to;
    proof {
        assert(s.subrange(0, (to - from) as int) =~= s);
    }
    while i > from
        invariant
            from <= i <= to <= chars@.len(),
            s == chars@.subrange(from as int, to as int),
            last_index(s, c) == last_index(s.subrange(0, (i - from) as int), c),
        decreases i,
    {
        let ghost cur = s.subrange(0, (i - from) as int);
        proof {
            assert(cur.last() == chars@[i - 1]);
            assert(cur.drop_last() =~= s.subrange(0, (i - 1 - from) as int));
        }
        if chars[i - 1] == c {
            return i;
        }
        i = i - 1;
    }
    from
}

fn first_value(chars: &Vec<char>, from: usize, to: usize, marks: u8) -> (v: i64)
    requires
        from <= to <= chars@.len(),
        marks == 1 || marks == 3,
    ensures
        v == piece(
            chars@.subrange(from as int, to as int),
            if marks == 3 {
                numeral_marks()
            } else {
                day_marks()
            },
        ),
        0 <= v <= 9,
{
    if from == to {
        return 0;
    }
    let c = chars[from];
    let ghost set = if marks == 3 {
        numeral_marks()
    } else {
        day_marks()
    };
    proof {
        assert(chars@.subrange(from as int, to as int)[0] == c);
        assert(numeral_marks()[0] == '천' && numeral_marks()[1] == '백' && numeral_marks()[2]
            == '십');
        assert(day_marks()[0] == '십');
    }
    if c == '십' || (marks == 3 && (c == '천' || c == '백')) {
        1
    } else {
        digit(c)
    }
}

fn part(chars: &Vec<char>, from: usize, to: usize) -> (v: i64)
    requires
        from <= to <= chars@.len(),
    ensures
        v == part_value(chars@.subrange(from as int, to as int)),
        0 <= v <= 9999,
{
    let ghost s = chars@.subrange(from as int, to as int);
    let a: usize = split_point(chars, from, to, '천');
    let b: usize = split_point(chars, a, to, '백');
    let c: usize = split_point(chars, b, to, '십');
    proof {
        assert(chars@.subrange(from as int, a as int) =~= up_to(s, '천'));
        assert(chars@.subrange(a as int, to as int) =~= behind(s, '천'));
        let rest1 = behind(s, '천');
        assert(chars@.subrange(a as int, b as int) =~= up_to(rest1, '백'));
        assert(chars@.subrange(b as int, to as int) =~= behind(rest1, '백'));
        let rest2 = behind(rest1, '백');
        assert(chars@.subrange(b as int, c as int) =~= up_to(rest2, '십'));
        assert(chars@.subrange(c as int, to as int) =~= behind(rest2, '십'));
    }
    1000 * first_value(chars, from, a, 3) + 100 * first_value(chars, a, b, 3) + 10 * first_value(
        chars,
        b,
        c,
        3,
    ) + first_value(chars, c, to, 3)
}

/// The number that a Sino-Korean numeral writes.
pub fn numeral(chars: &Vec<char>) -> (v: i64)
    ensures
        v == numeral_value(chars@),
        0 <= v <= 9999999999999999,
{
    let n: usize = chars.len();
    let ghost s = chars@;
    let a: usize = split_point(chars, 0, n, '조');
    let b: usize = split_point(chars, a, n, '억');
    let c: usize = split_point(chars, b, n, '만');
    proof {
        assert(chars@.subrange(0, n as int) =~= s);
        assert(chars@.subrange(0, a as int) =~= up_to(s, '조'));
        assert(chars@.subrange(a as int, n as int) =~= behind(s, '조'));
        let rest1 = behind(s, '조');
        assert(chars@.subrange(a as int, b as int) =~= up_to(rest1, '억'));
        assert(chars@.subrange(b as int, n as int) =~= behind(rest1, '억'));
        let rest2 = behind(rest1, '억');
        assert(chars@.subrange(b as int, c as int) =~= up_to(rest2, '만'));
        assert(chars@.subrange(c as int, n as int) =~= behind(rest2, '만'));
    }
    let myriads: i64 = if c - b == 1 && chars[b] == '만' {
        proof {
            assert(chars@.subrange(b as int, c as int) =~= seq!['만']);
        }
        1
    } else {
        proof {
            let piece = chars@.subrange(b as int, c as int);
            if piece =~= seq!['만'] {
                assert(piece.len() == 1);
                assert(piece[0] == '만');
            }
        }
        part(chars, b, c)
    };
    1000000000000 * part(chars, 0, a) + 100000000 * part(chars, a, b) + 10000 * myriads + part(
        chars,
        c,
        n,
    )
}

/// The day of the month that a numeral from 십 to 삼십일 writes.
pub fn day_numeral(chars: &Vec<char>) -> (v: i64)
    ensures
        v == day_value(chars@),
        0 <= v <= 99,
{
    let n: usize = chars.len();
    let a: usize = split_point(chars, 0, n, '십');
    proof {
        assert(chars@.subrange(0, n as int) =~= chars@);
        assert(chars@.subrange(0, a as int) =~= up_to(chars@, '십'));
        assert(chars@.subrange(a as int, n as int) =~= behind(chars@, '십'));
    }
    10 * first_value(chars, 0, a, 1) + first_value(chars, a, n, 1)
}

/// Value of a decimal written with the digits 영 and 일 to 구: the digit
/// that each character stands for, if it stands for one.
pub open spec fn decimal_digit(c: char) -> Option<int> {
    if c == '영' {
        Some(0)
    } else if digit_value(c) > 0 {
        Some(digit_value(c))
    } else {
        None
    }
}

/// The number that the digits among the characters write, one after the
/// other; characters that are no digits are passed over.
pub open spec fn digits_value(s: Seq<char>) -> int
    decreases s.len(),
{
    if s.len() == 0 {
        0
    } else {
        match decimal_digit(s.last()) {
            Some(d) => digits_value(s.drop_last()) * 10 + d,
            None => digits_value(s.drop_last()),
        }
    }
}

/// How many of the characters are digits.
pub open spec fn digits_count(s: Seq<char>) -> nat
    decreases s.len(),
{
    if s.len() == 0 {
        0
    } else {
        match decimal_digit(s.last()) {
            Some(d) => digits_count(s.drop_last()) + 1,
            None => digits_count(s.drop_last()),
        }
    }
}

/// The digits among the characters write a number below ten to their count.
pub proof fn lemma_digits_bound(s: Seq<char>)
    ensures
        0 <= digits_value(s) < crate::number::pow10(digits_count(s)),
    decreases s.len(),
{
    if s.len() > 0 {
        lemma_digits_bound(s.drop_last());
    }
}

/// The beginning of a run of characters holds no more digits than the run.
pub proof fn lemma_digits_count_prefix(s: Seq<char>, i: int)
    requires
        0 <= i <= s.len(),
    ensures
        digits_count(s.subrange(0, i)) <= digits_count(s),
    decreases s.len() - i,
{
    if i < s.len() {
        lemma_digits_count_prefix(s, i + 1);
        assert(s.subrange(0, i + 1).drop_last() =~= s.subrange(0, i));
    } else {
        assert(s.subrange(0, i) =~= s);
    }
}

/// The digits among the characters as a number and their count, where
/// they are at most 18.
pub fn decimals(chars: &Vec<char>) -> (r: Option<(i64, usize)>)
    ensures
        r is Some <==> digits_count(chars@) <= 18,
        r matches Some((v, n)) ==> v == digits_value(chars@) && n == digits_count(chars@),
{
    let mut v: i64 = 0;
    let mut n: usize = 0;
    let mut i: usize = 0;
    proof {
        assert(chars@.subrange(0, 0) =~= Seq::<char>::empty());
        crate::number::lemma_pow10_18();
    }
    while i < chars.len()
        invariant
            i <= chars@.len(),
            v == digits_value(chars@.subrange(0, i as int)),
            n == digits_count(chars@.subrange(0, i as int)),
            n <= 18,
            crate::number::pow10(18) == 1000000000000000000,
        decreases chars@.len() - i,
    {
        let c = chars[i];
        let ghost before = chars@.subrange(0, i as int);
        let ghost now = chars@.subrange(0, i as int + 1);
        proof {
            assert(now.drop_last() =~= before);
            assert(now.last() == c);
            lemma_digits_bound(before);
            crate::number::lemma_pow10_monotonic(n as nat, 18);
        }
        let d: i64 = if c == '영' {
            0
        } else {
            digit(c)
        };
        if c == '영' || d > 0 {
            if n == 18 {
                proof {
                    lemma_digits_count_prefix(chars@, i as int + 1);
                }
                return None;
            }
            proof {
                crate::number::lemma_pow10_monotonic(n as nat, 17);
                assert(crate::number::pow10(17) == 100000000000000000) by {
                    reveal_with_fuel(crate::number::pow10, 18);
                }
            }
            v = v * 10 + d;
            n = n + 1;
        }
        i = i + 1;
    }
    proof {
        assert(chars@.subrange(0, i as int) =~= chars@);
    }
    Some((v, n))
}

} // verus!
