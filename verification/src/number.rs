//! Numbers and ordinals, and the reading of decimal digits.

use vstd::prelude::*;
use crate::error::ProductionError;

verus! {

/// Whether a value was given exactly or only roughly.
#[derive(Clone, Copy, Debug, PartialEq, Eq, Structural)]
pub enum Precision {
    Exact,
    Approximate,
}

/// A whole number.
///
/// `grain` is the power of ten that a magnitude word stands for (2 for
/// "hundred"), and 0 where the number is not such a word. `prefixed` and
/// `suffixed` record that an affix was applied, so that none is applied twice.
#[derive(Clone, Copy, Debug, PartialEq, Eq, Structural)]
pub struct IntegerValue {
    pub value: i64,
    pub grain: u8,
    pub group: bool,
    pub prefixed: bool,
    pub suffixed: bool,
    pub precision: Precision,
}

/// A fractional number, held exactly as `numerator / denominator`.
#[derive(Clone, Copy, Debug, PartialEq, Eq, Structural)]
pub struct FloatValue {
    pub numerator: i64,
    pub denominator: i64,
    pub prefixed: bool,
    pub suffixed: bool,
    pub precision: Precision,
}

/// A number: whole or fractional.
#[derive(Clone, Copy, Debug, PartialEq, Eq, Structural)]
pub enum NumberValue {
    Integer(IntegerValue),
    Float(FloatValue),
}

/// A position in a sequence, counted from 1.
#[derive(Clone, Copy, Debug, PartialEq, Eq, Structural)]
pub struct OrdinalValue {
    pub value: i64,
}

impl IntegerValue {
    /// The whole number without affix, magnitude or group, given exactly.
    pub open spec fn plain(value: i64) -> IntegerValue {
        IntegerValue {
            value,
            grain: 0,
            group: false,
            prefixed: false,
            suffixed: false,
            precision: Precision::Exact,
        }
    }

    /// The whole number without affix, magnitude or group, given exactly.
    pub fn new(value: i64) -> (r: IntegerValue)
        ensures
            r == Self::plain(value),
    {
        IntegerValue {
            value,
            grain: 0,
            group: false,
            prefixed: false,
            suffixed: false,
            precision: Precision::Exact,
        }
    }

    /// A magnitude word: `value` is ten to the power `grain`.
    pub fn new_with_grain(value: i64, grain: u8) -> (r: IntegerValue)
        ensures
            r == (IntegerValue { grain, ..Self::plain(value) }),
    {
        IntegerValue {
            value,
            grain,
            group: false,
            prefixed: false,
            suffixed: false,
            precision: Precision::Exact,
        }
    }
}

impl FloatValue {
    /// Whether the denominator is positive.
    pub open spec fn wf(self) -> bool {
        self.denominator > 0
    }

    /// The fraction without affix, given exactly.
    pub open spec fn plain(numerator: i64, denominator: i64) -> FloatValue {
        FloatValue {
            numerator,
            denominator,
            prefixed: false,
            suffixed: false,
            precision: Precision::Exact,
        }
    }

    /// The fraction `numerator / denominator`, with the sign carried by the
    /// numerator.
    pub fn new(numerator: i64, denominator: i64) -> (r: Result<FloatValue, ProductionError>)
        ensures
            denominator == 0 ==> r == Err::<FloatValue, ProductionError>(
                ProductionError::DivisionByZero,
            ),
            denominator > 0 ==> r == Ok::<FloatValue, ProductionError>(
                Self::plain(numerator, denominator),
            ),
            denominator < 0 && (numerator == i64::MIN || denominator == i64::MIN) ==> r == Err::<
                FloatValue,
                ProductionError,
            >(ProductionError::Overflow),
            denominator < 0 && numerator != i64::MIN && denominator != i64::MIN ==> r == Ok::<
                FloatValue,
                ProductionError,
            >(Self::plain((-numerator) as i64, (-denominator) as i64)),
            r matches Ok(v) ==> v.wf(),
    {
        if denominator == 0 {
            Err(ProductionError::DivisionByZero)
        } else if denominator > 0 {
            Ok(
                FloatValue {
                    numerator,
                    denominator,
                    prefixed: false,
                    suffixed: false,
                    precision: Precision::Exact,
                },
            )
        } else if numerator == i64::MIN || denominator == i64::MIN {
            Err(ProductionError::Overflow)
        } else {
            Ok(
                FloatValue {
                    numerator: -numerator,
                    denominator: -denominator,
                    prefixed: false,
                    suffixed: false,
                    precision: Precision::Exact,
                },
            )
        }
    }
}

impl NumberValue {
    /// Whether the number is well formed: a fraction has a positive denominator.
    pub open spec fn wf(self) -> bool {
        match self {
            NumberValue::Integer(_) => true,
            NumberValue::Float(f) => f.wf(),
        }
    }

    /// Whether a prefix was applied to the number.
    pub open spec fn is_prefixed(self) -> bool {
        match self {
            NumberValue::Integer(i) => i.prefixed,
            NumberValue::Float(f) => f.prefixed,
        }
    }

    /// Whether a suffix was applied to the number.
    pub open spec fn is_suffixed(self) -> bool {
        match self {
            NumberValue::Integer(i) => i.suffixed,
            NumberValue::Float(f) => f.suffixed,
        }
    }

    /// Numerator of the number as a fraction.
    pub open spec fn top(self) -> int {
        match self {
            NumberValue::Integer(i) => i.value as int,
            NumberValue::Float(f) => f.numerator as int,
        }
    }

    /// Denominator of the number as a fraction.
    pub open spec fn bottom(self) -> int {
        match self {
            NumberValue::Integer(_) => 1,
            NumberValue::Float(f) => f.denominator as int,
        }
    }

    /// Whether a prefix was applied to the number.
    pub fn prefixed(&self) -> (r: bool)
        ensures
            r == self.is_prefixed(),
    {
        match self {
            NumberValue::Integer(i) => i.prefixed,
            NumberValue::Float(f) => f.prefixed,
        }
    }

    /// Whether a suffix was applied to the number.
    pub fn suffixed(&self) -> (r: bool)
        ensures
            r == self.is_suffixed(),
    {
        match self {
            NumberValue::Integer(i) => i.suffixed,
            NumberValue::Float(f) => f.suffixed,
        }
    }

    /// Numerator of the number as a fraction.
    pub fn numerator(&self) -> (r: i64)
        ensures
            r == self.top(),
    {
        match self {
            NumberValue::Integer(i) => i.value,
            NumberValue::Float(f) => f.numerator,
        }
    }

    /// Denominator of the number as a fraction.
    pub fn denominator(&self) -> (r: i64)
        ensures
            r == self.bottom(),
    {
        match self {
            NumberValue::Integer(_) => 1,
            NumberValue::Float(f) => f.denominator,
        }
    }
}

/// What the negative prefix makes of a number: the same number with the
/// opposite sign, marked as prefixed.
pub open spec fn negated(n: NumberValue) -> NumberValue {
    match n {
        NumberValue::Integer(i) => NumberValue::Integer(
            IntegerValue { value: (-i.value) as i64, prefixed: true, ..i },
        ),
        NumberValue::Float(f) => NumberValue::Float(
            FloatValue { numerator: (-f.numerator) as i64, prefixed: true, ..f },
        ),
    }
}

/// Applies the negative prefix. Fails on the one number whose opposite does
/// not fit.
pub fn negate(n: NumberValue) -> (r: Result<NumberValue, ProductionError>)
    ensures
        n.top() == i64::MIN ==> r == Err::<NumberValue, ProductionError>(ProductionError::Overflow),
        n.top() != i64::MIN ==> r == Ok::<NumberValue, ProductionError>(negated(n)),
        n.wf() ==> (r matches Ok(v) ==> v.wf()),
{
    match n {
        NumberValue::Integer(i) => {
            if i.value == i64::MIN {
                Err(ProductionError::Overflow)
            } else {
                Ok(
                    NumberValue::Integer(
                        IntegerValue {
                            value: -i.value,
                            grain: i.grain,
                            group: i.group,
                            prefixed: true,
                            suffixed: i.suffixed,
                            precision: i.precision,
                        },
                    ),
                )
            }
        },
        NumberValue::Float(f) => {
            if f.numerator == i64::MIN {
                Err(ProductionError::Overflow)
            } else {
                Ok(
                    NumberValue::Float(
                        FloatValue {
                            numerator: -f.numerator,
                            denominator: f.denominator,
                            prefixed: true,
                            suffixed: f.suffixed,
                            precision: f.precision,
                        },
                    ),
                )
            }
        },
    }
}

/// Whether the number fits a signed 64-bit number.
pub open spec fn fits(v: int) -> bool {
    i64::MIN <= v <= i64::MAX
}

/// Product of two numbers, where it fits.
pub fn times(a: i64, b: i64) -> (r: Option<i64>)
    ensures
        r is Some <==> fits(a * b),
        r matches Some(v) ==> v == a * b,
{
    a.checked_mul(b)
}

/// Sum of two numbers, where it fits.
pub fn plus(a: i64, b: i64) -> (r: Option<i64>)
    ensures
        r is Some <==> fits(a + b),
        r matches Some(v) ==> v == a + b,
{
    a.checked_add(b)
}

/// The quotient `a / b` of two numbers as a fraction: the numerator is
/// `a.top * b.bottom`, the denominator `a.bottom * b.top`, and where that
/// denominator is negative both change sign.
pub open spec fn quotient_spec(a: NumberValue, b: NumberValue) -> Result<
    FloatValue,
    ProductionError,
> {
    let top = a.top() * b.bottom();
    let bottom = a.bottom() * b.top();
    if b.top() == 0 {
        Err(ProductionError::DivisionByZero)
    } else if !fits(top) || !fits(bottom) || (bottom < 0 && (top == i64::MIN || bottom
        == i64::MIN)) {
        Err(ProductionError::Overflow)
    } else if bottom > 0 {
        Ok(FloatValue::plain(top as i64, bottom as i64))
    } else {
        Ok(FloatValue::plain((-top) as i64, (-bottom) as i64))
    }
}

/// The fraction `a / b`.
pub fn quotient(a: &NumberValue, b: &NumberValue) -> (r: Result<FloatValue, ProductionError>)
    requires
        a.wf(),
        b.wf(),
    ensures
        r == quotient_spec(*a, *b),
        r matches Ok(v) ==> v.wf(),
{
    if b.numerator() == 0 {
        return Err(ProductionError::DivisionByZero);
    }
    let top = times(a.numerator(), b.denominator());
    let bottom = times(a.denominator(), b.numerator());
    match (top, bottom) {
        (Some(t), Some(u)) => {
            assert(u != 0) by (nonlinear_arith)
                requires
                    u == a.bottom() * b.top(),
                    a.bottom() > 0,
                    b.top() != 0,
            ;
            FloatValue::new(t, u)
        },
        _ => Err(ProductionError::Overflow),
    }
}

/// The sum `a + b` of two numbers as a fraction over the product of the two
/// denominators.
pub open spec fn sum_spec(a: NumberValue, b: NumberValue) -> Result<FloatValue, ProductionError> {
    let top = a.top() * b.bottom() + b.top() * a.bottom();
    let bottom = a.bottom() * b.bottom();
    if !fits(a.top() * b.bottom()) || !fits(b.top() * a.bottom()) || !fits(top) || !fits(bottom) {
        Err(ProductionError::Overflow)
    } else {
        Ok(FloatValue::plain(top as i64, bottom as i64))
    }
}

/// The fraction `a + b`.
pub fn sum(a: &NumberValue, b: &NumberValue) -> (r: Result<FloatValue, ProductionError>)
    requires
        a.wf(),
        b.wf(),
    ensures
        r == sum_spec(*a, *b),
        r matches Ok(v) ==> v.wf(),
{
    let left = times(a.numerator(), b.denominator());
    let right = times(b.numerator(), a.denominator());
    let bottom = times(a.denominator(), b.denominator());
    match (left, right, bottom) {
        (Some(l), Some(r), Some(u)) => {
            match plus(l, r) {
                Some(t) => {
                    assert(u > 0) by (nonlinear_arith)
                        requires
                            u == a.bottom() * b.bottom(),
                            a.bottom() > 0,
                            b.bottom() > 0,
                    ;
                    Ok(
                        FloatValue {
                            numerator: t,
                            denominator: u,
                            prefixed: false,
                            suffixed: false,
                            precision: Precision::Exact,
                        },
                    )
                },
                None => Err(ProductionError::Overflow),
            }
        },
        _ => Err(ProductionError::Overflow),
    }
}

/// Whether the character is one of the digits 0 to 9.
pub open spec fn is_digit(c: char) -> bool {
    '0' <= c && c <= '9'
}

/// Value of a decimal digit.
pub open spec fn digit_of(c: char) -> int {
    c as u32 as int - 48
}

/// Whether every character is one of the digits 0 to 9.
pub open spec fn all_digits(s: Seq<char>) -> bool {
    forall|i: int| 0 <= i < s.len() ==> is_digit(#[trigger] s[i])
}

/// The number that a sequence of decimal digits writes.
pub open spec fn decimal_value(s: Seq<char>) -> int
    decreases s.len(),
{
    if s.len() == 0 {
        0
    } else {
        decimal_value(s.drop_last()) * 10 + digit_of(s.last())
    }
}

/// Ten to the power `n`.
pub open spec fn pow10(n: nat) -> int
    decreases n,
{
    if n == 0 {
        1
    } else {
        10 * pow10((n - 1) as nat)
    }
}

/// The decimal digits of a natural number, without leading zeros.
pub open spec fn decimal_digits(n: nat) -> Seq<char>
    decreases n,
{
    if n < 10 {
        seq![(n + 48) as u8 as char]
    } else {
        decimal_digits(n / 10).push((n % 10 + 48) as u8 as char)
    }
}

/// A longer run of digits writes a number that is no smaller.
pub proof fn lemma_decimal_prefix(s: Seq<char>, i: int)
    requires
        all_digits(s),
        0 <= i <= s.len(),
    ensures
        0 <= decimal_value(s.subrange(0, i)) <= decimal_value(s),
    decreases s.len() - i,
{
    lemma_decimal_nonnegative(s.subrange(0, i));
    if i < s.len() {
        lemma_decimal_prefix(s, i + 1);
        let longer = s.subrange(0, i + 1);
        assert(longer.drop_last() =~= s.subrange(0, i));
        assert(is_digit(s[i]));
        assert(longer.last() == s[i]);
    } else {
        assert(s.subrange(0, i) =~= s);
    }
}

/// A run of digits writes no negative number.
pub proof fn lemma_decimal_nonnegative(s: Seq<char>)
    requires
        all_digits(s),
    ensures
        0 <= decimal_value(s),
    decreases s.len(),
{
    if s.len() > 0 {
        lemma_decimal_nonnegative(s.drop_last());
        assert(is_digit(s[s.len() - 1]));
    }
}

/// A run of `n` digits writes a number below ten to the `n`.
pub proof fn lemma_decimal_bound(s: Seq<char>)
    requires
        all_digits(s),
    ensures
        0 <= decimal_value(s) < pow10(s.len()),
    decreases s.len(),
{
    if s.len() > 0 {
        lemma_decimal_bound(s.drop_last());
        assert(is_digit(s[s.len() - 1]));
    }
}

/// Reading the decimal digits of a number gives the number back.
pub proof fn lemma_decimal_round_trip(n: nat)
    ensures
        all_digits(decimal_digits(n)),
        decimal_digits(n).len() >= 1,
        decimal_value(decimal_digits(n)) == n,
    decreases n,
{
    if n < 10 {
        let s = decimal_digits(n);
        assert(s.drop_last() =~= Seq::<char>::empty());
        assert(decimal_value(s.drop_last()) == 0);
    } else {
        lemma_decimal_round_trip(n / 10);
        let s = decimal_digits(n);
        assert(s.drop_last() =~= decimal_digits(n / 10));
    }
}

/// A number below ten to the `k` has at most `k` digits, for `k` of at least 1.
pub proof fn lemma_decimal_length(n: nat, k: nat)
    requires
        k >= 1,
        n < pow10(k),
    ensures
        decimal_digits(n).len() <= k,
    decreases n,
{
    if n >= 10 {
        assert(pow10(1) == 10) by {
            reveal_with_fuel(pow10, 2);
        }
        assert(k >= 2);
        lemma_decimal_length(n / 10, (k - 1) as nat);
    }
}

/// Whether the character is one of the digits 0 to 9.
pub fn is_digit_char(c: char) -> (r: bool)
    ensures
        r == is_digit(c),
{
    '0' <= c && c <= '9'
}

/// Whether every character is a decimal digit.
pub fn is_digits(chars: &Vec<char>) -> (r: bool)
    ensures
        r == all_digits(chars@),
{
    let mut i: usize = 0;
    while i < chars.len()
        invariant
            i <= chars@.len(),
            forall|k: int| 0 <= k < i ==> is_digit(#[trigger] chars@[k]),
        decreases chars@.len() - i,
    {
        if !is_digit_char(chars[i]) {
            return false;
        }
        i = i + 1;
    }
    true
}

/// The characters of `s` other than `c`, in order.
pub open spec fn without(s: Seq<char>, c: char) -> Seq<char>
    decreases s.len(),
{
    if s.len() == 0 {
        s
    } else if s.last() == c {
        without(s.drop_last(), c)
    } else {
        without(s.drop_last(), c).push(s.last())
    }
}

/// Copy of the characters other than `c`.
pub fn strip(chars: &Vec<char>, c: char) -> (v: Vec<char>)
    ensures
        v@ == without(chars@, c),
{
    let mut v: Vec<char> = Vec::new();
    let mut i: usize = 0;
    proof {
        assert(chars@.subrange(0, 0) =~= Seq::<char>::empty());
    }
    while i < chars.len()
        invariant
            i <= chars@.len(),
            v@ == without(chars@.subrange(0, i as int), c),
        decreases chars@.len() - i,
    {
        proof {
            let now = chars@.subrange(0, i as int + 1);
            assert(now.drop_last() =~= chars@.subrange(0, i as int));
            assert(now.last() == chars@[i as int]);
        }
        if chars[i] != c {
            v.push(chars[i]);
        }
        i = i + 1;
    }
    proof {
        assert(chars@.subrange(0, i as int) =~= chars@);
    }
    v
}

/// What `parse_integer` reads from a run of characters.
pub open spec fn parsed(s: Seq<char>) -> Option<i64> {
    if s.len() > 0 && all_digits(s) && decimal_value(s) <= i64::MAX {
        Some(decimal_value(s) as i64)
    } else {
        None
    }
}

/// The fraction that a decimal writes: digits, a point, and digits. The
/// denominator is ten to the number of digits behind the point.
pub open spec fn decimal_fraction(s: Seq<char>) -> Result<FloatValue, ProductionError> {
    let k = crate::text::last_index(s, '.');
    let whole = s.subrange(0, k);
    let behind = s.subrange(k + 1, s.len() as int);
    if k < 0 || behind.len() == 0 || behind.len() > 18 || !all_digits(behind) || !all_digits(
        whole,
    ) {
        Err(ProductionError::Malformed)
    } else {
        let top = decimal_value(whole) * pow10(behind.len()) + decimal_value(behind);
        if top > i64::MAX {
            Err(ProductionError::Overflow)
        } else {
            Ok(FloatValue::plain(top as i64, pow10(behind.len()) as i64))
        }
    }
}

/// Reads a decimal.
pub fn parse_decimal(chars: &Vec<char>) -> (r: Result<FloatValue, ProductionError>)
    ensures
        r == decimal_fraction(chars@),
        r matches Ok(v) ==> v.wf(),
{
    let n: usize = chars.len();
    let mut k: usize = n;
    let ghost s = chars@;
    proof {
        assert(s.subrange(0, n as int) =~= s);
    }
    while k > 0 && chars[k - 1] != '.'
        invariant
            k <= n,
            n == chars@.len(),
            s == chars@,
            crate::text::last_index(s, '.') == crate::text::last_index(
                s.subrange(0, k as int),
                '.',
            ),
        decreases k,
    {
        proof {
            let cur = s.subrange(0, k as int);
            assert(cur.last() == s[k - 1]);
            assert(cur.drop_last() =~= s.subrange(0, k - 1));
        }
        k = k - 1;
    }
    if k == 0 {
        return Err(ProductionError::Malformed);
    }
    proof {
        let cur = s.subrange(0, k as int);
        assert(cur.last() == s[k - 1]);
        assert(crate::text::last_index(s, '.') == k - 1);
    }
    let whole = crate::text::slice_chars(chars, 0, k - 1);
    let behind = crate::text::slice_chars(chars, k, n);
    if behind.len() == 0 || behind.len() > 18 || !is_digits(&behind) || !is_digits(&whole) {
        return Err(ProductionError::Malformed);
    }
    proof {
        lemma_decimal_bound(behind@);
        lemma_decimal_nonnegative(whole@);
        lemma_pow10_monotonic(behind@.len(), 18);
        lemma_pow10_18();
    }
    let scale: i64 = power_of_ten(behind.len());
    let low = match parse_integer(&behind) {
        Some(v) => v,
        None => {
            return Err(ProductionError::Malformed);
        },
    };
    let high: i64 = if whole.len() == 0 {
        0
    } else {
        match parse_integer(&whole) {
            Some(v) => v,
            None => {
                assert(decimal_value(whole@) * pow10(behind@.len()) >= decimal_value(whole@))
                    by (nonlinear_arith)
                    requires
                        decimal_value(whole@) >= 0,
                        pow10(behind@.len()) >= 1,
                ;
                return Err(ProductionError::Overflow);
            },
        }
    };
    match times(high, scale) {
        Some(shifted) => match plus(shifted, low) {
            Some(top) => Ok(
                FloatValue {
                    numerator: top,
                    denominator: scale,
                    prefixed: false,
                    suffixed: false,
                    precision: Precision::Exact,
                },
            ),
            None => Err(ProductionError::Overflow),
        },
        None => {
            assert(high * scale >= 0) by (nonlinear_arith)
                requires
                    high >= 0,
                    scale >= 1,
            ;
            Err(ProductionError::Overflow)
        },
    }
}

/// Reads a run of decimal digits. `None` where the run is empty, holds
/// another character, or writes a number above the largest signed 64-bit one.
pub fn parse_integer(chars: &Vec<char>) -> (r: Option<i64>)
    ensures
        r is Some <==> (chars@.len() > 0 && all_digits(chars@) && decimal_value(chars@)
            <= i64::MAX),
        r matches Some(v) ==> v == decimal_value(chars@),
        r == parsed(chars@),
{
    if chars.len() == 0 {
        return None;
    }
    let mut acc: i64 = 0;
    let mut i: usize = 0;
    proof {
        assert(chars@.subrange(0, 0) =~= Seq::<char>::empty());
    }
    while i < chars.len()
        invariant
            i <= chars@.len(),
            all_digits(chars@.subrange(0, i as int)),
            acc == decimal_value(chars@.subrange(0, i as int)),
            0 <= acc,
        decreases chars@.len() - i,
    {
        let c = chars[i];
        let ghost before = chars@.subrange(0, i as int);
        let ghost after = chars@.subrange(0, i as int + 1);
        proof {
            assert(after.drop_last() =~= before);
            assert(after.last() == c);
        }
        if !is_digit_char(c) {
            return None;
        }
        let d: i64 = (c as u32 - 48) as i64;
        proof {
            assert forall|k: int| 0 <= k < after.len() implies is_digit(#[trigger] after[k]) by {
                if k < i {
                    assert(after[k] == before[k]);
                }
            }
        }
        if acc > (i64::MAX - d) / 10 {
            proof {
                if all_digits(chars@) {
                    lemma_decimal_prefix(chars@, i as int + 1);
                }
            }
            return None;
        }
        acc = acc * 10 + d;
        i = i + 1;
    }
    proof {
        assert(chars@.subrange(0, i as int) =~= chars@);
    }
    Some(acc)
}

/// A higher power of ten is no smaller, and every power is at least one.
pub proof fn lemma_pow10_monotonic(a: nat, b: nat)
    requires
        a <= b,
    ensures
        1 <= pow10(a) <= pow10(b),
    decreases b,
{
    if a < b {
        lemma_pow10_monotonic(a, (b - 1) as nat);
    } else if a > 0 {
        lemma_pow10_monotonic((a - 1) as nat, (b - 1) as nat);
    }
}

/// Ten to the eighteenth, and ten to the first.
pub proof fn lemma_pow10_18()
    ensures
        pow10(18) == 1000000000000000000,
        pow10(1) == 10,
{
    reveal_with_fuel(pow10, 19);
}

/// Ten to the power `n`, for `n` up to 18.
pub fn power_of_ten(n: usize) -> (r: i64)
    requires
        n <= 18,
    ensures
        r == pow10(n as nat),
        1 <= r <= 1000000000000000000,
{
    let mut r: i64 = 1;
    let mut i: usize = 0;
    proof {
        lemma_pow10_18();
    }
    while i < n
        invariant
            i <= n <= 18,
            r == pow10(i as nat),
            1 <= r,
            pow10(18) == 1000000000000000000,
        decreases n - i,
    {
        proof {
            lemma_pow10_monotonic(i as nat, i as nat);
            lemma_pow10_monotonic((i + 1) as nat, 18);
        }
        r = r * 10;
        i = i + 1;
    }
    proof {
        lemma_pow10_monotonic(n as nat, 18);
    }
    r
}

} // verus!
