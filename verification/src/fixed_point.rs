//! Fixed-point arithmetic on counts of millionths.
//!
//! A quantity of 1.5 kg is the integer 1_500_000, a ratio of 3 % is 30_000. Sums and
//! products of non-negative numbers that would exceed the largest `i64` yield that
//! largest number instead; products and quotients are rounded down.

use crate::text::{
    all_digits, char_is_digit, chars_of, digit_value, digits_to_number, digits_value, find_char,
    first_index_of, is_digit, lemma_first_index_of,
};
use vstd::prelude::*;
use vstd::string::StringExecFns;

verus! {

/// How many fixed-point units make one whole unit.
pub const SCALE: i64 = 1_000_000;

/// Kilograms in a metric ton.
pub const KG_PER_TON: i64 = 1_000;

/// `x` capped at the largest fixed-point number: the result of arithmetic on numbers
/// that are not negative, where the exact result would be too large to hold.
pub open spec fn saturate(x: int) -> int {
    if x > i64::MAX {
        i64::MAX as int
    } else {
        x
    }
}

/// The product of the fixed-point numbers `a` and `b`, rounded down to a whole
/// number of millionths.
pub open spec fn scaled_product(a: int, b: int) -> int {
    (a * b) / (SCALE as int)
}

/// The quotient of the fixed-point number `a` by the fixed-point number `b`, rounded
/// down to a whole number of millionths.
pub open spec fn scaled_quotient(a: int, b: int) -> int {
    (a * SCALE) / b
}

/// The sum of two non-negative fixed-point numbers, capped.
pub fn add_saturating(a: i64, b: i64) -> (r: i64)
    requires
        0 <= a,
        0 <= b,
    ensures
        r == saturate(a + b),
        0 <= r,
{
    if a > i64::MAX - b {
        i64::MAX
    } else {
        a + b
    }
}

/// The product of two non-negative fixed-point numbers, rounded down and capped.
pub fn multiply_saturating(a: i64, b: i64) -> (r: i64)
    requires
        0 <= a,
        0 <= b,
    ensures
        r == saturate(scaled_product(a as int, b as int)),
        0 <= r,
{
    assert(0 <= a * b <= 0x7fff_ffff_ffff_ffff * 0x7fff_ffff_ffff_ffff) by (nonlinear_arith)
        requires
            0 <= a <= 0x7fff_ffff_ffff_ffff,
            0 <= b <= 0x7fff_ffff_ffff_ffff,
    ;
    let wide: i128 = (a as i128) * (b as i128);
    let scaled: i128 = wide / (SCALE as i128);
    if scaled > i64::MAX as i128 {
        i64::MAX
    } else {
        scaled as i64
    }
}

/// The quotient of a non-negative fixed-point number by a positive one, rounded down
/// and capped.
pub fn divide_saturating(a: i64, b: i64) -> (r: i64)
    requires
        0 <= a,
        0 < b,
    ensures
        r == saturate(scaled_quotient(a as int, b as int)),
        0 <= r,
{
    assert(0 <= a * SCALE <= 0x7fff_ffff_ffff_ffff * 1_000_000) by (nonlinear_arith)
        requires
            0 <= a <= 0x7fff_ffff_ffff_ffff,
            SCALE == 1_000_000,
    ;
    let wide: i128 = (a as i128) * (SCALE as i128);
    let quotient: i128 = wide / (b as i128);
    assert(0 <= quotient) by (nonlinear_arith)
        requires
            0 <= wide,
            0 < b,
            quotient == (wide as int) / (b as int),
    ;
    if quotient > i64::MAX as i128 {
        i64::MAX
    } else {
        quotient as i64
    }
}

/// Capped sums of numbers that are not negative do not depend on how the numbers are
/// grouped, nor on their order.
pub proof fn lemma_saturating_sum_regroups(a: int, b: int, c: int)
    requires
        0 <= a,
        0 <= b,
        0 <= c,
    ensures
        saturate(saturate(a + b) + c) == saturate(a + b + c),
        saturate(a + saturate(b + c)) == saturate(a + b + c),
        saturate(a + b) == saturate(b + a),
{
}

/// A decimal number as it is written, without its sign.
pub open spec fn unsigned_text(s: Seq<char>) -> Seq<char> {
    if s.len() > 0 && (s[0] == '+' || s[0] == '-') {
        s.drop_first()
    } else {
        s
    }
}

/// What stands before the decimal point of the number `s`.
pub open spec fn whole_digits(s: Seq<char>) -> Seq<char> {
    let body = unsigned_text(s);
    body.take(first_index_of(body, '.'))
}

/// What stands behind the decimal point of the number `s`; nothing where `s` has no
/// decimal point.
pub open spec fn fraction_digits(s: Seq<char>) -> Seq<char> {
    let body = unsigned_text(s);
    let point = first_index_of(body, '.');
    if point < body.len() {
        body.skip(point + 1)
    } else {
        Seq::empty()
    }
}

/// Whether `s` writes a decimal number: an optional sign, digits, and optionally a
/// decimal point with digits behind it; one digit at least.
pub open spec fn is_decimal(s: Seq<char>) -> bool {
    &&& all_digits(whole_digits(s))
    &&& all_digits(fraction_digits(s))
    &&& whole_digits(s).len() + fraction_digits(s).len() > 0
}

/// Whether one of the digits of `s` is not zero.
pub open spec fn has_nonzero_digit(s: Seq<char>) -> bool {
    exists|i: int| 0 <= i < s.len() && is_digit(#[trigger] s[i]) && digit_value(s[i]) != 0
}

/// Whether the decimal number `s` is below zero.
pub open spec fn is_negative_decimal(s: Seq<char>) -> bool {
    s.len() > 0 && s[0] == '-' && has_nonzero_digit(unsigned_text(s))
}

/// The millionths that the digits `fraction` behind a decimal point stand for, where
/// the first of them counts `place` millionths. Digits beyond the millionths do not
/// count.
pub open spec fn fraction_value(fraction: Seq<char>, place: nat) -> nat
    decreases fraction.len(),
{
    if fraction.len() == 0 || place == 0 {
        0
    } else {
        digit_value(fraction[0]) * place + fraction_value(fraction.drop_first(), place / 10)
    }
}

/// The size of the decimal number `s` in millionths, its sign left aside: rounded
/// down to a whole number of millionths and capped at the largest fixed-point number.
pub open spec fn decimal_magnitude(s: Seq<char>) -> int {
    saturate(
        digits_value(whole_digits(s)) * SCALE + fraction_value(fraction_digits(s), 100_000),
    )
}

/// Whether `chars[start..end]` holds digits only, and whether one of them is not
/// zero.
fn scan_digits(chars: &Vec<char>, start: usize, end: usize) -> (r: (bool, bool))
    requires
        start <= end <= chars@.len(),
    ensures
        r.0 == all_digits(chars@.subrange(start as int, end as int)),
        r.0 ==> r.1 == has_nonzero_digit(chars@.subrange(start as int, end as int)),
{
    let ghost digits = chars@.subrange(start as int, end as int);
    let mut nonzero = false;
    let mut i: usize = start;
    while i < end
        invariant
            start <= i <= end <= chars@.len(),
            digits == chars@.subrange(start as int, end as int),
            forall|k: int| 0 <= k < i - start ==> is_digit(#[trigger] digits[k]),
            nonzero == has_nonzero_digit(digits.take(i - start)),
        decreases end - i,
    {
        let c = chars[i];
        assert(digits[i - start] == c);
        if !char_is_digit(c) {
            assert(!all_digits(digits));
            return (false, false);
        }
        proof {
            let before = digits.take(i - start);
            let after = digits.take(i - start + 1);
            assert(after[i - start] == c);
            if has_nonzero_digit(before) {
                let k = choose|k: int|
                    0 <= k < before.len() && is_digit(#[trigger] before[k]) && digit_value(
                        before[k],
                    ) != 0;
                assert(after[k] == before[k]);
            }
            if has_nonzero_digit(after) && c as u32 == 0x30 {
                let k = choose|k: int|
                    0 <= k < after.len() && is_digit(#[trigger] after[k]) && digit_value(after[k])
                        != 0;
                assert(before[k] == after[k]);
            }
        }
        if c as u32 != 0x30 {
            nonzero = true;
        }
        i += 1;
    }
    assert(digits.take(end - start) =~= digits);
    (true, nonzero)
}

/// The millionths that the digits `chars[start..end]` behind a decimal point stand
/// for.
fn fraction_to_number(chars: &Vec<char>, start: usize, end: usize) -> (r: u64)
    requires
        start <= end <= chars@.len(),
        all_digits(chars@.subrange(start as int, end as int)),
    ensures
        r == fraction_value(chars@.subrange(start as int, end as int), 100_000),
        r < 1_000_000,
{
    let ghost digits = chars@.subrange(start as int, end as int);
    let mut acc: u64 = 0;
    let mut place: u64 = 100_000;
    let mut i: usize = start;
    assert(digits.skip(0) =~= digits);
    while i < end && place > 0
        invariant
            start <= i <= end <= chars@.len(),
            digits == chars@.subrange(start as int, end as int),
            all_digits(digits),
            place <= 100_000,
            acc + 10 * place <= 1_000_000,
            place == 0 ==> acc < 1_000_000,
            acc + fraction_value(digits.skip(i - start), place as nat) == fraction_value(
                digits,
                100_000,
            ),
        decreases end - i,
    {
        let c = chars[i];
        proof {
            let rest = digits.skip(i - start);
            assert(rest[0] == digits[i - start]);
            assert(digits[i - start] == c);
            assert(is_digit(digits[i - start]));
            assert(rest.drop_first() =~= digits.skip(i - start + 1));
        }
        let d: u64 = (c as u32 - 0x30) as u64;
        assert(d * place <= 9 * place) by (nonlinear_arith)
            requires
                d <= 9,
        ;
        acc = acc + d * place;
        place = place / 10;
        i += 1;
    }
    acc
}

/// The digits of `fraction` that stand beyond the millionths.
pub open spec fn beyond_millionths(fraction: Seq<char>) -> Seq<char> {
    if fraction.len() > 6 {
        fraction.skip(6)
    } else {
        Seq::empty()
    }
}

/// The decimal number `s` in millionths, rounded down: toward zero where it is not
/// negative, away from zero where it is, so that no negative number becomes zero.
/// Where the result would be outside the fixed-point numbers it is the nearest of
/// them.
pub open spec fn decimal_value(s: Seq<char>) -> int {
    if is_negative_decimal(s) {
        -saturate(
            digits_value(whole_digits(s)) * SCALE + fraction_value(fraction_digits(s), 100_000)
                + if has_nonzero_digit(beyond_millionths(fraction_digits(s))) {
                1int
            } else {
                0int
            },
        )
    } else {
        decimal_magnitude(s)
    }
}

/// The decimal number that `chars` writes, in millionths, if it writes one.
pub fn parse_decimal(chars: &Vec<char>) -> (r: Option<i64>)
    ensures
        r is Some <==> is_decimal(chars@),
        r matches Some(value) ==> value == decimal_value(chars@) && (value < 0
            <==> is_negative_decimal(chars@)),
{
    let n = chars.len();
    let signed = n > 0 && (chars[0] == '+' || chars[0] == '-');
    let minus = n > 0 && chars[0] == '-';
    let start: usize = if signed {
        1
    } else {
        0
    };
    let ghost body = unsigned_text(chars@);
    let point = find_char(chars, start, '.');
    proof {
        assert(body =~= chars@.skip(start as int));
        lemma_first_index_of(body, '.');
        assert(whole_digits(chars@) =~= chars@.subrange(start as int, point as int));
    }
    let after_point: usize = if point < n {
        point + 1
    } else {
        n
    };
    proof {
        assert(fraction_digits(chars@) =~= chars@.subrange(after_point as int, n as int));
    }
    let (whole_ok, whole_nonzero) = scan_digits(chars, start, point);
    if !whole_ok {
        return None;
    }
    let (fraction_ok, fraction_nonzero) = scan_digits(chars, after_point, n);
    if !fraction_ok {
        return None;
    }
    if point - start + (n - after_point) == 0 {
        return None;
    }
    let beyond: usize = if n - after_point > 6 {
        after_point + 6
    } else {
        n
    };
    proof {
        let f = chars@.subrange(after_point as int, n as int);
        assert(beyond_millionths(f) =~= chars@.subrange(beyond as int, n as int));
        assert forall|k: int| 0 <= k < n - beyond implies is_digit(
            #[trigger] chars@.subrange(beyond as int, n as int)[k],
        ) by {
            assert(f[k + (beyond - after_point)] == chars@.subrange(beyond as int, n as int)[k]);
        }
    }
    let (_, inexact) = scan_digits(chars, beyond, n);
    let limit: u64 = 9_223_372_036_854;
    let whole = digits_to_number(chars, start, point, limit);
    let fraction = fraction_to_number(chars, after_point, n);
    proof {
        let w = chars@.subrange(start as int, point as int);
        let f = chars@.subrange(after_point as int, n as int);
        if has_nonzero_digit(body) {
            let k = choose|k: int|
                0 <= k < body.len() && is_digit(#[trigger] body[k]) && digit_value(body[k]) != 0;
            if k < point - start {
                assert(w[k] == body[k]);
            } else {
                assert(body[point - start] == '.');
                assert(f[k - (after_point - start)] == body[k]);
            }
        }
        if has_nonzero_digit(w) {
            let k = choose|k: int|
                0 <= k < w.len() && is_digit(#[trigger] w[k]) && digit_value(w[k]) != 0;
            assert(body[k] == w[k]);
        }
        if has_nonzero_digit(f) {
            let k = choose|k: int|
                0 <= k < f.len() && is_digit(#[trigger] f[k]) && digit_value(f[k]) != 0;
            assert(body[k + (after_point - start)] == f[k]);
        }
    }
    let negative = minus && (whole_nonzero || fraction_nonzero);
    if whole > limit {
        assert(digits_value(whole_digits(chars@)) * SCALE >= (limit + 1) * SCALE)
            by (nonlinear_arith)
            requires
                digits_value(whole_digits(chars@)) >= limit + 1,
                SCALE == 1_000_000,
        ;
        return Some(if negative {
            -i64::MAX
        } else {
            i64::MAX
        });
    }
    let exact: u128 = (whole as u128) * (SCALE as u128) + (fraction as u128);
    let magnitude: i64 = if exact > i64::MAX as u128 {
        i64::MAX
    } else {
        exact as i64
    };
    let value: i64 = if !negative {
        magnitude
    } else if inexact && magnitude < i64::MAX {
        proof {
            lemma_nonzero_magnitude(chars@, inexact);
        }
        -(magnitude + 1)
    } else {
        proof {
            lemma_nonzero_magnitude(chars@, inexact);
        }
        -magnitude
    };
    Some(value)
}

/// A number with a digit that is not zero has a size that is not zero, once what
/// stands beyond the millionths is counted.
proof fn lemma_nonzero_magnitude(s: Seq<char>, inexact: bool)
    requires
        is_decimal(s),
        has_nonzero_digit(unsigned_text(s)),
        inexact == has_nonzero_digit(beyond_millionths(fraction_digits(s))),
    ensures
        digits_value(whole_digits(s)) * SCALE + fraction_value(fraction_digits(s), 100_000)
            + if inexact {
            1int
        } else {
            0int
        } > 0,
{
    let body = unsigned_text(s);
    let w = whole_digits(s);
    let f = fraction_digits(s);
    let point = first_index_of(body, '.');
    lemma_first_index_of(body, '.');
    let k = choose|k: int|
        0 <= k < body.len() && is_digit(#[trigger] body[k]) && digit_value(body[k]) != 0;
    if k < point {
        assert(w[k] == body[k]);
        lemma_digits_value_positive(w, k);
        assert(digits_value(w) * SCALE > 0) by (nonlinear_arith)
            requires
                digits_value(w) > 0,
                SCALE == 1_000_000,
        ;
    } else {
        assert(body[point] == '.');
        assert(f[k - point - 1] == body[k]);
        if k - point - 1 < 6 {
            lemma_fraction_value_positive(f, 100_000, k - point - 1);
        } else {
            assert(beyond_millionths(f)[k - point - 1 - 6] == f[k - point - 1]);
        }
        assert(digits_value(w) * SCALE >= 0) by (nonlinear_arith)
            requires
                digits_value(w) >= 0,
                SCALE == 1_000_000,
        ;
    }
}

/// Digits of which one is not zero write a number that is not zero.
proof fn lemma_digits_value_positive(digits: Seq<char>, k: int)
    requires
        0 <= k < digits.len(),
        is_digit(digits[k]),
        digit_value(digits[k]) != 0,
    ensures
        digits_value(digits) > 0,
    decreases digits.len(),
{
    if k < digits.len() - 1 {
        assert(digits.drop_last()[k] == digits[k]);
        lemma_digits_value_positive(digits.drop_last(), k);
    }
}

/// Digits behind the point of which one of the first six is not zero stand for a
/// number that is not zero.
proof fn lemma_fraction_value_positive(fraction: Seq<char>, place: nat, k: int)
    requires
        0 <= k < fraction.len(),
        is_digit(fraction[k]),
        digit_value(fraction[k]) != 0,
        place == 100_000 && k < 6 || place == 10_000 && k < 5 || place == 1_000 && k < 4 || place
            == 100 && k < 3 || place == 10 && k < 2 || place == 1 && k < 1,
    ensures
        fraction_value(fraction, place) > 0,
    decreases fraction.len(),
{
    if k > 0 {
        assert(fraction.drop_first()[k - 1] == fraction[k]);
        lemma_fraction_value_positive(fraction.drop_first(), place / 10, k - 1);
        assert(digit_value(fraction[0]) * place >= 0) by (nonlinear_arith)
            requires
                digit_value(fraction[0]) >= 0,
                place >= 0,
        ;
    } else {
        assert(digit_value(fraction[0]) * place > 0) by (nonlinear_arith)
            requires
                digit_value(fraction[0]) > 0,
                place > 0,
        ;
    }
}

/// The decimal number that `text` writes, in millionths, if it writes one.
pub fn parse_number(text: &str) -> (r: Option<i64>)
    ensures
        r is Some <==> is_decimal(text@),
        r is Some ==> r->Some_0 == decimal_value(text@),
{
    let chars = chars_of(text);
    parse_decimal(&chars)
}

/// The character that writes the digit `d`.
pub open spec fn digit_char(d: nat) -> char {
    ((0x30 + d) as u8) as char
}

/// `n` written in base ten, without leading zeros.
pub open spec fn number_text(n: nat) -> Seq<char>
    decreases n,
{
    if n < 10 {
        seq![digit_char(n)]
    } else {
        number_text(n / 10).push(digit_char(n % 10))
    }
}

/// `magnitude` millionths in hundredths, rounded to the nearest hundredth and, where
/// two are equally near, to the even one.
pub open spec fn rounded_hundredths(magnitude: nat) -> nat {
    let down = magnitude / 10_000;
    let rest = magnitude % 10_000;
    if rest > 5_000 || (rest == 5_000 && down % 2 == 1) {
        down + 1
    } else {
        down
    }
}

/// The fixed-point number `value` written with two decimals: a `-` where it is below
/// zero, the whole part, a point, and two digits.
pub open spec fn hundredths_text(value: int) -> Seq<char> {
    let magnitude = if value < 0 {
        (-value) as nat
    } else {
        value as nat
    };
    let hundredths = rounded_hundredths(magnitude);
    let sign = if value < 0 {
        seq!['-']
    } else {
        Seq::<char>::empty()
    };
    sign + number_text(hundredths / 100) + seq![
        '.',
        digit_char(hundredths % 100 / 10),
        digit_char(hundredths % 10),
    ]
}

/// The text of one digit.
fn digit_text(d: u64) -> (s: &'static str)
    requires
        d < 10,
    ensures
        s@ == seq![digit_char(d as nat)],
{
    proof {
        reveal_strlit("0");
        reveal_strlit("1");
        reveal_strlit("2");
        reveal_strlit("3");
        reveal_strlit("4");
        reveal_strlit("5");
        reveal_strlit("6");
        reveal_strlit("7");
        reveal_strlit("8");
        reveal_strlit("9");
    }
    let s = if d == 0 {
        "0"
    } else if d == 1 {
        "1"
    } else if d == 2 {
        "2"
    } else if d == 3 {
        "3"
    } else if d == 4 {
        "4"
    } else if d == 5 {
        "5"
    } else if d == 6 {
        "6"
    } else if d == 7 {
        "7"
    } else if d == 8 {
        "8"
    } else {
        "9"
    };
    assert(s@ =~= seq![digit_char(d as nat)]);
    s
}

/// Writes `n` in base ten at the end of `text`.
pub fn append_number(text: &mut String, n: u64)
    ensures
        final(text)@ == old(text)@ + number_text(n as nat),
    decreases n,
{
    if n >= 10 {
        append_number(text, n / 10);
    }
    text.append(digit_text(n % 10));
    assert(final(text)@ =~= old(text)@ + number_text(n as nat));
}

/// The fixed-point number `value` written with two decimals.
pub fn format_hundredths(value: i64) -> (text: String)
    ensures
        text@ == hundredths_text(value as int),
{
    let magnitude: u64 = if value < 0 {
        (-(value as i128)) as u64
    } else {
        value as u64
    };
    let down: u64 = magnitude / 10_000;
    let rest: u64 = magnitude % 10_000;
    let hundredths: u64 = if rest > 5_000 || (rest == 5_000 && down % 2 == 1) {
        down + 1
    } else {
        down
    };
    let mut text = String::new();
    if value < 0 {
        proof {
            reveal_strlit("-");
        }
        text.append("-");
    }
    append_number(&mut text, hundredths / 100);
    proof {
        reveal_strlit(".");
    }
    text.append(".");
    text.append(digit_text(hundredths % 100 / 10));
    text.append(digit_text(hundredths % 10));
    assert(text@ =~= hundredths_text(value as int));
    text
}

} // verus!
