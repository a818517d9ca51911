//! From a cell that holds a date, as a spreadsheet gives it, to the date as text.
//!
//! A spreadsheet holds a date as a serial number, a count of days, or as text. Serial
//! numbers are fixed-point numbers like every other number here: millionths of a day.

use crate::fixed_point::{
    append_number, decimal_value, is_decimal, number_text, parse_number, SCALE,
};
use crate::text::{
    char_is_whitespace, chars_of, find_char, first_index_of, is_whitespace, trim, trim_start,
    trimmed,
};
use vstd::prelude::*;
use vstd::string::StringExecFns;

verus! {

/// The day of the calendar that lies `days` days after the day `year`, `month`,
/// `day`, as chrono counts days; `None` where chrono knows no such day.
pub uninterp spec fn day_after(year: i32, month: u32, day: u32, days: i64) -> Option<
    (i32, u32, u32),
>;

/// chrono's `NaiveDate::from_ymd_opt`, `TimeDelta::try_days` and
/// `NaiveDate::checked_add_signed`, read back by `Datelike::year`, `month` and `day`:
/// year, month and day of the day that lies `days` days after the day given. It is
/// `None` where the day given is no day of the calendar, where `days` is more than a
/// `TimeDelta` holds, or where the result is outside the dates that chrono holds. The
/// contract names the result and claims that it depends on the arguments alone.
#[verifier::external_body]
fn date_plus_days(year: i32, month: u32, day: u32, days: i64) -> (r: Option<(i32, u32, u32)>)
    ensures
        r == day_after(year, month, day, days),
{
    let start = chrono::NaiveDate::from_ymd_opt(year, month, day)?;
    let date = start.checked_add_signed(chrono::TimeDelta::try_days(days)?)?;
    Some(
        (
            chrono::Datelike::year(&date),
            chrono::Datelike::month(&date),
            chrono::Datelike::day(&date),
        ),
    )
}

/// `k` zeros.
pub open spec fn zeros(k: nat) -> Seq<char> {
    Seq::new(k, |i: int| '0')
}

/// `n` written in base ten with zeros before it, so that it has `width` digits at
/// least.
pub open spec fn padded_text(n: nat, width: nat) -> Seq<char> {
    let digits = number_text(n);
    if digits.len() < width {
        zeros((width - digits.len()) as nat) + digits
    } else {
        digits
    }
}

/// A day of the calendar written year, month, day with `-` between them: the year
/// with four digits at least, the sign counting as one where the year is below zero;
/// month and day with two digits at least.
pub open spec fn date_text(year: i32, month: u32, day: u32) -> Seq<char> {
    let year_text = if year < 0 {
        seq!['-'] + padded_text((-year) as nat, 3)
    } else {
        padded_text(year as nat, 4)
    };
    year_text + seq!['-'] + padded_text(month as nat, 2) + seq!['-'] + padded_text(
        day as nat,
        2,
    )
}

/// How many digits `n` has in base ten.
fn digit_count(n: u64) -> (count: usize)
    ensures
        count == number_text(n as nat).len(),
        1 <= count <= 20,
{
    assert(1 <= number_text(n as nat).len() <= 20) by {
        reveal_with_fuel(number_text, 21);
    }
    let mut count: usize = 1;
    let mut rest: u64 = n;
    while rest >= 10
        invariant
            1 <= count,
            number_text(n as nat).len() == number_text(rest as nat).len() + count - 1,
            number_text(n as nat).len() <= 20,
        decreases rest,
    {
        assert(number_text(rest as nat).len() == number_text((rest / 10) as nat).len() + 1);
        rest = rest / 10;
        count += 1;
    }
    count
}

/// Writes `n` at the end of `text`, with zeros before it so that it has `width`
/// digits at least.
fn append_padded(text: &mut String, n: u64, width: usize)
    requires
        width <= 4,
    ensures
        final(text)@ == old(text)@ + padded_text(n as nat, width as nat),
{
    let count = digit_count(n);
    let ghost start = text@;
    let mut written: usize = count;
    while written < width
        invariant
            count <= written,
            width <= 4,
            written == count || written <= width,
            text@ == start + zeros((written - count) as nat),
        decreases width - written,
    {
        proof {
            reveal_strlit("0");
        }
        text.append("0");
        written += 1;
        assert(text@ =~= start + zeros((written - count) as nat));
    }
    let ghost filled = text@;
    append_number(text, n);
    proof {
        assert(text@ == filled + number_text(n as nat));
        if count >= width {
            assert(zeros(0) =~= Seq::<char>::empty());
            assert(filled =~= start);
        }
        assert(text@ =~= start + padded_text(n as nat, width as nat));
    }
}

/// A day of the calendar written year, month, day, as `2024-01-15`.
pub fn format_date(year: i32, month: u32, day: u32) -> (text: String)
    ensures
        text@ == date_text(year, month, day),
{
    let mut text = String::new();
    proof {
        reveal_strlit("-");
    }
    if year < 0 {
        text.append("-");
        append_padded(&mut text, (-(year as i64)) as u64, 3);
    } else {
        append_padded(&mut text, year as u64, 4);
    }
    text.append("-");
    append_padded(&mut text, month as u64, 2);
    text.append("-");
    append_padded(&mut text, day as u64, 2);
    assert(text@ =~= date_text(year, month, day));
    text
}

/// The whole days that a serial number counts from the day before the first of
/// January 1900: the serial number less one, and less two from the first of March
/// 1900 on, where spreadsheets count a 29th of February that was none; what is left
/// of a day is dropped.
pub open spec fn serial_days(serial: i64) -> int {
    let shifted = if serial > 59 * SCALE {
        serial - 2 * SCALE
    } else {
        serial - SCALE
    };
    if shifted >= 0 {
        shifted / (SCALE as int)
    } else {
        -((-shifted) / (SCALE as int))
    }
}

/// The whole days that a serial number counts.
pub fn whole_days(serial: i64) -> (days: i64)
    ensures
        days == serial_days(serial),
{
    let shifted: i128 = if serial > 59 * SCALE {
        serial as i128 - 2 * (SCALE as i128)
    } else {
        serial as i128 - (SCALE as i128)
    };
    let days: i128 = if shifted >= 0 {
        shifted / (SCALE as i128)
    } else {
        -((-shifted) / (SCALE as i128))
    };
    days as i64
}

/// The date of a serial number as text: the day that lies as many whole days as the
/// serial number counts after the 30th of December 1899. `None` where chrono holds no
/// such day.
pub open spec fn serial_date(serial: i64) -> Option<Seq<char>> {
    match day_after(1899, 12, 30, serial_days(serial) as i64) {
        Some((year, month, day)) => Some(date_text(year, month, day)),
        None => None,
    }
}

/// The date of a serial number, in millionths of a day, as text.
pub fn excel_serial_to_date(serial: i64) -> (r: Option<String>)
    ensures
        r is Some <==> serial_date(serial) is Some,
        r is Some ==> r->Some_0@ == serial_date(serial)->Some_0,
{
    match date_plus_days(1899, 12, 30, whole_days(serial)) {
        Some((year, month, day)) => Some(format_date(year, month, day)),
        None => None,
    }
}

/// A cell that holds a date, as a spreadsheet gives it.
#[derive(Debug, Clone, PartialEq, Eq)]
pub enum DateCell {
    /// A date and time, as the spreadsheet writes it out.
    DateTime(String),
    /// A date and time written as in ISO 8601.
    DateTimeIso(String),
    /// A number: a serial number in millionths of a day.
    Number(i64),
    /// A text, as it stands in the cell.
    Text(String),
    /// Any other content, as the spreadsheet writes it out.
    Other(String),
    /// No cell.
    Missing,
}

/// A date cell as a plain value.
pub enum DateCellView {
    DateTime(Seq<char>),
    DateTimeIso(Seq<char>),
    Number(i64),
    Text(Seq<char>),
    Other(Seq<char>),
    Missing,
}

impl View for DateCell {
    type V = DateCellView;

    open spec fn view(&self) -> DateCellView {
        match self {
            DateCell::DateTime(text) => DateCellView::DateTime(text@),
            DateCell::DateTimeIso(text) => DateCellView::DateTimeIso(text@),
            DateCell::Number(serial) => DateCellView::Number(*serial),
            DateCell::Text(text) => DateCellView::Text(text@),
            DateCell::Other(text) => DateCellView::Other(text@),
            DateCell::Missing => DateCellView::Missing,
        }
    }
}

/// Index of the first whitespace in `s`, or the length of `s` where it holds none.
pub open spec fn first_whitespace(s: Seq<char>) -> int
    decreases s.len(),
{
    if s.len() == 0 {
        0
    } else if is_whitespace(s[0]) {
        0
    } else {
        1 + first_whitespace(s.drop_first())
    }
}

/// The first word of `s`: what stands between its leading whitespace and the next
/// whitespace. All of `s` where it holds no word.
pub open spec fn first_word(s: Seq<char>) -> Seq<char> {
    let rest = trim_start(s);
    if rest.len() == 0 {
        s
    } else {
        rest.take(first_whitespace(rest))
    }
}

/// `text` read as a serial number where it writes a number, and else `otherwise`.
pub open spec fn serial_or(text: Seq<char>, otherwise: Seq<char>) -> Option<Seq<char>> {
    if is_decimal(text) {
        serial_date(decimal_value(text) as i64)
    } else {
        Some(otherwise)
    }
}

/// The date in a cell, as text. A number, or a text that writes a number, is a serial
/// number. Of a date and time the date is taken: the first word, or what stands
/// before the `T`. Other text is taken without whitespace at its ends; a missing cell
/// is the empty text. `None` where a serial number is beyond the dates that chrono
/// holds.
pub open spec fn date_in(cell: DateCellView) -> Option<Seq<char>> {
    match cell {
        DateCellView::DateTime(text) => serial_or(text, first_word(text)),
        DateCellView::DateTimeIso(text) => Some(text.take(first_index_of(text, 'T'))),
        DateCellView::Number(serial) => serial_date(serial),
        DateCellView::Text(text) => serial_or(text, trimmed(text)),
        DateCellView::Other(text) => serial_or(trimmed(text), trimmed(text)),
        DateCellView::Missing => Some(Seq::empty()),
    }
}

/// The first word of `text`.
fn take_first_word(text: &str) -> (word: String)
    ensures
        word@ == first_word(text@),
{
    let chars = chars_of(text);
    let n = chars.len();
    let mut start: usize = 0;
    assert(chars@.skip(0) =~= chars@);
    while start < n && char_is_whitespace(chars[start])
        invariant
            start <= n,
            n == chars@.len(),
            trim_start(chars@) == trim_start(chars@.skip(start as int)),
        decreases n - start,
    {
        assert(chars@.skip(start as int)[0] == chars@[start as int]);
        assert(chars@.skip(start as int).drop_first() =~= chars@.skip(start + 1));
        start += 1;
    }
    let ghost rest = chars@.skip(start as int);
    proof {
        if start < n {
            assert(rest[0] == chars@[start as int]);
        }
        assert(trim_start(chars@) == rest);
    }
    if start == n {
        return text.to_owned();
    }
    let mut end: usize = start;
    assert(rest.skip(0) =~= rest);
    while end < n && !char_is_whitespace(chars[end])
        invariant
            start <= end <= n,
            n == chars@.len(),
            rest == chars@.skip(start as int),
            first_whitespace(rest) == (end - start) + first_whitespace(rest.skip(end - start)),
        decreases n - end,
    {
        assert(rest.skip(end - start)[0] == chars@[end as int]);
        assert(rest.skip(end - start).drop_first() =~= rest.skip(end - start + 1));
        end += 1;
    }
    proof {
        if end < n {
            assert(rest.skip(end - start)[0] == chars@[end as int]);
        }
        assert(rest.take(end - start) =~= chars@.subrange(start as int, end as int));
    }
    text.substring_char(start, end).to_owned()
}

/// `text` read as a serial number where it writes a number, and else `otherwise`.
fn read_serial_or(text: &str, otherwise: String) -> (r: Option<String>)
    ensures
        r is Some <==> serial_or(text@, otherwise@) is Some,
        r is Some ==> r->Some_0@ == serial_or(text@, otherwise@)->Some_0,
{
    match parse_number(text) {
        Some(serial) => excel_serial_to_date(serial),
        None => Some(otherwise),
    }
}

/// The date in a cell, as text.
pub fn get_cell_date_string(cell: &DateCell) -> (r: Option<String>)
    ensures
        r is Some <==> date_in(cell@) is Some,
        r is Some ==> r->Some_0@ == date_in(cell@)->Some_0,
{
    match cell {
        DateCell::DateTime(text) => read_serial_or(text.as_str(), take_first_word(text.as_str())),
        DateCell::DateTimeIso(text) => {
            let chars = chars_of(text.as_str());
            let end = find_char(&chars, 0, 'T');
            proof {
                assert(chars@.skip(0) =~= chars@);
                assert(chars@.take(end as int) =~= chars@.subrange(0, end as int));
            }
            Some(text.as_str().substring_char(0, end).to_owned())
        },
        DateCell::Number(serial) => excel_serial_to_date(*serial),
        DateCell::Text(text) => read_serial_or(text.as_str(), trim(text.as_str())),
        DateCell::Other(text) => {
            let kept = trim(text.as_str());
            let otherwise = kept.clone();
            read_serial_or(kept.as_str(), otherwise)
        },
        DateCell::Missing => Some(String::new()),
    }
}

} // verus!
