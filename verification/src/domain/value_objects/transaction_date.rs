use crate::error::{outcome, DomainError, DomainErrorView, ValidationError, ValidationErrorView};
use crate::text::{
    all_digits, char_is_digit, chars_of, digits_to_number, digits_value, find_char,
    first_index_of, is_digit, is_trimmed, lemma_first_index_of, lemma_lex_trichotomy, lex_less,
    lemma_lex_transitive, lex_order, trim, trimmed,
};
use std::cmp::Ordering;
use vstd::prelude::*;

verus! {

/// Whether `year` has a 29th of February.
pub open spec fn is_leap_year(year: int) -> bool {
    (year % 4 == 0 && year % 100 != 0) || year % 400 == 0
}

/// The number of days of `month` in `year`.
pub open spec fn days_in_month(year: int, month: int) -> int {
    if month == 2 {
        if is_leap_year(year) {
            29
        } else {
            28
        }
    } else if month == 4 || month == 6 || month == 9 || month == 11 {
        30
    } else {
        31
    }
}

/// Whether the three numbers name a day of the calendar between the years 1900 and
/// 2100.
pub open spec fn is_calendar_day(year: int, month: int, day: int) -> bool {
    &&& 1900 <= year <= 2100
    &&& 1 <= month <= 12
    &&& 1 <= day <= days_in_month(year, month)
}

/// The character that separates the parts of the date `s`: the first of `-`, `/` and
/// `.` that occurs in `s` at all.
pub open spec fn date_separator(s: Seq<char>) -> Option<char> {
    if s.contains('-') {
        Some('-')
    } else if s.contains('/') {
        Some('/')
    } else if s.contains('.') {
        Some('.')
    } else {
        None
    }
}

/// Whether `s` writes a number: an optional `+`, then one digit or more.
pub open spec fn is_number(s: Seq<char>) -> bool {
    let digits = number_digits(s);
    digits.len() > 0 && all_digits(digits)
}

/// The digits of the number `s`, without its sign.
pub open spec fn number_digits(s: Seq<char>) -> Seq<char> {
    if s.len() > 0 && s[0] == '+' {
        s.drop_first()
    } else {
        s
    }
}

/// A day of the calendar.
pub struct CalendarDay {
    pub year: int,
    pub month: int,
    pub day: int,
}

/// The three parts of a date as they are written.
pub struct DateParts {
    pub year: Seq<char>,
    pub month: Seq<char>,
    pub day: Seq<char>,
}

/// The parts of the text `s` around its separator, if the separator occurs in `s`
/// exactly twice.
pub open spec fn date_parts(s: Seq<char>) -> Option<DateParts> {
    match date_separator(s) {
        None => None,
        Some(sep) => {
            let i = first_index_of(s, sep);
            let after_year = s.skip(i + 1);
            let j = first_index_of(after_year, sep);
            let day = after_year.skip(j + 1);
            if j < after_year.len() && !day.contains(sep) {
                Some(DateParts { year: s.take(i), month: after_year.take(j), day })
            } else {
                None
            }
        },
    }
}

/// The day that the text `s` names, if it names one: three numbers for year, month
/// and day, with the separator of `s` between them and nowhere else, that make a day
/// of the calendar.
pub open spec fn parse_date(s: Seq<char>) -> Option<CalendarDay> {
    match date_parts(s) {
        None => None,
        Some(parts) => {
            let day = CalendarDay {
                year: digits_value(number_digits(parts.year)) as int,
                month: digits_value(number_digits(parts.month)) as int,
                day: digits_value(number_digits(parts.day)) as int,
            };
            if is_number(parts.year) && is_number(parts.month) && is_number(parts.day)
                && is_calendar_day(day.year, day.month, day.day) {
                Some(day)
            } else {
                None
            }
        },
    }
}

/// Whether day `a` is earlier in the calendar than day `b`.
pub open spec fn day_before(a: CalendarDay, b: CalendarDay) -> bool {
    a.year < b.year || (a.year == b.year && (a.month < b.month || (a.month == b.month && a.day
        < b.day)))
}

/// The date that `text` writes: `text` without whitespace at its ends, where that
/// names a day of the calendar.
pub open spec fn transaction_date_of(text: Seq<char>) -> Result<Seq<char>, DomainErrorView> {
    if trimmed(text).len() == 0 {
        Err(DomainErrorView::Validation(ValidationErrorView::EmptyDate))
    } else if parse_date(trimmed(text)) is None {
        Err(DomainErrorView::Validation(ValidationErrorView::InvalidDate(trimmed(text))))
    } else {
        Ok(trimmed(text))
    }
}

/// Whether the date written `a` comes before the date written `b`: it names the
/// earlier day, or the same day and is the text that comes first in lexical order.
pub open spec fn date_precedes(a: Seq<char>, b: Seq<char>) -> bool {
    let day_a = parse_date(a)->Some_0;
    let day_b = parse_date(b)->Some_0;
    day_before(day_a, day_b) || (day_a == day_b && lex_less(a, b))
}

/// The order of dates is a strict total order: no date comes before itself, of two
/// different dates exactly one comes before the other, and a date that comes before a
/// second that comes before a third comes before the third.
pub proof fn lemma_date_order(a: Seq<char>, b: Seq<char>, c: Seq<char>)
    ensures
        !date_precedes(a, a),
        date_precedes(a, b) || a == b || date_precedes(b, a),
        !(date_precedes(a, b) && date_precedes(b, a)),
        date_precedes(a, b) && date_precedes(b, c) ==> date_precedes(a, c),
{
    lemma_lex_trichotomy(a, a);
    lemma_lex_trichotomy(a, b);
    if lex_less(a, b) && lex_less(b, c) {
        lemma_lex_transitive(a, b, c);
    }
}

/// The number that `chars[start..end]` writes, if it writes one that is at most
/// `limit`.
fn parse_number(chars: &Vec<char>, start: usize, end: usize, limit: u64) -> (r: Option<u64>)
    requires
        start <= end <= chars@.len(),
        limit <= 1_000_000,
    ensures
        r is Some <==> is_number(chars@.subrange(start as int, end as int)) && digits_value(
            number_digits(chars@.subrange(start as int, end as int)),
        ) <= limit,
        r is Some ==> r->Some_0 == digits_value(
            number_digits(chars@.subrange(start as int, end as int)),
        ),
{
    let ghost text = chars@.subrange(start as int, end as int);
    let from: usize = if start < end && chars[start] == '+' {
        start + 1
    } else {
        start
    };
    proof {
        if start < end {
            assert(text[0] == chars@[start as int]);
        }
        assert(number_digits(text) =~= chars@.subrange(from as int, end as int));
    }
    if from == end {
        return None;
    }
    let ghost digits = chars@.subrange(from as int, end as int);
    let mut i: usize = from;
    while i < end
        invariant
            from <= i <= end <= chars@.len(),
            start <= from,
            text == chars@.subrange(start as int, end as int),
            digits == chars@.subrange(from as int, end as int),
            digits == number_digits(text),
            forall|k: int| 0 <= k < i - from ==> is_digit(#[trigger] digits[k]),
        decreases end - i,
    {
        if !char_is_digit(chars[i]) {
            assert(digits[i - from] == chars@[i as int]);
            assert(!all_digits(digits));
            return None;
        }
        assert(digits[i - from] == chars@[i as int]);
        i += 1;
    }
    let value = digits_to_number(chars, from, end, limit);
    if value > limit {
        None
    } else {
        Some(value)
    }
}

/// Where the two separators of the date `chars` stand, if its separator occurs in it
/// exactly twice.
fn locate_separators(chars: &Vec<char>) -> (r: Option<(usize, usize)>)
    ensures
        r is Some <==> date_parts(chars@) is Some,
        r matches Some((i, j)) ==> i < j < chars@.len() && date_parts(chars@) == Some(
            DateParts {
                year: chars@.subrange(0, i as int),
                month: chars@.subrange(i + 1, j as int),
                day: chars@.subrange(j + 1, chars@.len() as int),
            },
        ),
{
    let n = chars.len();
    proof {
        lemma_first_index_of(chars@, '-');
        lemma_first_index_of(chars@, '/');
        lemma_first_index_of(chars@, '.');
        assert(chars@.skip(0) =~= chars@);
    }
    let separator: char = if find_char(chars, 0, '-') < n {
        '-'
    } else if find_char(chars, 0, '/') < n {
        '/'
    } else if find_char(chars, 0, '.') < n {
        '.'
    } else {
        return None;
    };
    assert(date_separator(chars@) == Some(separator));
    let i = find_char(chars, 0, separator);
    let ghost after_year = chars@.skip(i + 1);
    let j = find_char(chars, i + 1, separator);
    proof {
        lemma_first_index_of(chars@, separator);
        lemma_first_index_of(after_year, separator);
    }
    if j >= n {
        return None;
    }
    let ghost day = after_year.skip(j - i);
    let k = find_char(chars, j + 1, separator);
    proof {
        assert(day =~= chars@.skip(j + 1));
        lemma_first_index_of(day, separator);
    }
    if k < n {
        return None;
    }
    proof {
        assert(chars@.take(i as int) =~= chars@.subrange(0, i as int));
        assert(after_year.take(j - i - 1) =~= chars@.subrange(i + 1, j as int));
        assert(day =~= chars@.subrange(j + 1, n as int));
    }
    Some((i, j))
}

/// A day of the calendar as it was written: year, month and day, separated by `-`,
/// `/` or `.`. Days are ordered by the calendar; the same day written in two ways is
/// ordered by the texts.
#[derive(Debug)]
pub struct TransactionDate {
    year: u32,
    month: u32,
    day: u32,
    text: String,
}

impl View for TransactionDate {
    type V = Seq<char>;

    closed spec fn view(&self) -> Seq<char> {
        self.text@
    }
}

impl Clone for TransactionDate {
    fn clone(&self) -> (r: Self)
        ensures
            r@ == self@,
    {
        proof {
            use_type_invariant(self);
        }
        TransactionDate {
            year: self.year,
            month: self.month,
            day: self.day,
            text: self.text.clone(),
        }
    }
}

impl PartialEq for TransactionDate {
    fn eq(&self, other: &Self) -> (r: bool) {
        self.order(other) == 0
    }
}

impl vstd::std_specs::cmp::PartialEqSpecImpl for TransactionDate {
    open spec fn obeys_eq_spec() -> bool {
        true
    }

    open spec fn eq_spec(&self, other: &Self) -> bool {
        self@ == other@
    }
}

impl Eq for TransactionDate {

}

impl PartialOrd for TransactionDate {
    fn partial_cmp(&self, other: &Self) -> (r: Option<Ordering>) {
        let order = self.order(other);
        if order < 0 {
            Some(Ordering::Less)
        } else if order == 0 {
            Some(Ordering::Equal)
        } else {
            Some(Ordering::Greater)
        }
    }
}

impl vstd::std_specs::cmp::PartialOrdSpecImpl for TransactionDate {
    open spec fn obeys_partial_cmp_spec() -> bool {
        true
    }

    open spec fn partial_cmp_spec(&self, other: &Self) -> Option<Ordering> {
        if self.precedes(*other) {
            Some(Ordering::Less)
        } else if self@ == other@ {
            Some(Ordering::Equal)
        } else {
            Some(Ordering::Greater)
        }
    }
}

impl TransactionDate {
    /// What holds of every date: its text names the day of the calendar that is held
    /// beside it.
    #[verifier::type_invariant]
    closed spec fn inv(self) -> bool {
        &&& parse_date(self.text@) == Some(
            CalendarDay { year: self.year as int, month: self.month as int, day: self.day as int },
        )
        &&& self.text@.len() > 0
        &&& is_trimmed(self.text@)
    }

    /// What holds of every date: its text names a day of the calendar and has no
    /// whitespace at its ends.
    pub open spec fn wf(self) -> bool {
        parse_date(self@) is Some && self@.len() > 0 && is_trimmed(self@)
    }

    /// The day of the calendar that this date names.
    pub open spec fn calendar_day(self) -> CalendarDay {
        parse_date(self@)->Some_0
    }

    /// Whether this date comes before `other`: it is the earlier day, or the same day
    /// with the text that comes first in lexical order.
    pub open spec fn precedes(self, other: TransactionDate) -> bool {
        date_precedes(self@, other@)
    }

    /// The date that `date` writes, whitespace at its ends left out; refused when
    /// nothing else is left or when what is left names no day of the calendar.
    pub fn new(date: String) -> (r: Result<TransactionDate, DomainError>)
        ensures
            outcome(r) == transaction_date_of(date@),
            r is Ok ==> r->Ok_0.wf(),
    {
        let text = trim(date.as_str());
        if text.as_str().unicode_len() == 0 {
            proof {
                lemma_first_index_of(text@, '-');
                lemma_first_index_of(text@, '/');
                lemma_first_index_of(text@, '.');
            }
            return Err(DomainError::Validation(ValidationError::EmptyDate));
        }
        match Self::read_calendar_day(text.as_str()) {
            None => Err(DomainError::Validation(ValidationError::InvalidDate(text))),
            Some((year, month, day)) => {
                let date = TransactionDate { year, month, day, text };
                assert(date.wf());
                Ok(date)
            },
        }
    }

    /// Year, month and day of the day that `date_str` names, if it names one.
    fn read_calendar_day(date_str: &str) -> (r: Option<(u32, u32, u32)>)
        ensures
            r is Some <==> parse_date(date_str@) is Some,
            r matches Some((year, month, day)) ==> parse_date(date_str@) == Some(
                CalendarDay { year: year as int, month: month as int, day: day as int },
            ),
    {
        let chars = chars_of(date_str);
        let n = chars.len();
        let (i, j) = match locate_separators(&chars) {
            None => { return None; },
            Some(found) => found,
        };
        let year = match parse_number(&chars, 0, i, 2100) {
            None => { return None; },
            Some(year) => year,
        };
        let month = match parse_number(&chars, i + 1, j, 12) {
            None => { return None; },
            Some(month) => month,
        };
        let day = match parse_number(&chars, j + 1, n, 31) {
            None => { return None; },
            Some(day) => day,
        };
        if year < 1900 || month < 1 || day < 1 {
            return None;
        }
        let leap = (year % 4 == 0 && year % 100 != 0) || year % 400 == 0;
        let last_day: u64 = if month == 2 {
            if leap {
                29
            } else {
                28
            }
        } else if month == 4 || month == 6 || month == 9 || month == 11 {
            30
        } else {
            31
        };
        if day > last_day {
            return None;
        }
        Some((year as u32, month as u32, day as u32))
    }

    /// Whether `date_str` names a day of the calendar.
    pub fn is_valid_date_format(date_str: &str) -> (r: bool)
        ensures
            r == parse_date(date_str@) is Some,
    {
        Self::read_calendar_day(date_str).is_some()
    }

    /// The date as it was written.
    pub fn value(&self) -> (s: &str)
        ensures
            s@ == self@,
            self.wf(),
    {
        proof {
            use_type_invariant(self);
        }
        self.text.as_str()
    }

    /// How this date and `other` stand in order: -1 where this date comes first, 0
    /// where they are the same, 1 where `other` comes first.
    pub fn order(&self, other: &TransactionDate) -> (r: i8)
        ensures
            r == -1 <==> self.precedes(*other),
            r == 0 <==> self@ == other@,
            r == 1 <==> other.precedes(*self),
            -1 <= r <= 1,
    {
        proof {
            use_type_invariant(self);
            use_type_invariant(other);
            lemma_lex_trichotomy(self@, other@);
        }
        if self.year != other.year {
            return if self.year < other.year {
                -1
            } else {
                1
            };
        }
        if self.month != other.month {
            return if self.month < other.month {
                -1
            } else {
                1
            };
        }
        if self.day != other.day {
            return if self.day < other.day {
                -1
            } else {
                1
            };
        }
        let a = chars_of(self.text.as_str());
        let b = chars_of(other.text.as_str());
        lex_order(&a, &b)
    }
}

} // verus!
