use crate::error::{outcome, DomainError, DomainErrorView, ValidationError, ValidationErrorView};
use crate::fixed_point::{decimal_magnitude, is_decimal, is_negative_decimal, parse_decimal};
use crate::text::{all_digits, char_is_digit, chars_of, is_digit, trim, trimmed};
use vstd::prelude::*;

verus! {

/// Whether `s` is a code of the freight master: `T` and four digits.
pub open spec fn is_master_code(s: Seq<char>) -> bool {
    s.len() == 5 && s[0] == 'T' && all_digits(s.skip(1))
}

/// Whether `chars` is a code of the freight master.
pub fn check_master_code(chars: &Vec<char>) -> (r: bool)
    ensures
        r == is_master_code(chars@),
{
    if chars.len() != 5 || chars[0] != 'T' {
        return false;
    }
    let ghost digits = chars@.skip(1);
    let mut i: usize = 1;
    while i < 5
        invariant
            1 <= i <= 5,
            chars@.len() == 5,
            digits == chars@.skip(1),
            forall|k: int| 0 <= k < i - 1 ==> is_digit(#[trigger] digits[k]),
        decreases 5 - i,
    {
        assert(digits[i - 1] == chars@[i as int]);
        if !char_is_digit(chars[i]) {
            return false;
        }
        i += 1;
    }
    true
}

/// How the freight of a purchase is priced: by a code of the freight master, or by a
/// price per kilogram given directly, in millionths.
#[derive(Debug, Clone)]
pub enum FreightCode {
    Code(String),
    DirectPrice(i64),
}

/// A freight code as a plain value.
pub enum FreightCodeView {
    Code(Seq<char>),
    DirectPrice(int),
}

impl View for FreightCode {
    type V = FreightCodeView;

    open spec fn view(&self) -> FreightCodeView {
        match self {
            FreightCode::Code(code) => FreightCodeView::Code(code@),
            FreightCode::DirectPrice(price) => FreightCodeView::DirectPrice(*price as int),
        }
    }
}

/// The freight code that `text` writes, whitespace at its ends left out: a decimal
/// number is a direct price and must not be below zero; anything else must be a code
/// of the freight master.
pub open spec fn freight_code_of(text: Seq<char>) -> Result<FreightCodeView, DomainErrorView> {
    let kept = trimmed(text);
    if kept.len() == 0 {
        Err(DomainErrorView::Validation(ValidationErrorView::EmptyFreightCode))
    } else if is_decimal(kept) {
        if is_negative_decimal(kept) {
            Err(DomainErrorView::Validation(ValidationErrorView::NegativeFreightPrice(kept)))
        } else {
            Ok(FreightCodeView::DirectPrice(decimal_magnitude(kept)))
        }
    } else if is_master_code(kept) {
        Ok(FreightCodeView::Code(kept))
    } else {
        Err(DomainErrorView::Validation(ValidationErrorView::InvalidFreightCode(kept)))
    }
}

impl FreightCode {
    /// The freight code that `value` writes, whitespace at its ends left out. A
    /// decimal number is a direct price, refused when below zero; any other text must
    /// be `T` and four digits.
    pub fn new(value: String) -> (r: Result<FreightCode, DomainError>)
        ensures
            outcome(r) == freight_code_of(value@),
    {
        let text = trim(value.as_str());
        let chars = chars_of(text.as_str());
        if chars.len() == 0 {
            return Err(DomainError::Validation(ValidationError::EmptyFreightCode));
        }
        match parse_decimal(&chars) {
            Some(price) => {
                if price < 0 {
                    Err(DomainError::Validation(ValidationError::NegativeFreightPrice(text)))
                } else {
                    Ok(FreightCode::DirectPrice(price))
                }
            },
            None => {
                if check_master_code(&chars) {
                    Ok(FreightCode::Code(text))
                } else {
                    Err(DomainError::Validation(ValidationError::InvalidFreightCode(text)))
                }
            },
        }
    }

    /// Whether this is a code of the freight master.
    pub fn is_code(&self) -> (r: bool)
        ensures
            r == (self@ is Code),
    {
        match self {
            FreightCode::Code(_) => true,
            FreightCode::DirectPrice(_) => false,
        }
    }

    /// Whether this is a price given directly.
    pub fn is_direct_price(&self) -> (r: bool)
        ensures
            r == (self@ is DirectPrice),
    {
        match self {
            FreightCode::Code(_) => false,
            FreightCode::DirectPrice(_) => true,
        }
    }

    /// The code of the freight master, where this is one.
    pub fn as_code(&self) -> (r: Option<&str>)
        ensures
            match self@ {
                FreightCodeView::Code(code) => r is Some && r->Some_0@ == code,
                FreightCodeView::DirectPrice(_) => r is None,
            },
    {
        match self {
            FreightCode::Code(code) => Some(code.as_str()),
            FreightCode::DirectPrice(_) => None,
        }
    }

    /// The price per kilogram in millionths, where this is a price given directly.
    pub fn as_direct_price(&self) -> (r: Option<i64>)
        ensures
            match self@ {
                FreightCodeView::Code(_) => r is None,
                FreightCodeView::DirectPrice(price) => r is Some && r->Some_0 == price,
            },
    {
        match self {
            FreightCode::Code(_) => None,
            FreightCode::DirectPrice(price) => Some(*price),
        }
    }
}

} // verus!
