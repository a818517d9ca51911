//! What can go wrong: a value that may not be constructed, or a record that a
//! repository does not hold.

use vstd::prelude::*;

verus! {

/// Why a value was refused at construction.
#[derive(Debug, Clone, PartialEq, Eq)]
pub enum ValidationError {
    /// A product code that is empty once trimmed.
    EmptyProductCode,
    /// A pattern name that is empty once trimmed.
    EmptyPatternName,
    /// A quantity below zero, with the number given.
    NegativeQuantity(i64),
    /// An amount below zero, with the number given.
    NegativeAmount(i64),
    /// A yield rate outside 0..=1, with the number given.
    YieldRateOutOfRange(i64),
    /// A consumption ratio below zero, with the number given.
    NegativeConsumptionRatio(i64),
    /// A date that is empty once trimmed.
    EmptyDate,
    /// A date that is not a calendar day written year, month, day; with the trimmed text.
    InvalidDate(String),
    /// A freight code that is empty once trimmed.
    EmptyFreightCode,
    /// A freight price below zero, with the trimmed text.
    NegativeFreightPrice(String),
    /// Neither a price nor `T` and four digits, with the text.
    InvalidFreightCode(String),
    /// Column headers that a sheet must have and does not, in the order required.
    MissingColumns(Vec<String>),
}

/// A validation error as a plain value.
pub enum ValidationErrorView {
    EmptyProductCode,
    EmptyPatternName,
    NegativeQuantity(i64),
    NegativeAmount(i64),
    YieldRateOutOfRange(i64),
    NegativeConsumptionRatio(i64),
    EmptyDate,
    InvalidDate(Seq<char>),
    EmptyFreightCode,
    NegativeFreightPrice(Seq<char>),
    InvalidFreightCode(Seq<char>),
    MissingColumns(Seq<Seq<char>>),
}

impl View for ValidationError {
    type V = ValidationErrorView;

    open spec fn view(&self) -> ValidationErrorView {
        match self {
            ValidationError::EmptyProductCode => ValidationErrorView::EmptyProductCode,
            ValidationError::EmptyPatternName => ValidationErrorView::EmptyPatternName,
            ValidationError::NegativeQuantity(n) => ValidationErrorView::NegativeQuantity(*n),
            ValidationError::NegativeAmount(n) => ValidationErrorView::NegativeAmount(*n),
            ValidationError::YieldRateOutOfRange(n) => ValidationErrorView::YieldRateOutOfRange(*n),
            ValidationError::NegativeConsumptionRatio(n) => {
                ValidationErrorView::NegativeConsumptionRatio(*n)
            },
            ValidationError::EmptyDate => ValidationErrorView::EmptyDate,
            ValidationError::InvalidDate(text) => ValidationErrorView::InvalidDate(text@),
            ValidationError::EmptyFreightCode => ValidationErrorView::EmptyFreightCode,
            ValidationError::NegativeFreightPrice(text) => {
                ValidationErrorView::NegativeFreightPrice(text@)
            },
            ValidationError::InvalidFreightCode(text) => ValidationErrorView::InvalidFreightCode(
                text@,
            ),
            ValidationError::MissingColumns(names) => ValidationErrorView::MissingColumns(
                names@.map_values(|name: String| name@),
            ),
        }
    }
}

/// Which lookup found nothing, with the key that was looked up.
#[derive(Debug, Clone, PartialEq, Eq)]
pub enum NotFoundError {
    /// No recipe for this product code.
    Formula(String),
    /// No purchase record for this material code.
    Purchase(String),
    /// No freight master entry for this freight code.
    FreightMaster(String),
}

/// A failed lookup as a plain value.
pub enum NotFoundErrorView {
    Formula(Seq<char>),
    Purchase(Seq<char>),
    FreightMaster(Seq<char>),
}

impl View for NotFoundError {
    type V = NotFoundErrorView;

    open spec fn view(&self) -> NotFoundErrorView {
        match self {
            NotFoundError::Formula(key) => NotFoundErrorView::Formula(key@),
            NotFoundError::Purchase(key) => NotFoundErrorView::Purchase(key@),
            NotFoundError::FreightMaster(key) => NotFoundErrorView::FreightMaster(key@),
        }
    }
}

/// An error of the domain layer.
#[derive(Debug, Clone, PartialEq, Eq)]
pub enum DomainError {
    Validation(ValidationError),
    NotFound(NotFoundError),
}

/// An error of the domain layer as a plain value.
pub enum DomainErrorView {
    Validation(ValidationErrorView),
    NotFound(NotFoundErrorView),
}

impl View for DomainError {
    type V = DomainErrorView;

    open spec fn view(&self) -> DomainErrorView {
        match self {
            DomainError::Validation(error) => DomainErrorView::Validation(error@),
            DomainError::NotFound(error) => DomainErrorView::NotFound(error@),
        }
    }
}

/// A result of the domain layer as a plain value: the view of what came back.
pub open spec fn outcome<T: View>(result: Result<T, DomainError>) -> Result<T::V, DomainErrorView> {
    match result {
        Ok(value) => Ok(value@),
        Err(error) => Err(error@),
    }
}

} // verus!
