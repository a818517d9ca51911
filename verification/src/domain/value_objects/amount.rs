use crate::error::{outcome, DomainError, DomainErrorView, ValidationError, ValidationErrorView};
use crate::fixed_point::{
    add_saturating, divide_saturating, multiply_saturating, saturate, scaled_product,
    scaled_quotient,
};
use vstd::prelude::*;

verus! {

/// An amount of money in millionths of the currency unit, never below zero.
#[derive(Debug, Clone, Copy)]
pub struct Amount(i64);

impl View for Amount {
    type V = int;

    closed spec fn view(&self) -> int {
        self.0 as int
    }
}

/// The amount of `value` millionths: there is one unless `value` is below zero.
pub open spec fn amount_of(value: i64) -> Result<int, DomainErrorView> {
    if value >= 0 {
        Ok(value as int)
    } else {
        Err(DomainErrorView::Validation(ValidationErrorView::NegativeAmount(value)))
    }
}

impl Amount {
    /// What holds of every amount.
    #[verifier::type_invariant]
    pub open spec fn wf(self) -> bool {
        0 <= self@ <= i64::MAX
    }

    /// An amount of `value` millionths; refused when `value` is below zero.
    pub fn new(value: i64) -> (r: Result<Amount, DomainError>)
        ensures
            outcome(r) == amount_of(value),
            r is Ok ==> r->Ok_0.wf(),
    {
        if value < 0 {
            return Err(DomainError::Validation(ValidationError::NegativeAmount(value)));
        }
        Ok(Amount(value))
    }

    /// The amount of nothing.
    pub fn zero() -> (r: Amount)
        ensures
            r@ == 0,
            r.wf(),
    {
        Amount(0)
    }

    /// The amount in millionths.
    pub fn value(&self) -> (v: i64)
        ensures
            v == self@,
            0 <= v,
    {
        proof {
            use_type_invariant(self);
        }
        self.0
    }

    /// The sum of two amounts, capped at the largest amount.
    pub fn add(&self, other: &Amount) -> (r: Amount)
        ensures
            r@ == saturate(self@ + other@),
            r.wf(),
    {
        proof {
            use_type_invariant(self);
            use_type_invariant(other);
        }
        Amount(add_saturating(self.0, other.0))
    }

    /// This amount times `ratio` millionths, rounded down and capped at the largest
    /// amount.
    pub fn multiply(&self, ratio: i64) -> (r: Amount)
        requires
            0 <= ratio,
        ensures
            r@ == saturate(scaled_product(self@, ratio as int)),
            r.wf(),
    {
        proof {
            use_type_invariant(self);
        }
        Amount(multiply_saturating(self.0, ratio))
    }

    /// This amount divided by `divisor` millionths, rounded down and capped at the
    /// largest amount.
    pub fn divide_by(&self, divisor: i64) -> (r: Amount)
        requires
            0 < divisor,
        ensures
            r@ == saturate(scaled_quotient(self@, divisor as int)),
            r.wf(),
    {
        proof {
            use_type_invariant(self);
        }
        Amount(divide_saturating(self.0, divisor))
    }
}

} // verus!
