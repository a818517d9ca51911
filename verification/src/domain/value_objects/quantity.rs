use crate::error::{outcome, DomainError, DomainErrorView, ValidationError, ValidationErrorView};
use vstd::prelude::*;

verus! {

/// A quantity in millionths of a unit, never below zero.
#[derive(Debug, Clone, Copy)]
pub struct Quantity(i64);

impl View for Quantity {
    type V = int;

    closed spec fn view(&self) -> int {
        self.0 as int
    }
}

/// The quantity of `value` millionths: there is one unless `value` is below zero.
pub open spec fn quantity_of(value: i64) -> Result<int, DomainErrorView> {
    if value >= 0 {
        Ok(value as int)
    } else {
        Err(DomainErrorView::Validation(ValidationErrorView::NegativeQuantity(value)))
    }
}

impl Quantity {
    /// What holds of every quantity.
    #[verifier::type_invariant]
    pub open spec fn wf(self) -> bool {
        0 <= self@ <= i64::MAX
    }

    /// A quantity of `value` millionths; refused when `value` is below zero.
    pub fn new(value: i64) -> (r: Result<Quantity, DomainError>)
        ensures
            outcome(r) == quantity_of(value),
            r is Ok ==> r->Ok_0.wf(),
    {
        if value < 0 {
            return Err(DomainError::Validation(ValidationError::NegativeQuantity(value)));
        }
        Ok(Quantity(value))
    }

    /// The quantity in millionths.
    pub fn value(&self) -> (v: i64)
        ensures
            v == self@,
            0 <= v,
    {
        proof {
            use_type_invariant(self);
        }
        self.0
    }
}

} // verus!
