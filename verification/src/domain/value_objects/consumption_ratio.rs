use crate::error::{outcome, DomainError, DomainErrorView, ValidationError, ValidationErrorView};
use vstd::prelude::*;

verus! {

/// The share of a production quantity that is consumed as one material, in
/// millionths. Never below zero; may exceed one.
#[derive(Debug, Clone, Copy)]
pub struct ConsumptionRatio(i64);

impl View for ConsumptionRatio {
    type V = int;

    closed spec fn view(&self) -> int {
        self.0 as int
    }
}

/// The consumption ratio of `value` millionths: there is one unless `value` is below
/// zero.
pub open spec fn consumption_ratio_of(value: i64) -> Result<int, DomainErrorView> {
    if value >= 0 {
        Ok(value as int)
    } else {
        Err(DomainErrorView::Validation(ValidationErrorView::NegativeConsumptionRatio(value)))
    }
}

impl ConsumptionRatio {
    /// What holds of every consumption ratio.
    #[verifier::type_invariant]
    pub open spec fn wf(self) -> bool {
        0 <= self@ <= i64::MAX
    }

    /// A ratio of `value` millionths; refused when `value` is below zero.
    pub fn new(value: i64) -> (r: Result<ConsumptionRatio, DomainError>)
        ensures
            outcome(r) == consumption_ratio_of(value),
            r is Ok ==> r->Ok_0.wf(),
    {
        if value < 0 {
            return Err(DomainError::Validation(ValidationError::NegativeConsumptionRatio(value)));
        }
        Ok(ConsumptionRatio(value))
    }

    /// The ratio in millionths.
    pub fn value(&self) -> (v: i64)
        ensures
            v == self@,
            0 <= v,
    {
        proof {
            use_type_invariant(self);
        }
        self.0
    }
}

} // verus!
