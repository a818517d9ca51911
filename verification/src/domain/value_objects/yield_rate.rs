use crate::error::{outcome, DomainError, DomainErrorView, ValidationError, ValidationErrorView};
use crate::fixed_point::SCALE;
use vstd::prelude::*;

verus! {

/// The share of raw material cost that remains after process loss, in millionths:
/// between zero and one, both included.
#[derive(Debug, Clone, Copy)]
pub struct YieldRate(i64);

impl View for YieldRate {
    type V = int;

    closed spec fn view(&self) -> int {
        self.0 as int
    }
}

/// The yield rate of `value` millionths: there is one exactly when `value` lies
/// between zero and one, both included.
pub open spec fn yield_rate_of(value: i64) -> Result<int, DomainErrorView> {
    if 0 <= value <= SCALE {
        Ok(value as int)
    } else {
        Err(DomainErrorView::Validation(ValidationErrorView::YieldRateOutOfRange(value)))
    }
}

impl YieldRate {
    /// What holds of every yield rate.
    #[verifier::type_invariant]
    pub open spec fn wf(self) -> bool {
        0 <= self@ <= SCALE
    }

    /// A yield rate of `value` millionths; accepted exactly when `value` lies between
    /// zero and one.
    pub fn new(value: i64) -> (r: Result<YieldRate, DomainError>)
        ensures
            outcome(r) == yield_rate_of(value),
            r is Ok ==> r->Ok_0.wf(),
    {
        if value < 0 || value > SCALE {
            return Err(DomainError::Validation(ValidationError::YieldRateOutOfRange(value)));
        }
        Ok(YieldRate(value))
    }

    /// The rate in millionths.
    pub fn value(&self) -> (v: i64)
        ensures
            v == self@,
            0 <= v <= SCALE,
    {
        proof {
            use_type_invariant(self);
        }
        self.0
    }
}

} // verus!
