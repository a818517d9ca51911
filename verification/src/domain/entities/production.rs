use crate::domain::value_objects::{Amount, ProductCode, Quantity, YieldRate};
use vstd::prelude::*;

verus! {

/// One production batch.
#[derive(Debug, Clone)]
pub struct Production {
    pub product_code: ProductCode,
    pub quantity: Quantity,
    pub yield_rate: YieldRate,
    pub coagulant_cost: Amount,
    pub clay_treatment_cost: Amount,
}

/// A production batch as plain values.
pub struct ProductionView {
    pub product_code: Seq<char>,
    pub quantity: int,
    pub yield_rate: int,
    pub coagulant_cost: int,
    pub clay_treatment_cost: int,
}

impl View for Production {
    type V = ProductionView;

    open spec fn view(&self) -> ProductionView {
        ProductionView {
            product_code: self.product_code@,
            quantity: self.quantity@,
            yield_rate: self.yield_rate@,
            coagulant_cost: self.coagulant_cost@,
            clay_treatment_cost: self.clay_treatment_cost@,
        }
    }
}

impl Production {
    /// The batch with these values.
    pub fn new(
        product_code: ProductCode,
        quantity: Quantity,
        yield_rate: YieldRate,
        coagulant_cost: Amount,
        clay_treatment_cost: Amount,
    ) -> (r: Production)
        ensures
            r == (Production {
                product_code,
                quantity,
                yield_rate,
                coagulant_cost,
                clay_treatment_cost,
            }),
    {
        Production { product_code, quantity, yield_rate, coagulant_cost, clay_treatment_cost }
    }
}

} // verus!
