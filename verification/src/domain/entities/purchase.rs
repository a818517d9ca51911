use crate::domain::value_objects::freight_code::FreightCodeView;
use crate::domain::value_objects::{Amount, FreightCode, Quantity};
use vstd::prelude::*;

verus! {

/// The latest purchase of a material: its price per unit without freight, the
/// quantity bought, and how its freight is priced.
#[derive(Debug, Clone)]
pub struct Purchase {
    pub product_name: String,
    pub unit_price: Amount,
    pub quantity: Quantity,
    pub freight_code: FreightCode,
}

/// A purchase as plain values.
pub struct PurchaseView {
    pub product_name: Seq<char>,
    pub unit_price: int,
    pub quantity: int,
    pub freight_code: FreightCodeView,
}

impl View for Purchase {
    type V = PurchaseView;

    open spec fn view(&self) -> PurchaseView {
        PurchaseView {
            product_name: self.product_name@,
            unit_price: self.unit_price@,
            quantity: self.quantity@,
            freight_code: self.freight_code@,
        }
    }
}

impl Purchase {
    /// The purchase with these values.
    pub fn new(
        product_name: String,
        unit_price: Amount,
        quantity: Quantity,
        freight_code: FreightCode,
    ) -> (r: Purchase)
        ensures
            r == (Purchase { product_name, unit_price, quantity, freight_code }),
    {
        Purchase { product_name, unit_price, quantity, freight_code }
    }
}

} // verus!
