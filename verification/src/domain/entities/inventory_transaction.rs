use crate::domain::value_objects::{InventoryType, ProductCode, Quantity, TransactionDate};
use vstd::prelude::*;

verus! {

/// One event that moves the stock of a product.
#[derive(Debug, Clone)]
pub struct InventoryTransaction {
    pub date: TransactionDate,
    pub inventory_type: InventoryType,
    pub product_code: ProductCode,
    pub product_name: String,
    pub quantity: Quantity,
}

/// A stock event as plain values.
pub struct InventoryTransactionView {
    pub date: Seq<char>,
    pub inventory_type: InventoryType,
    pub product_code: Seq<char>,
    pub product_name: Seq<char>,
    pub quantity: int,
}

impl View for InventoryTransaction {
    type V = InventoryTransactionView;

    open spec fn view(&self) -> InventoryTransactionView {
        InventoryTransactionView {
            date: self.date@,
            inventory_type: self.inventory_type,
            product_code: self.product_code@,
            product_name: self.product_name@,
            quantity: self.quantity@,
        }
    }
}

impl InventoryTransaction {
    /// The event with these values.
    pub fn new(
        date: TransactionDate,
        inventory_type: InventoryType,
        product_code: ProductCode,
        product_name: String,
        quantity: Quantity,
    ) -> (r: InventoryTransaction)
        ensures
            r == (InventoryTransaction {
                date,
                inventory_type,
                product_code,
                product_name,
                quantity,
            }),
    {
        InventoryTransaction { date, inventory_type, product_code, product_name, quantity }
    }
}

} // verus!
