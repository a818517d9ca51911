use crate::error::DomainError;
use vstd::prelude::*;

verus! {

/// A stock level in millionths of a unit. It may be negative: the stock is then short
/// by that much.
#[derive(Debug, Clone, Copy)]
pub struct InventoryBalance(i128);

impl View for InventoryBalance {
    type V = int;

    closed spec fn view(&self) -> int {
        self.0 as int
    }
}

impl InventoryBalance {
    /// A balance of `value` millionths. Every number is accepted.
    pub fn new(value: i128) -> (r: Result<InventoryBalance, DomainError>)
        ensures
            r is Ok,
            r->Ok_0@ == value,
    {
        Ok(InventoryBalance(value))
    }

    /// The balance in millionths.
    pub fn value(&self) -> (v: i128)
        ensures
            v == self@,
    {
        self.0
    }
}

} // verus!
