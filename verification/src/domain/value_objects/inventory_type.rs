use vstd::prelude::*;

verus! {

/// What kind of event moves the stock.
#[derive(Debug, Clone, Copy, PartialEq, Eq, Structural)]
pub enum InventoryType {
    /// Goods produced: stock rises.
    Production,
    /// Goods bought: stock rises.
    Purchase,
    /// Goods sold: stock falls.
    Sales,
}

impl InventoryType {
    /// The label of this kind of event as it is written in the ledger.
    pub open spec fn label(self) -> Seq<char> {
        match self {
            InventoryType::Production => "生産"@,
            InventoryType::Purchase => "仕入"@,
            InventoryType::Sales => "売上"@,
        }
    }

    /// The label of this kind of event as it is written in the ledger.
    pub fn as_str(&self) -> (s: &'static str)
        ensures
            s@ == self.label(),
    {
        match self {
            InventoryType::Production => "生産",
            InventoryType::Purchase => "仕入",
            InventoryType::Sales => "売上",
        }
    }
}

} // verus!
