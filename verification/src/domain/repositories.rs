//! What the services look up, and where. The services depend on these contracts only;
//! nothing is promised of what an implementation returns. What a service returns is
//! stated over what an implementation can answer when it is asked.

use crate::domain::entities::{
    FormulaEntry, FreightMaster, InventoryTransaction, Production, Purchase,
};
use crate::domain::value_objects::ProductCode;
use crate::error::DomainError;
use vstd::prelude::*;

verus! {

/// The recipes, by product.
pub trait FormulaRepository {
    /// The recipe lines of the product, or an error where it has no recipe.
    fn find_by_product_code(&self, product_code: &ProductCode) -> Result<
        Vec<FormulaEntry>,
        DomainError,
    >;
}

/// The purchases, by material.
pub trait PurchaseRepository {
    /// The latest purchase of the material, or an error where there is none.
    fn find_latest_price(&self, product_code: &ProductCode) -> Result<Purchase, DomainError>;
}

/// The production batches.
pub trait ProductionRepository {
    /// All production batches.
    fn find_all(&self) -> Result<Vec<Production>, DomainError>;
}

/// The stock events.
pub trait InventoryTransactionRepository {
    /// All stock events.
    fn find_all_transactions(&self) -> Result<Vec<InventoryTransaction>, DomainError>;
}

/// The freight master, by freight code.
pub trait FreightMasterRepository {
    /// The entry of the freight code, or an error where there is none.
    fn find_by_code(&self, freight_code: &str) -> Result<FreightMaster, DomainError>;
}

} // verus!
