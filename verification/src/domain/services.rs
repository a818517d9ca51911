//! The two domain services: material cost of a production batch, and the inventory
//! ledger.

pub mod inventory_history;
pub mod material_cost;

pub use self::inventory_history::{InventoryHistoryRecord, InventoryHistoryService};
pub use self::material_cost::{
    MaterialConsumption, MaterialCostCalculationService, MaterialCostResult,
};
