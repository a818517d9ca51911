//! Records built from value objects. They are read-only inputs of the services.

pub mod formula_entry;
pub mod freight_master;
pub mod inventory_transaction;
pub mod production;
pub mod purchase;

pub use self::formula_entry::FormulaEntry;
pub use self::freight_master::FreightMaster;
pub use self::inventory_transaction::InventoryTransaction;
pub use self::production::Production;
pub use self::purchase::Purchase;
