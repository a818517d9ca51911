//! What the use cases hand to a presenter: the results of the services as plain
//! records.

pub mod dtos;

pub use self::dtos::{InventoryHistoryRecordDto, MaterialConsumptionDto, MaterialCostResultDto};
