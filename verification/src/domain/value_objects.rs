//! Validated scalars. Each is checked once, at construction, and cannot change after.

pub mod amount;
pub mod consumption_ratio;
pub mod freight_code;
pub mod inventory_balance;
pub mod inventory_type;
pub mod pattern_name;
pub mod product_code;
pub mod quantity;
pub mod transaction_date;
pub mod yield_rate;

pub use self::amount::Amount;
pub use self::consumption_ratio::ConsumptionRatio;
pub use self::freight_code::FreightCode;
pub use self::inventory_balance::InventoryBalance;
pub use self::inventory_type::InventoryType;
pub use self::pattern_name::PatternName;
pub use self::product_code::ProductCode;
pub use self::quantity::Quantity;
pub use self::transaction_date::TransactionDate;
pub use self::yield_rate::YieldRate;
