//! Units
//!
//! Data structures representing the fundamental units used throughout the
//! library: quantities of assets, prices, assets and timestamps.

pub mod asset;
pub mod bounds;
pub mod decimal;
pub mod price;
pub mod quantity;
pub mod utc_time;

pub use asset::{Asset, BudgetAsset, DepositAsset, TaxAsset, TaxAsset2022, Underlying};
pub use quantity::{Quantity, UnknownQuantity};
pub use price::Price;
pub use utc_time::UtcTime;
