//! The operations of the economy, each composed from the store's operations.

pub mod buy;
pub mod inventory;
pub mod open_skins;
pub mod sell;
pub mod tradeup;
