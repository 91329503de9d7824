//! A single-user trading economy for virtual goods: accounts hold a cash
//! balance, buy and sell catalog items, open randomised cases and combine ten
//! items of one rarity tier into one item of the next tier.
//!
//! Every operation works on an explicit in-memory [`db::Store`] and either
//! goes through as a whole or leaves the store as it was. Money is counted in
//! whole minor units (hundredths), so all arithmetic is exact.
//!
//! - [`models`] holds the rows, [`model`] what a store is and does as
//!   mathematics, [`db`] the store and its row operations.
//! - [`scripts`] holds the operations of the economy: buying, selling,
//!   opening a case, trading up, and handing items out and taking them back.
//! - [`rarity`] classifies rarity labels, [`seed`] fills the catalog.
//! - [`text`] and [`chance`] hold what is taken on trust from the standard
//!   library and from the `rand` crate.

pub mod chance;
pub mod db;
pub mod error;
pub mod model;
pub mod models;
pub mod rarity;
pub mod scripts;
pub mod seed;
pub mod text;
