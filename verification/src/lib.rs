//! State-transition core of a vending-machine ledger: a keyed balance store,
//! a keyed beverage catalog, and an admin-gated set of operations over them.

pub mod catalog;
pub mod contract;
pub mod error;
pub mod ledger;
pub mod msg;
pub mod state;
pub mod store;

pub use crate::error::ContractError;
