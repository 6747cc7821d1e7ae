//! A minimal fungible-token ledger: an owner, a set of minters, a total
//! supply and a table of balances, with the guarded operations that change
//! them. Every operation either applies in full or leaves the ledger as it
//! was.

pub mod balances;
pub mod ledger;
pub mod model;
pub mod types;

pub use crate::ledger::Ledger;
pub use crate::model::LedgerState;
pub use crate::types::{AccountId, Call, Error, Event};
