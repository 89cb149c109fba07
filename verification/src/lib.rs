//! An escrow-based marketplace for trading non-fungible assets against a
//! fungible currency, written as a verified state machine.

pub mod amount;
pub mod error;
pub mod event;
pub mod identity;
pub mod keys;
pub mod laws;
pub mod ledger;
pub mod listings;
pub mod market;
pub mod offers;
pub mod registry;
pub mod table;
