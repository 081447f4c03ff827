//! A non-fungible-token ownership ledger.
//!
//! The ledger keeps one row per token and one row per committed transaction
//! in stable memory, and every mutating operation is specified against a
//! mathematical model of that state (see [`model::CollectionView`]).

pub mod account;
pub mod approve;
pub mod burn;
pub mod codec;
pub mod laws;
pub mod memory;
pub mod mint;
pub mod model;
pub mod order;
pub mod query_method;
pub mod state;
pub mod store;
pub mod token;
pub mod transaction;
pub mod transfer;
pub mod types;
pub mod upgrade;
