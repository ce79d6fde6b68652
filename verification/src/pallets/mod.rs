//! Per-pallet event models and dispatch: each pallet module declares the
//! event variants the indexer understands, the identifiers each variant
//! references, and an indexing entry point that writes one record per
//! identifier.

pub mod bags_list;
pub mod balances;
pub mod claims;
pub mod collective;
pub mod system;
pub mod transaction_payment;
pub mod vesting;
