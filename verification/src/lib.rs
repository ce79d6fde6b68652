//! A secondary-index library for a block-based, event-emitting state machine.
//!
//! Blocks carry ordered lists of decoded events; each event references
//! identifiers (account ids, numeric indices, content hashes).  The library
//! maintains one sorted key-value tree per identifier kind, keyed by the
//! composite key `identifier_bytes ++ block_be32 ++ event_index_be32`, and
//! answers point queries and subscriptions over those trees.

pub mod codec;
pub mod indexer;
pub mod pallets;
pub mod service;
pub mod shared;
pub mod store;
pub mod subs;
