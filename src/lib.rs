//! A token faucet's core: a ledger of dispensations, a per-address cooldown,
//! recipient decoding, and the state machine that sequences one request.
pub mod address;
pub mod config;
pub mod dispense;
pub mod error;
pub mod ledger;
pub mod schema;
