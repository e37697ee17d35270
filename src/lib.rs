//! A donation ledger whose withdrawals are gated by a privileged account that
//! is confirmed asynchronously against an external token registry.
//!
//! All state lives in one [`contract::Contract`] value; the hosting
//! environment hands each entry point the caller, the attached deposit and,
//! for the registry callback, the query's outcome.
pub mod error;
pub mod ledger;
pub mod contract;
pub mod laws;
