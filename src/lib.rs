//! A ledger of client accounts driven by a stream of deposit, withdrawal,
//! dispute, resolve and chargeback records.

pub mod amount;
pub mod config;
pub mod engine;
pub mod laws;
pub mod ledger;

pub use config::Config;
pub use ledger::{Amount, ClientId, TransactionId, TransactionInput, TransactionType};
