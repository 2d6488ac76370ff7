//! A transaction engine for a small payments ledger.
//!
//! Events (deposits, withdrawals and the dispute lifecycle) are applied to
//! per-client accounts under a fixed state machine. Every executable function
//! carries a contract over a mathematical model of the data, and the laws that
//! relate them are proved as public lemmas.
//!
//! - [`amount`]: money as a fixed-point decimal with four fractional digits.
//! - [`transaction`]: incoming events and the states of a transaction.
//! - [`model`] and [`laws`]: the account state machine as mathematics, and
//!   what holds of it.
//! - [`client`]: the account that runs.
//! - [`ledger`] and [`engines`]: all accounts together, and the dispatchers
//!   that feed them.

pub mod amount;
pub mod client;
pub mod engines;
pub mod fnv_map;
pub mod laws;
pub mod ledger;
pub mod model;
pub mod transaction;

pub use amount::Amount;
pub use client::{Client, Summary};
pub use engines::{BasicEngine, EngineError, ParseError, StreamLikeEngine};
pub use model::{AccountStatus, IgnoreReason, Outcome, TransactionError};
pub use transaction::{IncomingTransaction, Transaction, TransactionType};
