//! A ledger of client accounts driven by deposits, withdrawals, disputes,
//! resolutions and chargebacks, with every balance kept as an exact decimal.
//!
//! - [`decimal`]: the amounts, and the arithmetic on them.
//! - [`payments`]: the accounts, the transactions, the ledger that the
//!   contracts speak of, the engine that keeps one, and what holds of it.
//! - [`io`]: the records that transactions come in and reports go out as.
//! - [`processors`]: the run of a batch of transactions through an engine.

pub mod decimal;
pub mod io;
pub mod payments;
pub mod processors;
