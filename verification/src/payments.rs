//! The ledger: accounts, the transactions that change them, and the engine
//! that applies one to the other.

pub mod account;
pub mod engine;
pub mod laws;
pub mod ledger;
pub mod transaction;

pub use account::{
    Account, AccountReport, AccountReportView, AccountView, Funds, FundsView, TransactionState,
    TransactionStateView,
};
pub use engine::{InMemoryPaymentsEngine, PaymentsEngine, PaymentsEngineError};
pub use transaction::{ClientId, Transaction, TransactionId, TransactionView};
