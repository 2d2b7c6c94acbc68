//! The transactions a ledger takes.

use crate::decimal::{Amount, Decimal};
use vstd::prelude::*;

verus! {

/// Identifies a client, and so an account.
pub type ClientId = u16;

/// Identifies a deposit or a withdrawal among those of one client.
pub type TransactionId = u32;

/// A transaction as the engine takes it.
#[derive(Debug, Clone, Copy, PartialEq, Eq)]
pub enum Transaction {
    Deposit { client_id: ClientId, transaction_id: TransactionId, amount: Amount },
    Withdrawal { client_id: ClientId, transaction_id: TransactionId, amount: Amount },
    Dispute { client_id: ClientId, transaction_id: TransactionId },
    Resolve { client_id: ClientId, transaction_id: TransactionId },
    Chargeback { client_id: ClientId, transaction_id: TransactionId },
}

/// A transaction as the contracts see it: its amount is a number.
pub enum TransactionView {
    Deposit { client_id: ClientId, transaction_id: TransactionId, amount: Decimal },
    Withdrawal { client_id: ClientId, transaction_id: TransactionId, amount: Decimal },
    Dispute { client_id: ClientId, transaction_id: TransactionId },
    Resolve { client_id: ClientId, transaction_id: TransactionId },
    Chargeback { client_id: ClientId, transaction_id: TransactionId },
}

impl View for Transaction {
    type V = TransactionView;

    open spec fn view(&self) -> TransactionView {
        match *self {
            Transaction::Deposit { client_id, transaction_id, amount } => {
                TransactionView::Deposit { client_id, transaction_id, amount: amount@ }
            },
            Transaction::Withdrawal { client_id, transaction_id, amount } => {
                TransactionView::Withdrawal { client_id, transaction_id, amount: amount@ }
            },
            Transaction::Dispute { client_id, transaction_id } => {
                TransactionView::Dispute { client_id, transaction_id }
            },
            Transaction::Resolve { client_id, transaction_id } => {
                TransactionView::Resolve { client_id, transaction_id }
            },
            Transaction::Chargeback { client_id, transaction_id } => {
                TransactionView::Chargeback { client_id, transaction_id }
            },
        }
    }
}

impl TransactionView {
    /// The client whose account the transaction is for.
    pub open spec fn client(self) -> ClientId {
        match self {
            TransactionView::Deposit { client_id, .. } => client_id,
            TransactionView::Withdrawal { client_id, .. } => client_id,
            TransactionView::Dispute { client_id, .. } => client_id,
            TransactionView::Resolve { client_id, .. } => client_id,
            TransactionView::Chargeback { client_id, .. } => client_id,
        }
    }

    /// The deposit or withdrawal that the transaction is, or speaks of.
    pub open spec fn id(self) -> TransactionId {
        match self {
            TransactionView::Deposit { transaction_id, .. } => transaction_id,
            TransactionView::Withdrawal { transaction_id, .. } => transaction_id,
            TransactionView::Dispute { transaction_id, .. } => transaction_id,
            TransactionView::Resolve { transaction_id, .. } => transaction_id,
            TransactionView::Chargeback { transaction_id, .. } => transaction_id,
        }
    }

    /// Whether the transaction is a deposit or a withdrawal of an amount
    /// below zero, which the engine refuses before it looks at any account.
    pub open spec fn takes_back(self) -> bool {
        match self {
            TransactionView::Deposit { amount, .. } => amount.mantissa < 0,
            TransactionView::Withdrawal { amount, .. } => amount.mantissa < 0,
            _ => false,
        }
    }

    /// Whether the amount of the transaction, if it has one, is one that an
    /// [`Amount`] holds, as it is of every transaction that an engine is given.
    pub open spec fn wf(self) -> bool {
        match self {
            TransactionView::Deposit { amount, .. } => amount.wf(),
            TransactionView::Withdrawal { amount, .. } => amount.wf(),
            _ => true,
        }
    }
}

} // verus!
