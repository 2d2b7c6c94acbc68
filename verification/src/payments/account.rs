//! An account: its funds, the deposits and withdrawals it remembers, and
//! whether it is locked.

use crate::decimal::{Amount, Decimal};
use crate::payments::transaction::{ClientId, TransactionId};
use std::collections::HashMap;
use vstd::prelude::*;

verus! {

/// A remembered deposit or withdrawal.
#[derive(Debug, Clone, Copy, PartialEq, Eq)]
pub struct TransactionState {
    /// What the transaction added to the available funds: the amount of a
    /// deposit, the negated amount of a withdrawal.
    pub amount: Amount,
    /// Whether the transaction is being disputed.
    pub in_dispute: bool,
}

/// A remembered transaction as the contracts see it.
pub struct TransactionStateView {
    pub amount: Decimal,
    pub in_dispute: bool,
}

impl View for TransactionState {
    type V = TransactionStateView;

    open spec fn view(&self) -> TransactionStateView {
        TransactionStateView { amount: self.amount@, in_dispute: self.in_dispute }
    }
}

impl TransactionState {
    /// A transaction of `amount` that is in dispute.
    pub fn from_dispute(amount: Amount) -> (state: Self)
        ensures
            state == (TransactionState { amount, in_dispute: true }),
    {
        Self { amount, in_dispute: true }
    }

    /// A transaction of `amount` that is not in dispute.
    pub fn from_amount(amount: Amount) -> (state: Self)
        ensures
            state == (TransactionState { amount, in_dispute: false }),
    {
        Self { amount, in_dispute: false }
    }
}

/// The funds of an account. Their total is never kept, only derived.
#[derive(Debug, Clone, Copy, PartialEq, Eq)]
pub struct Funds {
    /// What no dispute holds back.
    pub available: Amount,
    /// What open disputes hold back.
    pub held: Amount,
}

/// Funds as the contracts see them: two numbers.
pub struct FundsView {
    pub available: Decimal,
    pub held: Decimal,
}

impl View for Funds {
    type V = FundsView;

    open spec fn view(&self) -> FundsView {
        FundsView { available: self.available@, held: self.held@ }
    }
}

impl FundsView {
    /// No funds.
    pub open spec fn zero() -> FundsView {
        FundsView { available: Decimal::zero(), held: Decimal::zero() }
    }
}

impl Funds {
    /// The given funds.
    pub fn new(available: Amount, held: Amount) -> (funds: Self)
        ensures
            funds == (Funds { available, held }),
    {
        Self { available, held }
    }

    /// No funds.
    pub fn zero() -> (funds: Self)
        ensures
            funds@ == FundsView::zero(),
    {
        Self { available: Amount::zero(), held: Amount::zero() }
    }

    /// Funds of which all are available.
    pub fn available(available: Amount) -> (funds: Self)
        ensures
            funds@ == (FundsView { available: available@, held: Decimal::zero() }),
    {
        Self { available, held: Amount::zero() }
    }
}

/// The state of one client's account.
#[derive(Debug, PartialEq)]
pub struct Account {
    pub locked: bool,
    pub funds: Funds,
    pub transactions: HashMap<TransactionId, TransactionState>,
}

/// An account as the contracts see it: its funds are numbers, and its
/// history is a map.
pub struct AccountView {
    pub locked: bool,
    pub funds: FundsView,
    pub transactions: Map<TransactionId, TransactionStateView>,
}

impl View for Account {
    type V = AccountView;

    open spec fn view(&self) -> AccountView {
        AccountView {
            locked: self.locked,
            funds: self.funds@,
            transactions: self.transactions@.map_values(|state: TransactionState| state@),
        }
    }
}

impl Account {
    /// Whether the account remembers a transaction under `transaction_id`.
    pub fn transaction_exists(&self, transaction_id: &TransactionId) -> (exists: bool)
        ensures
            exists == self@.transactions.contains_key(*transaction_id),
    {
        self.transactions.contains_key(transaction_id)
    }
}

impl Clone for Account {
    fn clone(&self) -> (account: Self)
        ensures
            account@ == self@,
    {
        let account = Self {
            locked: self.locked,
            funds: self.funds,
            transactions: self.transactions.clone(),
        };
        assert(account@.transactions =~= self@.transactions);
        account
    }
}

impl Default for Account {
    fn default() -> (account: Self)
        ensures
            account@ == AccountView::opened(),
    {
        let account = Self { locked: false, funds: Funds::zero(), transactions: HashMap::new() };
        assert(account@.transactions =~= Map::empty());
        account
    }
}

impl AccountView {
    /// Whether every amount of the account is one that an [`Amount`] holds,
    /// as it is of every account that the engine keeps.
    pub open spec fn wf(self) -> bool {
        &&& self.funds.available.wf()
        &&& self.funds.held.wf()
        &&& forall|transaction_id: TransactionId| #[trigger]
            self.transactions.contains_key(transaction_id)
                ==> self.transactions[transaction_id].amount.wf()
    }

    /// An account as it is opened: unlocked, without funds or history.
    pub open spec fn opened() -> AccountView {
        AccountView {
            locked: false,
            funds: FundsView::zero(),
            transactions: Map::empty(),
        }
    }
}

/// What is reported of an account: its funds as they are shown, their total,
/// and whether it is locked.
#[derive(Debug, Clone, Copy, PartialEq, Eq, Hash)]
pub struct AccountReport {
    pub client_id: ClientId,
    pub available: Amount,
    pub held: Amount,
    pub total: Amount,
    pub locked: bool,
}

/// A report as the contracts see it.
pub struct AccountReportView {
    pub client_id: ClientId,
    pub available: Decimal,
    pub held: Decimal,
    pub total: Decimal,
    pub locked: bool,
}

impl View for AccountReport {
    type V = AccountReportView;

    open spec fn view(&self) -> AccountReportView {
        AccountReportView {
            client_id: self.client_id,
            available: self.available@,
            held: self.held@,
            total: self.total@,
            locked: self.locked,
        }
    }
}

impl AccountReport {
    /// The report with the given fields.
    pub fn new(
        client_id: ClientId,
        available: Amount,
        held: Amount,
        total: Amount,
        locked: bool,
    ) -> (report: Self)
        ensures
            report == (AccountReport { client_id, available, held, total, locked }),
    {
        Self { client_id, available, held, total, locked }
    }
}

} // verus!
