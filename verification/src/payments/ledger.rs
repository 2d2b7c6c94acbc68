//! The ledger: what an engine keeps, as the contracts see it, and what each
//! transaction does to it.
//!
//! [`outcome`] is the answer to a transaction, [`applied`] the ledger after
//! it, and [`exact`] says whether the funds that the transaction leaves can be
//! held without rounding. [`reports_of`] says what a report of a ledger is.

use crate::decimal::Decimal;
use crate::payments::account::{
    AccountReport, AccountReportView, AccountView, FundsView, TransactionStateView,
};
use crate::payments::engine::PaymentsEngineError;
use crate::payments::transaction::{ClientId, TransactionId, TransactionView};
use vstd::prelude::*;

verus! {

/// The accounts of a ledger, by client.
pub type Ledger = Map<ClientId, AccountView>;

impl AccountView {
    /// What a deposit under `transaction_id` meets in this account.
    pub open spec fn deposit_outcome(
        self,
        client_id: ClientId,
        transaction_id: TransactionId,
    ) -> Result<(), PaymentsEngineError> {
        if self.locked {
            Err(PaymentsEngineError::AccountLocked(client_id))
        } else if self.transactions.contains_key(transaction_id) {
            Err(PaymentsEngineError::DuplicatedTransaction(transaction_id))
        } else {
            Ok(())
        }
    }

    /// Whether the available funds can be held exactly after the deposit.
    pub open spec fn deposit_fits(self, amount: Decimal) -> bool {
        self.funds.available.plus(amount).wf()
    }

    /// The account after a deposit: the amount is available, and the deposit
    /// remembered.
    pub open spec fn deposited(
        self,
        transaction_id: TransactionId,
        amount: Decimal,
    ) -> AccountView {
        AccountView {
            locked: self.locked,
            funds: FundsView {
                available: self.funds.available.plus(amount),
                held: self.funds.held,
            },
            transactions: self.transactions.insert(
                transaction_id,
                TransactionStateView { amount, in_dispute: false },
            ),
        }
    }

    /// What a withdrawal of `amount` under `transaction_id` meets in this
    /// account.
    pub open spec fn withdrawal_outcome(
        self,
        client_id: ClientId,
        transaction_id: TransactionId,
        amount: Decimal,
    ) -> Result<(), PaymentsEngineError> {
        if self.locked {
            Err(PaymentsEngineError::AccountLocked(client_id))
        } else if self.transactions.contains_key(transaction_id) {
            Err(PaymentsEngineError::DuplicatedTransaction(transaction_id))
        } else if self.funds.available.below(amount) {
            Err(PaymentsEngineError::NotEnoughAvailableFunds)
        } else {
            Ok(())
        }
    }

    /// Whether the available funds can be held exactly after the withdrawal.
    pub open spec fn withdrawal_fits(self, amount: Decimal) -> bool {
        self.funds.available.minus(amount).wf()
    }

    /// The account after a withdrawal: the amount is no longer available, and
    /// the withdrawal remembered by its negated amount.
    pub open spec fn withdrawn(
        self,
        transaction_id: TransactionId,
        amount: Decimal,
    ) -> AccountView {
        AccountView {
            locked: self.locked,
            funds: FundsView {
                available: self.funds.available.minus(amount),
                held: self.funds.held,
            },
            transactions: self.transactions.insert(
                transaction_id,
                TransactionStateView { amount: amount.negated(), in_dispute: false },
            ),
        }
    }

    /// What a dispute of `transaction_id` meets in this account.
    pub open spec fn dispute_outcome(
        self,
        client_id: ClientId,
        transaction_id: TransactionId,
    ) -> Result<(), PaymentsEngineError> {
        if self.locked {
            Err(PaymentsEngineError::AccountLocked(client_id))
        } else if !self.transactions.contains_key(transaction_id) {
            Err(PaymentsEngineError::TransactionNotFound(transaction_id))
        } else if self.transactions[transaction_id].in_dispute {
            Err(PaymentsEngineError::TransactionAlreadyDisputed(client_id, transaction_id))
        } else {
            Ok(())
        }
    }

    /// Whether both funds can be held exactly after the dispute.
    pub open spec fn dispute_fits(self, transaction_id: TransactionId) -> bool {
        let amount = self.transactions[transaction_id].amount;
        self.funds.available.minus(amount).wf() && self.funds.held.plus(amount).wf()
    }

    /// The account after a dispute: what the transaction had added to the
    /// available funds is held instead.
    pub open spec fn disputed(self, transaction_id: TransactionId) -> AccountView {
        let amount = self.transactions[transaction_id].amount;
        AccountView {
            locked: self.locked,
            funds: FundsView {
                available: self.funds.available.minus(amount),
                held: self.funds.held.plus(amount),
            },
            transactions: self.transactions.insert(
                transaction_id,
                TransactionStateView { amount, in_dispute: true },
            ),
        }
    }

    /// What the settling of a dispute of `transaction_id`, by a resolve or a
    /// chargeback, meets in this account. A lock does not stand in its way.
    pub open spec fn settlement_outcome(
        self,
        client_id: ClientId,
        transaction_id: TransactionId,
    ) -> Result<(), PaymentsEngineError> {
        if !self.transactions.contains_key(transaction_id) {
            Err(PaymentsEngineError::TransactionNotFound(transaction_id))
        } else if !self.transactions[transaction_id].in_dispute {
            Err(PaymentsEngineError::TransactionNotDisputed(client_id, transaction_id))
        } else {
            Ok(())
        }
    }

    /// Whether both funds can be held exactly after the resolve.
    pub open spec fn resolve_fits(self, transaction_id: TransactionId) -> bool {
        let amount = self.transactions[transaction_id].amount;
        self.funds.available.plus(amount).wf() && self.funds.held.minus(amount).wf()
    }

    /// The account after a resolve: what was held for the transaction is
    /// available again.
    pub open spec fn resolved(self, transaction_id: TransactionId) -> AccountView {
        let amount = self.transactions[transaction_id].amount;
        AccountView {
            locked: self.locked,
            funds: FundsView {
                available: self.funds.available.plus(amount),
                held: self.funds.held.minus(amount),
            },
            transactions: self.transactions.insert(
                transaction_id,
                TransactionStateView { amount, in_dispute: false },
            ),
        }
    }

    /// Whether the held funds can be held exactly after the chargeback.
    pub open spec fn chargeback_fits(self, transaction_id: TransactionId) -> bool {
        let amount = self.transactions[transaction_id].amount;
        self.funds.held.minus(amount).wf()
    }

    /// The account after a chargeback: what was held for the transaction is
    /// gone, the transaction forgotten, and the account locked.
    pub open spec fn charged_back(self, transaction_id: TransactionId) -> AccountView {
        let amount = self.transactions[transaction_id].amount;
        AccountView {
            locked: true,
            funds: FundsView {
                available: self.funds.available,
                held: self.funds.held.minus(amount),
            },
            transactions: self.transactions.remove(transaction_id),
        }
    }
}

/// The account of `client_id`, or the one that a deposit would open.
pub open spec fn account_of(ledger: Ledger, client_id: ClientId) -> AccountView {
    if ledger.contains_key(client_id) {
        ledger[client_id]
    } else {
        AccountView::opened()
    }
}

/// What the engine answers to `transaction` when its accounts are `ledger`.
/// Only a deposit opens an account; the other four need one.
pub open spec fn outcome(ledger: Ledger, transaction: TransactionView) -> Result<
    (),
    PaymentsEngineError,
> {
    match transaction {
        TransactionView::Deposit { client_id, transaction_id, amount } => {
            if amount.mantissa < 0 {
                Err(PaymentsEngineError::NegativeAmount)
            } else {
                account_of(ledger, client_id).deposit_outcome(client_id, transaction_id)
            }
        },
        TransactionView::Withdrawal { client_id, transaction_id, amount } => {
            if amount.mantissa < 0 {
                Err(PaymentsEngineError::NegativeAmount)
            } else if !ledger.contains_key(client_id) {
                Err(PaymentsEngineError::ClientNotFound(client_id))
            } else {
                ledger[client_id].withdrawal_outcome(client_id, transaction_id, amount)
            }
        },
        TransactionView::Dispute { client_id, transaction_id } => {
            if !ledger.contains_key(client_id) {
                Err(PaymentsEngineError::ClientNotFound(client_id))
            } else {
                ledger[client_id].dispute_outcome(client_id, transaction_id)
            }
        },
        TransactionView::Resolve { client_id, transaction_id } => {
            if !ledger.contains_key(client_id) {
                Err(PaymentsEngineError::ClientNotFound(client_id))
            } else {
                ledger[client_id].settlement_outcome(client_id, transaction_id)
            }
        },
        TransactionView::Chargeback { client_id, transaction_id } => {
            if !ledger.contains_key(client_id) {
                Err(PaymentsEngineError::ClientNotFound(client_id))
            } else {
                ledger[client_id].settlement_outcome(client_id, transaction_id)
            }
        },
    }
}

/// Whether the funds that `transaction` leaves can be held exactly: every sum
/// and difference that it takes has a mantissa of at most 96 bits. A
/// transaction that is refused takes none.
pub open spec fn exact(ledger: Ledger, transaction: TransactionView) -> bool {
    outcome(ledger, transaction) is Ok ==> {
        let account = account_of(ledger, transaction.client());
        match transaction {
            TransactionView::Deposit { amount, .. } => account.deposit_fits(amount),
            TransactionView::Withdrawal { amount, .. } => account.withdrawal_fits(amount),
            TransactionView::Dispute { transaction_id, .. } => account.dispute_fits(
                transaction_id,
            ),
            TransactionView::Resolve { transaction_id, .. } => account.resolve_fits(
                transaction_id,
            ),
            TransactionView::Chargeback { transaction_id, .. } => account.chargeback_fits(
                transaction_id,
            ),
        }
    }
}

/// The ledger after `transaction`: the account of its client is changed if
/// the transaction is accepted, and nothing is changed if it is refused.
pub open spec fn applied(ledger: Ledger, transaction: TransactionView) -> Ledger {
    if outcome(ledger, transaction) is Ok {
        let account = account_of(ledger, transaction.client());
        ledger.insert(
            transaction.client(),
            match transaction {
                TransactionView::Deposit { transaction_id, amount, .. } => account.deposited(
                    transaction_id,
                    amount,
                ),
                TransactionView::Withdrawal { transaction_id, amount, .. } => account.withdrawn(
                    transaction_id,
                    amount,
                ),
                TransactionView::Dispute { transaction_id, .. } => account.disputed(
                    transaction_id,
                ),
                TransactionView::Resolve { transaction_id, .. } => account.resolved(
                    transaction_id,
                ),
                TransactionView::Chargeback { transaction_id, .. } => account.charged_back(
                    transaction_id,
                ),
            },
        )
    } else {
        ledger
    }
}

/// How an engine answers: with the outcome and the ledger that follows,
/// unless the funds could not be held exactly, when it has no answer and
/// changes nothing.
pub open spec fn answered(
    before: Ledger,
    transaction: TransactionView,
    answer: Option<Result<(), PaymentsEngineError>>,
    after: Ledger,
) -> bool {
    if exact(before, transaction) {
        answer == Some(outcome(before, transaction)) && after == applied(before, transaction)
    } else {
        answer is None && after == before
    }
}

/// The ledger after `transactions`, applied in their order.
pub open spec fn replayed(ledger: Ledger, transactions: Seq<TransactionView>) -> Ledger
    decreases transactions.len(),
{
    if transactions.len() == 0 {
        ledger
    } else {
        applied(replayed(ledger, transactions.drop_last()), transactions.last())
    }
}

/// The number of fractional digits that a report shows.
pub const PRECISION: u32 = 4;

impl AccountView {
    /// Whether the sum of the available and the held funds can be held
    /// exactly.
    pub open spec fn total_fits(self) -> bool {
        self.funds.available.plus(self.funds.held).wf()
    }

    /// What is reported of this account, as that of `client_id`. The total is
    /// taken of the funds as they are, and shown like them.
    pub open spec fn report(self, client_id: ClientId) -> AccountReportView {
        AccountReportView {
            client_id,
            available: self.funds.available.presented(PRECISION as nat),
            held: self.funds.held.presented(PRECISION as nat),
            total: self.funds.available.plus(self.funds.held).presented(PRECISION as nat),
            locked: self.locked,
        }
    }
}

/// Whether every account of `ledger` can be reported: its total can be held
/// exactly.
pub open spec fn reportable(ledger: Ledger) -> bool {
    forall|client_id: ClientId| #[trigger]
        ledger.contains_key(client_id) ==> ledger[client_id].total_fits()
}

/// Whether `reports` holds the report of each account of `ledger`, once, and
/// nothing else. The order is left open.
pub open spec fn reports_of(ledger: Ledger, reports: Seq<AccountReport>) -> bool {
    &&& reports.len() == ledger.dom().len()
    &&& forall|i: int|
        0 <= i < reports.len() ==> ledger.contains_key(#[trigger] reports[i].client_id)
            && reports[i]@ == ledger[reports[i].client_id].report(reports[i].client_id)
    &&& forall|i: int, j: int|
        0 <= i < j < reports.len() ==> (#[trigger] reports[i]).client_id
            != (#[trigger] reports[j]).client_id
    &&& forall|client_id: ClientId| #[trigger]
        ledger.contains_key(client_id) ==> exists|i: int|
            0 <= i < reports.len() && (#[trigger] reports[i]).client_id == client_id
}

} // verus!
