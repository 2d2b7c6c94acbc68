//! What holds of the ledger whatever the transactions are.
//!
//! Each law is proved of the model of the engine: [`outcome`], [`exact`] and
//! [`applied`], which are what an engine is held to.

use crate::decimal::Decimal;
use crate::payments::account::FundsView;
use crate::payments::engine::PaymentsEngineError;
use crate::payments::ledger::{account_of, applied, exact, outcome, replayed, Ledger};
use crate::payments::transaction::{ClientId, TransactionId, TransactionView};
use vstd::prelude::*;

verus! {

/// A transaction that is refused changes nothing.
pub proof fn lemma_refused_changes_nothing(ledger: Ledger, transaction: TransactionView)
    requires
        outcome(ledger, transaction) is Err,
    ensures
        applied(ledger, transaction) == ledger,
{
}

/// A transaction changes no account but that of its client.
pub proof fn lemma_other_accounts_untouched(
    ledger: Ledger,
    transaction: TransactionView,
    client_id: ClientId,
)
    requires
        client_id != transaction.client(),
    ensures
        applied(ledger, transaction).contains_key(client_id) == ledger.contains_key(client_id),
        ledger.contains_key(client_id) ==> applied(ledger, transaction)[client_id]
            == ledger[client_id],
{
}

/// No account is ever closed, and only a deposit opens one.
pub proof fn lemma_accounts_opened_by_deposit(ledger: Ledger, transaction: TransactionView)
    ensures
        ledger.dom().subset_of(applied(ledger, transaction).dom()),
        !(transaction is Deposit) ==> applied(ledger, transaction).dom() == ledger.dom(),
{
    if !(transaction is Deposit) {
        assert(applied(ledger, transaction).dom() =~= ledger.dom());
    }
}

/// Whether every amount of the ledger is one that an amount holds, as it is
/// of the ledger of every engine.
pub open spec fn ledger_wf(ledger: Ledger) -> bool {
    forall|client_id: ClientId| #[trigger]
        ledger.contains_key(client_id) ==> ledger[client_id].wf()
}

/// The amounts of a ledger stay ones that an amount holds: a transaction
/// that leaves funds which can be held exactly leaves no others.
pub proof fn lemma_amounts_stay_held(ledger: Ledger, transaction: TransactionView)
    requires
        ledger_wf(ledger),
        transaction.wf(),
        exact(ledger, transaction),
    ensures
        ledger_wf(applied(ledger, transaction)),
{
    let after = applied(ledger, transaction);
    if outcome(ledger, transaction) is Ok {
        assert(account_of(ledger, transaction.client()).wf());
        assert(after[transaction.client()].wf());
    }
    assert forall|client_id: ClientId| #[trigger]
        after.contains_key(client_id) implies after[client_id].wf() by {
        if client_id != transaction.client() {
            assert(ledger.contains_key(client_id));
        }
    }
}

/// What is remembered of a deposit or a withdrawal is not changed but by what
/// speaks of it: its amount never, and whether it is in dispute only by a
/// dispute, which sets the mark, and a resolve, which takes it off. A
/// transaction enters the history without the mark, and only a chargeback
/// takes one out.
pub proof fn lemma_history_kept(
    ledger: Ledger,
    transaction: TransactionView,
    client_id: ClientId,
    transaction_id: TransactionId,
)
    ensures
        ({
            let after = applied(ledger, transaction);
            let spoken_of = outcome(ledger, transaction) is Ok && transaction.client() == client_id
                && transaction.id() == transaction_id;
            let before = account_of(ledger, client_id).transactions;
            if after.contains_key(client_id) && after[client_id].transactions.contains_key(
                transaction_id,
            ) {
                let kept = after[client_id].transactions[transaction_id];
                if before.contains_key(transaction_id) {
                    &&& kept.amount == before[transaction_id].amount
                    &&& kept.in_dispute == if spoken_of {
                        transaction is Dispute
                    } else {
                        before[transaction_id].in_dispute
                    }
                } else {
                    &&& spoken_of
                    &&& transaction is Deposit || transaction is Withdrawal
                    &&& !kept.in_dispute
                }
            } else {
                before.contains_key(transaction_id) ==> spoken_of && transaction is Chargeback
            }
        }),
{
}

/// A lock is for good: no transaction opens a locked account again.
pub proof fn lemma_lock_stays(ledger: Ledger, transaction: TransactionView, client_id: ClientId)
    requires
        ledger.contains_key(client_id),
        ledger[client_id].locked,
    ensures
        applied(ledger, transaction).contains_key(client_id),
        applied(ledger, transaction)[client_id].locked,
{
}

/// A locked account refuses every deposit, withdrawal and dispute: with
/// `NegativeAmount` where the amount is below zero, as any account would, and
/// with `AccountLocked` otherwise.
pub proof fn lemma_locked_account_refuses(ledger: Ledger, transaction: TransactionView)
    requires
        ledger.contains_key(transaction.client()),
        ledger[transaction.client()].locked,
        transaction is Deposit || transaction is Withdrawal || transaction is Dispute,
    ensures
        outcome(ledger, transaction) == Err::<(), PaymentsEngineError>(
            if transaction.takes_back() {
                PaymentsEngineError::NegativeAmount
            } else {
                PaymentsEngineError::AccountLocked(transaction.client())
            },
        ),
        applied(ledger, transaction) == ledger,
{
}

/// A lock does not keep a dispute from being settled: a resolve or a
/// chargeback of a disputed transaction is accepted in a locked account as in
/// any other.
pub proof fn lemma_lock_allows_settlement(ledger: Ledger, transaction: TransactionView)
    requires
        transaction is Resolve || transaction is Chargeback,
        ledger.contains_key(transaction.client()),
        ledger[transaction.client()].transactions.contains_key(transaction.id()),
        ledger[transaction.client()].transactions[transaction.id()].in_dispute,
    ensures
        outcome(ledger, transaction) is Ok,
{
}

/// A withdrawal of more than is available is refused with
/// `NotEnoughAvailableFunds`, and changes nothing, where nothing else stands
/// in its way: the account exists and is not locked, the amount is not below
/// zero, and the transaction is new to the account.
pub proof fn lemma_withdrawal_beyond_available(
    ledger: Ledger,
    client_id: ClientId,
    transaction_id: TransactionId,
    amount: Decimal,
)
    requires
        ledger.contains_key(client_id),
        !ledger[client_id].locked,
        !ledger[client_id].transactions.contains_key(transaction_id),
        amount.mantissa >= 0,
        ledger[client_id].funds.available.below(amount),
    ensures
        ({
            let withdrawal = TransactionView::Withdrawal { client_id, transaction_id, amount };
            &&& outcome(ledger, withdrawal) == Err::<(), PaymentsEngineError>(
                PaymentsEngineError::NotEnoughAvailableFunds,
            )
            &&& exact(ledger, withdrawal)
            &&& applied(ledger, withdrawal) == ledger
        }),
{
}

/// After a deposit was accepted, a second deposit for the same client under
/// the same transaction is refused with `DuplicatedTransaction`, and changes
/// nothing.
pub proof fn lemma_second_deposit_refused(
    ledger: Ledger,
    client_id: ClientId,
    transaction_id: TransactionId,
    first: Decimal,
    second: Decimal,
)
    requires
        outcome(ledger, TransactionView::Deposit { client_id, transaction_id, amount: first })
            is Ok,
        second.mantissa >= 0,
    ensures
        ({
            let after = applied(
                ledger,
                TransactionView::Deposit { client_id, transaction_id, amount: first },
            );
            let again = TransactionView::Deposit { client_id, transaction_id, amount: second };
            &&& outcome(after, again) == Err::<(), PaymentsEngineError>(
                PaymentsEngineError::DuplicatedTransaction(transaction_id),
            )
            &&& exact(after, again)
            &&& applied(after, again) == after
        }),
{
}

/// A dispute that is then resolved leaves the account as it was: the
/// available and the held funds are the same numbers as before, the history
/// is the same, with the transaction not in dispute, and so is the lock.
pub proof fn lemma_dispute_then_resolve(
    ledger: Ledger,
    client_id: ClientId,
    transaction_id: TransactionId,
)
    requires
        outcome(ledger, TransactionView::Dispute { client_id, transaction_id }) is Ok,
        ledger[client_id].wf(),
    ensures
        ({
            let disputed = applied(ledger, TransactionView::Dispute { client_id, transaction_id });
            let resolve = TransactionView::Resolve { client_id, transaction_id };
            let before = ledger[client_id];
            let after = applied(disputed, resolve)[client_id];
            &&& outcome(disputed, resolve) is Ok
            &&& after.funds.available.units() == before.funds.available.units()
            &&& after.funds.held.units() == before.funds.held.units()
            &&& after.transactions == before.transactions
            &&& !after.transactions[transaction_id].in_dispute
            &&& after.locked == before.locked
        }),
{
    let before = ledger[client_id];
    let amount = before.transactions[transaction_id].amount;
    let disputed = applied(ledger, TransactionView::Dispute { client_id, transaction_id });
    let between = disputed[client_id];
    let resolve = TransactionView::Resolve { client_id, transaction_id };
    let after = applied(disputed, resolve)[client_id];
    assert(before.transactions.contains_key(transaction_id));
    before.funds.available.lemma_minus_units(amount);
    before.funds.held.lemma_plus_units(amount);
    between.funds.available.lemma_plus_units(amount);
    between.funds.held.lemma_minus_units(amount);
    assert(after.transactions =~= before.transactions);
}

/// A dispute that ends in a chargeback locks the account and takes the
/// transaction out of its history, so that a second chargeback does not find
/// it. What was held for the transaction is gone: the held funds are the same
/// number as before the dispute, and the available funds are less by what the
/// transaction had added.
pub proof fn lemma_dispute_then_chargeback(
    ledger: Ledger,
    client_id: ClientId,
    transaction_id: TransactionId,
)
    requires
        outcome(ledger, TransactionView::Dispute { client_id, transaction_id }) is Ok,
        ledger[client_id].wf(),
    ensures
        ({
            let disputed = applied(ledger, TransactionView::Dispute { client_id, transaction_id });
            let chargeback = TransactionView::Chargeback { client_id, transaction_id };
            let before = ledger[client_id];
            let after = applied(disputed, chargeback)[client_id];
            &&& outcome(disputed, chargeback) is Ok
            &&& after.locked
            &&& after.transactions == before.transactions.remove(transaction_id)
            &&& after.funds.held.units() == before.funds.held.units()
            &&& after.funds.available.units() == before.funds.available.units()
                - before.transactions[transaction_id].amount.units()
            &&& outcome(applied(disputed, chargeback), chargeback) == Err::<
                (),
                PaymentsEngineError,
            >(PaymentsEngineError::TransactionNotFound(transaction_id))
        }),
{
    let before = ledger[client_id];
    let amount = before.transactions[transaction_id].amount;
    let disputed = applied(ledger, TransactionView::Dispute { client_id, transaction_id });
    let between = disputed[client_id];
    let chargeback = TransactionView::Chargeback { client_id, transaction_id };
    let after = applied(disputed, chargeback)[client_id];
    assert(before.transactions.contains_key(transaction_id));
    before.funds.available.lemma_minus_units(amount);
    before.funds.held.lemma_plus_units(amount);
    between.funds.held.lemma_minus_units(amount);
    assert(after.transactions =~= before.transactions.remove(transaction_id));
}

/// Whether `transactions` are deposits of amounts that an amount holds, each
/// of which is accepted where it stands after those before it.
pub open spec fn deposits_accepted(ledger: Ledger, transactions: Seq<TransactionView>) -> bool
    decreases transactions.len(),
{
    transactions.len() == 0 || {
        &&& deposits_accepted(ledger, transactions.drop_last())
        &&& transactions.last() is Deposit
        &&& transactions.last().wf()
        &&& outcome(replayed(ledger, transactions.drop_last()), transactions.last()) is Ok
    }
}

/// What the deposits among `transactions` bring to `client_id`, in units of
/// `10^-28`.
pub open spec fn deposited_units(transactions: Seq<TransactionView>, client_id: ClientId) -> int
    decreases transactions.len(),
{
    if transactions.len() == 0 {
        0
    } else {
        deposited_units(transactions.drop_last(), client_id) + match transactions.last() {
            TransactionView::Deposit { client_id: to, amount, .. } if to == client_id => {
                amount.units()
            },
            _ => 0,
        }
    }
}

/// After nothing but accepted deposits, the available funds of a client are
/// the exact sum of what was deposited for it, and nothing is held.
pub proof fn lemma_deposits_add_up(transactions: Seq<TransactionView>, client_id: ClientId)
    requires
        deposits_accepted(Map::empty(), transactions),
    ensures
        ({
            let funds = account_of(replayed(Map::empty(), transactions), client_id).funds;
            &&& funds.available.units() == deposited_units(transactions, client_id)
            &&& funds.available.scale <= crate::decimal::MAX_SCALE
            &&& funds.held == Decimal::zero()
        }),
    decreases transactions.len(),
{
    if transactions.len() > 0 {
        lemma_deposits_add_up(transactions.drop_last(), client_id);
        let before = replayed(Map::empty(), transactions.drop_last());
        let account = account_of(before, transactions.last().client());
        match transactions.last() {
            TransactionView::Deposit { amount, .. } => {
                lemma_deposits_add_up(transactions.drop_last(), transactions.last().client());
                account.funds.available.lemma_plus_units(amount);
            },
            _ => {},
        }
    } else {
        assert(FundsView::zero().available.units() == 0);
    }
}

} // verus!
