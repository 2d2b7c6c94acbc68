//! The simple run: every transaction that could be read is applied, in the
//! order in which it was read, and the accounts are reported at the end.
//!
//! What could not be read is passed over, and so is what the engine refuses:
//! neither stops the run.

use crate::payments::account::AccountReport;
use crate::payments::engine::PaymentsEngine;
use crate::payments::ledger::{applied, exact, replayed, reportable, reports_of, Ledger};
use crate::payments::transaction::{Transaction, TransactionView};
use vstd::prelude::*;

verus! {

/// The transactions among `items`, in their order: what was read without an
/// error.
pub open spec fn readable<E>(items: Seq<Result<Transaction, E>>) -> Seq<TransactionView>
    decreases items.len(),
{
    if items.len() == 0 {
        Seq::empty()
    } else {
        match items.last() {
            Ok(transaction) => readable(items.drop_last()).push(transaction@),
            Err(_) => readable(items.drop_last()),
        }
    }
}

/// Whether each of `transactions`, where it stands after those before it,
/// leaves funds that can be held exactly.
pub open spec fn all_exact(ledger: Ledger, transactions: Seq<TransactionView>) -> bool
    decreases transactions.len(),
{
    transactions.len() == 0 || {
        &&& all_exact(ledger, transactions.drop_last())
        &&& exact(replayed(ledger, transactions.drop_last()), transactions.last())
    }
}

/// Whether the run of `transactions` on `ledger` stays within what amounts
/// can hold: in every transaction, and in the totals of the report.
pub open spec fn within_limits(ledger: Ledger, transactions: Seq<TransactionView>) -> bool {
    all_exact(ledger, transactions) && reportable(replayed(ledger, transactions))
}

/// Runs what was read through the engine and reports the accounts. There is
/// no report if the run left what amounts can hold.
pub fn run<P: PaymentsEngine, E>(
    transactions: Vec<Result<Transaction, E>>,
    payments_engine: P,
) -> (reports: Option<Vec<AccountReport>>)
    ensures
        match reports {
            Some(reports) => {
                &&& within_limits(payments_engine.ledger(), readable(transactions@))
                &&& reports_of(
                    replayed(payments_engine.ledger(), readable(transactions@)),
                    reports@,
                )
            },
            None => !within_limits(payments_engine.ledger(), readable(transactions@)),
        },
{
    let ghost start = payments_engine.ledger();
    let mut engine = payments_engine;
    let mut i: usize = 0;
    while i < transactions.len()
        invariant
            i <= transactions.len(),
            start == payments_engine.ledger(),
            all_exact(start, readable(transactions@.take(i as int))),
            engine.ledger() == replayed(start, readable(transactions@.take(i as int))),
        decreases transactions.len() - i,
    {
        proof {
            lemma_take_next(start, transactions@, i as int);
        }
        if let Ok(transaction) = &transactions[i] {
            if engine.try_process(*transaction).is_none() {
                proof {
                    lemma_all_exact_prefix(start, transactions@, i as int + 1);
                }
                return None;
            }
        }
        i = i + 1;
    }
    proof {
        assert(transactions@.take(i as int) == transactions@);
    }
    engine.try_accounts_report()
}

/// What one item more adds to what was read, and to whether the run stays
/// within what amounts can hold.
proof fn lemma_take_next<E>(ledger: Ledger, items: Seq<Result<Transaction, E>>, i: int)
    requires
        0 <= i < items.len(),
    ensures
        match items[i] {
            Ok(transaction) => {
                let before = readable(items.take(i));
                &&& readable(items.take(i + 1)) == before.push(transaction@)
                &&& replayed(ledger, before.push(transaction@)) == applied(
                    replayed(ledger, before),
                    transaction@,
                )
                &&& all_exact(ledger, before.push(transaction@)) == (all_exact(ledger, before)
                    && exact(replayed(ledger, before), transaction@))
            },
            Err(_) => readable(items.take(i + 1)) == readable(items.take(i)),
        },
{
    assert(items.take(i + 1).drop_last() =~= items.take(i));
    assert(items.take(i + 1).last() == items[i]);
    if let Ok(transaction) = items[i] {
        let before = readable(items.take(i));
        assert(before.push(transaction@).drop_last() =~= before);
        assert(before.push(transaction@).last() == transaction@);
    }
}

/// Where the first `n` items leave what amounts can hold, so do all.
proof fn lemma_all_exact_prefix<E>(ledger: Ledger, items: Seq<Result<Transaction, E>>, n: int)
    requires
        0 <= n <= items.len(),
        !all_exact(ledger, readable(items.take(n))),
    ensures
        !all_exact(ledger, readable(items)),
    decreases items.len() - n,
{
    if n < items.len() {
        lemma_take_next(ledger, items, n);
        lemma_all_exact_prefix(ledger, items, n + 1);
    } else {
        assert(items.take(n) == items);
    }
}

} // verus!
