//! The engine that applies transactions to accounts.
//!
//! What an engine does is stated over the [`Ledger`] that it keeps.

use crate::decimal::Amount;
use crate::payments::account::{Account, AccountReport, AccountView, TransactionState};
use crate::payments::ledger::{
    account_of, answered, applied, exact, outcome, reportable, reports_of, Ledger, PRECISION,
};
use crate::payments::transaction::{ClientId, Transaction, TransactionId, TransactionView};
use std::collections::hash_map::Entry;
use std::collections::HashMap;
use vstd::prelude::*;
use vstd::std_specs::hash::spec_hash_map_iter;
use vstd::std_specs::iter::IteratorSpec;

verus! {

/// Why a transaction was refused.
#[derive(Debug, Clone, Copy, PartialEq, Eq)]
pub enum PaymentsEngineError {
    AccountLocked(ClientId),
    NegativeAmount,
    NotEnoughAvailableFunds,
    DuplicatedTransaction(TransactionId),
    ClientNotFound(ClientId),
    TransactionNotFound(TransactionId),
    TransactionAlreadyDisputed(ClientId, TransactionId),
    TransactionNotDisputed(ClientId, TransactionId),
}

/// What applies transactions to accounts and reports the accounts.
///
/// An engine answers for a ledger: whatever it keeps, what it does is what
/// [`outcome`] and [`applied`] say of that ledger.
pub trait PaymentsEngine {
    /// The accounts that the engine keeps.
    spec fn ledger(&self) -> Ledger;

    /// Applies `transaction`, where the funds it leaves can be held exactly,
    /// and says whether it was accepted.
    fn process(&mut self, transaction: Transaction) -> (answer: Result<(), PaymentsEngineError>)
        requires
            exact(old(self).ledger(), transaction@),
        ensures
            answer == outcome(old(self).ledger(), transaction@),
            final(self).ledger() == applied(old(self).ledger(), transaction@),
    ;

    /// Applies `transaction` if the funds it leaves can be held exactly, and
    /// then says whether it was accepted. Otherwise nothing is changed and
    /// there is no answer.
    fn try_process(&mut self, transaction: Transaction) -> (answer: Option<
        Result<(), PaymentsEngineError>,
    >)
        ensures
            answered(old(self).ledger(), transaction@, answer, final(self).ledger()),
    ;

    /// The report of every account, where each total can be held exactly.
    fn accounts_report(&self) -> (reports: Vec<AccountReport>)
        requires
            reportable(self.ledger()),
        ensures
            reports_of(self.ledger(), reports@),
    ;

    /// The report of every account, if each total can be held exactly.
    fn try_accounts_report(&self) -> (reports: Option<Vec<AccountReport>>)
        ensures
            match reports {
                Some(reports) => reportable(self.ledger()) && reports_of(
                    self.ledger(),
                    reports@,
                ),
                None => !reportable(self.ledger()),
            },
    ;
}

/// The ledger that `accounts` make up.
pub open spec fn ledger_of(accounts: Map<ClientId, Account>) -> Ledger {
    accounts.map_values(|account: Account| account@)
}

/// An engine that keeps its accounts in memory.
#[derive(Debug)]
pub struct InMemoryPaymentsEngine {
    accounts: HashMap<ClientId, Account>,
}

impl View for InMemoryPaymentsEngine {
    type V = Ledger;

    closed spec fn view(&self) -> Ledger {
        ledger_of(self.accounts@)
    }
}

impl InMemoryPaymentsEngine {
    /// An engine without accounts.
    pub fn new() -> (engine: Self)
        ensures
            engine@ == Map::<ClientId, AccountView>::empty(),
    {
        Self { accounts: HashMap::new() }
    }

    /// An engine that takes up the given accounts.
    pub fn from_accounts(accounts: HashMap<ClientId, Account>) -> (engine: Self)
        ensures
            engine@ == ledger_of(accounts@),
    {
        Self { accounts }
    }

    /// The accounts as the engine keeps them.
    pub fn accounts(&self) -> (accounts: &HashMap<ClientId, Account>)
        ensures
            ledger_of(accounts@) == self@,
    {
        &self.accounts
    }

    fn deposit(
        &mut self,
        client_id: ClientId,
        transaction_id: TransactionId,
        amount: Amount,
    ) -> (answer: Option<Result<(), PaymentsEngineError>>)
        ensures
            answered(
                old(self)@,
                TransactionView::Deposit { client_id, transaction_id, amount: amount@ },
                answer,
                final(self)@,
            ),
    {
        if amount.is_negative() {
            Some(Err(PaymentsEngineError::NegativeAmount))
        } else {
            proof {
                use_type_invariant(&amount);
            }
            let account = self.get_or_create_account(client_id);
            let ghost before = account@;
            let answer = if account.locked {
                Some(Err(PaymentsEngineError::AccountLocked(client_id)))
            } else if account.transaction_exists(&transaction_id) {
                Some(Err(PaymentsEngineError::DuplicatedTransaction(transaction_id)))
            } else {
                match account.funds.available.checked_add(amount) {
                    None => None,
                    Some(available) => {
                        account.funds.available = available;
                        account.transactions.insert(
                            transaction_id,
                            TransactionState::from_amount(amount),
                        );
                        assert(account@ == before.deposited(transaction_id, amount@)) by {
                            assert(account@.transactions =~= before.deposited(
                                transaction_id,
                                amount@,
                            ).transactions);
                        }
                        Some(Ok(()))
                    },
                }
            };
            proof {
                lemma_insert_same(old(self)@, client_id);
            }
            answer
        }
    }

    fn withdrawal(
        &mut self,
        client_id: ClientId,
        transaction_id: TransactionId,
        amount: Amount,
    ) -> (answer: Option<Result<(), PaymentsEngineError>>)
        ensures
            answered(
                old(self)@,
                TransactionView::Withdrawal { client_id, transaction_id, amount: amount@ },
                answer,
                final(self)@,
            ),
    {
        if amount.is_negative() {
            Some(Err(PaymentsEngineError::NegativeAmount))
        } else {
            match self.get_account(client_id) {
                None => Some(Err(PaymentsEngineError::ClientNotFound(client_id))),
                Some(account) => {
                    let ghost before = account@;
                    let answer = if account.locked {
                        Some(Err(PaymentsEngineError::AccountLocked(client_id)))
                    } else if account.transaction_exists(&transaction_id) {
                        Some(Err(PaymentsEngineError::DuplicatedTransaction(transaction_id)))
                    } else if account.funds.available.less_than(amount) {
                        Some(Err(PaymentsEngineError::NotEnoughAvailableFunds))
                    } else {
                        match account.funds.available.checked_sub(amount) {
                            None => None,
                            Some(available) => {
                                account.funds.available = available;
                                account.transactions.insert(
                                    transaction_id,
                                    TransactionState::from_amount(amount.negated()),
                                );
                                assert(account@ == before.withdrawn(transaction_id, amount@)) by {
                                    assert(account@.transactions =~= before.withdrawn(
                                        transaction_id,
                                        amount@,
                                    ).transactions);
                                }
                                Some(Ok(()))
                            },
                        }
                    };
                    proof {
                        lemma_insert_same(old(self)@, client_id);
                    }
                    answer
                },
            }
        }
    }

    fn dispute(&mut self, client_id: ClientId, transaction_id: TransactionId) -> (answer: Option<
        Result<(), PaymentsEngineError>,
    >)
        ensures
            answered(
                old(self)@,
                TransactionView::Dispute { client_id, transaction_id },
                answer,
                final(self)@,
            ),
    {
        match self.get_account(client_id) {
            None => Some(Err(PaymentsEngineError::ClientNotFound(client_id))),
            Some(account) => {
                let ghost before = account@;
                let answer = if account.locked {
                    Some(Err(PaymentsEngineError::AccountLocked(client_id)))
                } else {
                    match account.transactions.get(&transaction_id) {
                        None => Some(
                            Err(PaymentsEngineError::TransactionNotFound(transaction_id)),
                        ),
                        Some(transaction) => {
                            let amount = transaction.amount;
                            if transaction.in_dispute {
                                Some(
                                    Err(
                                        PaymentsEngineError::TransactionAlreadyDisputed(
                                            client_id,
                                            transaction_id,
                                        ),
                                    ),
                                )
                            } else {
                                match (
                                    account.funds.available.checked_sub(amount),
                                    account.funds.held.checked_add(amount),
                                ) {
                                    (Some(available), Some(held)) => {
                                        account.transactions.insert(
                                            transaction_id,
                                            TransactionState::from_dispute(amount),
                                        );
                                        account.funds.available = available;
                                        account.funds.held = held;
                                        assert(account@ == before.disputed(transaction_id)) by {
                                            assert(account@.transactions =~= before.disputed(
                                                transaction_id,
                                            ).transactions);
                                        }
                                        Some(Ok(()))
                                    },
                                    _ => None,
                                }
                            }
                        },
                    }
                };
                proof {
                    lemma_insert_same(old(self)@, client_id);
                }
                answer
            },
        }
    }

    fn resolve(&mut self, client_id: ClientId, transaction_id: TransactionId) -> (answer: Option<
        Result<(), PaymentsEngineError>,
    >)
        ensures
            answered(
                old(self)@,
                TransactionView::Resolve { client_id, transaction_id },
                answer,
                final(self)@,
            ),
    {
        match self.get_account(client_id) {
            None => Some(Err(PaymentsEngineError::ClientNotFound(client_id))),
            Some(account) => {
                let ghost before = account@;
                let answer = match account.transactions.get(&transaction_id) {
                    None => Some(Err(PaymentsEngineError::TransactionNotFound(transaction_id))),
                    Some(transaction) => {
                        let amount = transaction.amount;
                        if !transaction.in_dispute {
                            Some(
                                Err(
                                    PaymentsEngineError::TransactionNotDisputed(
                                        client_id,
                                        transaction_id,
                                    ),
                                ),
                            )
                        } else {
                            match (
                                account.funds.available.checked_add(amount),
                                account.funds.held.checked_sub(amount),
                            ) {
                                (Some(available), Some(held)) => {
                                    account.transactions.insert(
                                        transaction_id,
                                        TransactionState::from_amount(amount),
                                    );
                                    account.funds.available = available;
                                    account.funds.held = held;
                                    assert(account@ == before.resolved(transaction_id)) by {
                                        assert(account@.transactions =~= before.resolved(
                                            transaction_id,
                                        ).transactions);
                                    }
                                    Some(Ok(()))
                                },
                                _ => None,
                            }
                        }
                    },
                };
                proof {
                    lemma_insert_same(old(self)@, client_id);
                }
                answer
            },
        }
    }

    fn chargeback(&mut self, client_id: ClientId, transaction_id: TransactionId) -> (answer:
        Option<Result<(), PaymentsEngineError>>)
        ensures
            answered(
                old(self)@,
                TransactionView::Chargeback { client_id, transaction_id },
                answer,
                final(self)@,
            ),
    {
        match self.get_account(client_id) {
            None => Some(Err(PaymentsEngineError::ClientNotFound(client_id))),
            Some(account) => {
                let ghost before = account@;
                let answer = match account.transactions.get(&transaction_id) {
                    None => Some(Err(PaymentsEngineError::TransactionNotFound(transaction_id))),
                    Some(transaction) => {
                        let amount = transaction.amount;
                        if !transaction.in_dispute {
                            Some(
                                Err(
                                    PaymentsEngineError::TransactionNotDisputed(
                                        client_id,
                                        transaction_id,
                                    ),
                                ),
                            )
                        } else {
                            match account.funds.held.checked_sub(amount) {
                                None => None,
                                Some(held) => {
                                    account.locked = true;
                                    account.funds.held = held;
                                    account.transactions.remove(&transaction_id);
                                    assert(account@ == before.charged_back(transaction_id)) by {
                                        assert(account@.transactions =~= before.charged_back(
                                            transaction_id,
                                        ).transactions);
                                    }
                                    Some(Ok(()))
                                },
                            }
                        }
                    },
                };
                proof {
                    lemma_insert_same(old(self)@, client_id);
                }
                answer
            },
        }
    }

    /// The account of `client_id`, which is opened if there is none.
    fn get_or_create_account(&mut self, client_id: ClientId) -> (account: &mut Account)
        ensures
            account@ == account_of(old(self)@, client_id),
            final(self)@ == old(self)@.insert(client_id, final(account)@),
    {
        self.accounts.entry(client_id).or_insert(Account::default())
    }

    /// The account of `client_id`, if there is one.
    fn get_account(&mut self, client_id: ClientId) -> (account: Option<&mut Account>)
        ensures
            match account {
                Some(account) => {
                    &&& old(self)@.contains_key(client_id)
                    &&& account@ == old(self)@[client_id]
                    &&& final(self)@ == old(self)@.insert(client_id, final(account)@)
                },
                None => !old(self)@.contains_key(client_id) && final(self)@ == old(self)@,
            },
    {
        match self.accounts.entry(client_id) {
            Entry::Occupied(entry) => Some(entry.into_mut()),
            Entry::Vacant(_) => None,
        }
    }
}

impl PaymentsEngine for InMemoryPaymentsEngine {
    open spec fn ledger(&self) -> Ledger {
        self@
    }

    fn process(&mut self, transaction: Transaction) -> (answer: Result<(), PaymentsEngineError>) {
        match self.try_process(transaction) {
            Some(answer) => answer,
            None => Ok(()),
        }
    }

    fn try_process(&mut self, transaction: Transaction) -> (answer: Option<
        Result<(), PaymentsEngineError>,
    >) {
        match transaction {
            Transaction::Deposit { client_id, transaction_id, amount } => self.deposit(
                client_id,
                transaction_id,
                amount,
            ),
            Transaction::Withdrawal { client_id, transaction_id, amount } => self.withdrawal(
                client_id,
                transaction_id,
                amount,
            ),
            Transaction::Dispute { client_id, transaction_id } => self.dispute(
                client_id,
                transaction_id,
            ),
            Transaction::Resolve { client_id, transaction_id } => self.resolve(
                client_id,
                transaction_id,
            ),
            Transaction::Chargeback { client_id, transaction_id } => self.chargeback(
                client_id,
                transaction_id,
            ),
        }
    }

    fn accounts_report(&self) -> (reports: Vec<AccountReport>) {
        match self.try_accounts_report() {
            Some(reports) => reports,
            None => Vec::new(),
        }
    }

    fn try_accounts_report(&self) -> (reports: Option<Vec<AccountReport>>) {
        let mut reports: Vec<AccountReport> = Vec::new();
        let mut complete = true;
        let ghost entries = spec_hash_map_iter(&self.accounts).remaining();
        for entry in iter: self.accounts.iter()
            invariant
                iter.seq() == entries,
                iter.index() <= entries.len(),
                complete ==> reports@.len() == iter.index(),
                complete ==> forall|i: int|
                    0 <= i < reports@.len() ==> (#[trigger] reports@[i])@ == (
                    *iter.seq()[i].1)@.report(*iter.seq()[i].0) && (
                    *iter.seq()[i].1)@.total_fits(),
                !complete ==> exists|i: int|
                    0 <= i < iter.index() && !(#[trigger] iter.seq()[i].1)@.total_fits(),
                iter.seq().len() == self.accounts@.dom().len(),
                iter.seq().no_duplicates(),
                forall|i: int|
                    0 <= i < iter.seq().len() ==> self.accounts@.contains_key(
                        *(#[trigger] iter.seq()[i]).0,
                    ) && self.accounts@[*iter.seq()[i].0] == *iter.seq()[i].1,
                forall|client_id: ClientId| #[trigger]
                    self.accounts@.contains_key(client_id) ==> iter.seq().contains(
                        (&client_id, &self.accounts@[client_id]),
                    ),
        {
            let (client_id, account) = entry;
            if complete {
                match account.funds.available.checked_add(account.funds.held) {
                    None => {
                        complete = false;
                    },
                    Some(total) => {
                        let report = AccountReport::new(
                            *client_id,
                            shown(account.funds.available),
                            shown(account.funds.held),
                            shown(total),
                            account.locked,
                        );
                        assert(report@ == account@.report(*client_id));
                        reports.push(report);
                    },
                }
            }
        }
        proof {
            assert(self@.dom() =~= self.accounts@.dom());
            if complete {
                assert forall|i: int, j: int| 0 <= i < j < reports@.len() implies (
                #[trigger] reports@[i]).client_id != (#[trigger] reports@[j]).client_id by {
                    if *entries[i].0 == *entries[j].0 {
                        assert(entries[i] == entries[j]);
                    }
                }
                assert forall|client_id: ClientId| #[trigger]
                    self@.contains_key(client_id) implies self@[client_id].total_fits()
                    && exists|i: int|
                    0 <= i < reports@.len() && (#[trigger] reports@[i]).client_id == client_id by {
                    let entry = (&client_id, &self.accounts@[client_id]);
                    assert(entries.contains(entry));
                    let i = choose|i: int| 0 <= i < entries.len() && entries[i] == entry;
                    assert(reports@[i].client_id == client_id);
                }
            } else {
                let i = choose|i: int|
                    0 <= i < entries.len() && !(#[trigger] entries[i].1)@.total_fits();
                assert(self@.contains_key(*entries[i].0));
            }
        }
        if complete {
            Some(reports)
        } else {
            None
        }
    }
}

/// An amount as a report shows it.
fn shown(amount: Amount) -> (shown: Amount)
    ensures
        shown@ == amount@.presented(PRECISION as nat),
{
    amount.round_dp(PRECISION).normalized()
}

/// Writing an account back as it was changes nothing.
proof fn lemma_insert_same(ledger: Ledger, client_id: ClientId)
    ensures
        ledger.contains_key(client_id) ==> ledger.insert(client_id, ledger[client_id]) == ledger,
{
    if ledger.contains_key(client_id) {
        assert(ledger.insert(client_id, ledger[client_id]) =~= ledger);
    }
}

} // verus!
