use std::collections::{HashMap, HashSet};

use payments_engine::decimal::Amount;
use payments_engine::payments::{
    Account, AccountReport, Funds, InMemoryPaymentsEngine, PaymentsEngine, PaymentsEngineError,
    Transaction, TransactionState,
};

fn dec(mantissa: i128, scale: u32) -> Amount {
    Amount::from_parts(mantissa, scale).unwrap()
}

fn engine_with(accounts: Vec<(u16, Account)>) -> InMemoryPaymentsEngine {
    InMemoryPaymentsEngine::from_accounts(accounts.into_iter().collect())
}

fn history(transactions: Vec<(u32, TransactionState)>) -> HashMap<u32, TransactionState> {
    transactions.into_iter().collect()
}

#[test]
fn process_deposit_negative_amount() {
    let mut engine = InMemoryPaymentsEngine::new();
    let transaction =
        Transaction::Deposit { client_id: 1, transaction_id: 101, amount: dec(-10, 0) };

    let result = engine.process(transaction);

    assert_eq!(result, Err(PaymentsEngineError::NegativeAmount));
}

#[test]
fn process_deposit_account_locked() {
    let mut engine = engine_with(vec![(1, Account { locked: true, ..Account::default() })]);
    let transaction =
        Transaction::Deposit { client_id: 1, transaction_id: 101, amount: dec(20, 0) };

    let result = engine.process(transaction);

    assert_eq!(result, Err(PaymentsEngineError::AccountLocked(1)));
}

#[test]
fn process_deposit_transaction_exists() {
    let mut engine = engine_with(vec![(
        1,
        Account {
            locked: false,
            funds: Funds::available(dec(10, 0)),
            transactions: history(vec![(101, TransactionState::from_amount(dec(10, 0)))]),
        },
    )]);
    let transaction =
        Transaction::Deposit { client_id: 1, transaction_id: 101, amount: dec(20, 0) };

    let result = engine.process(transaction);

    assert_eq!(result, Err(PaymentsEngineError::DuplicatedTransaction(101)));
}

#[test]
fn process_deposit_successfully() {
    let mut engine = engine_with(vec![(1, Account::default())]);
    let transaction =
        Transaction::Deposit { client_id: 1, transaction_id: 101, amount: dec(10, 0) };

    let result = engine.process(transaction);

    assert_eq!(result, Ok(()));
    assert_eq!(engine.accounts().len(), 1);
    assert_eq!(
        engine.accounts().get(&1).unwrap(),
        &Account {
            locked: false,
            funds: Funds::available(dec(10, 0)),
            transactions: history(vec![(101, TransactionState::from_amount(dec(10, 0)))]),
        }
    );
}

#[test]
fn process_withdrawal_negative_amount() {
    let mut engine = InMemoryPaymentsEngine::new();
    let transaction =
        Transaction::Withdrawal { client_id: 1, transaction_id: 101, amount: dec(-10, 0) };

    let result = engine.process(transaction);

    assert_eq!(result, Err(PaymentsEngineError::NegativeAmount));
}

#[test]
fn process_withdrawal_account_locked() {
    let mut engine = engine_with(vec![(1, Account { locked: true, ..Account::default() })]);
    let transaction =
        Transaction::Withdrawal { client_id: 1, transaction_id: 101, amount: dec(20, 0) };

    let result = engine.process(transaction);

    assert_eq!(result, Err(PaymentsEngineError::AccountLocked(1)));
}

#[test]
fn process_withdrawal_transaction_exists() {
    let mut engine = engine_with(vec![(
        1,
        Account {
            locked: false,
            funds: Funds::available(dec(10, 0)),
            transactions: history(vec![(101, TransactionState::from_amount(dec(10, 0)))]),
        },
    )]);
    let transaction =
        Transaction::Withdrawal { client_id: 1, transaction_id: 101, amount: dec(5, 0) };

    let result = engine.process(transaction);

    assert_eq!(result, Err(PaymentsEngineError::DuplicatedTransaction(101)));
}

#[test]
fn process_withdrawal_not_enough_available_funds() {
    let mut engine = engine_with(vec![(
        1,
        Account {
            locked: false,
            funds: Funds::available(dec(10, 0)),
            transactions: HashMap::default(),
        },
    )]);
    let transaction1 =
        Transaction::Withdrawal { client_id: 1, transaction_id: 101, amount: dec(10, 0) };
    let transaction2 =
        Transaction::Withdrawal { client_id: 1, transaction_id: 102, amount: dec(2, 1) };

    let result = engine.process(transaction1);
    assert!(result.is_ok());

    let result = engine.process(transaction2);

    assert_eq!(result, Err(PaymentsEngineError::NotEnoughAvailableFunds));
}

#[test]
fn process_withdrawal_non_existing_client() {
    let mut engine = InMemoryPaymentsEngine::new();
    let transaction1 =
        Transaction::Withdrawal { client_id: 1, transaction_id: 101, amount: dec(10, 0) };

    let result = engine.process(transaction1);

    assert_eq!(result, Err(PaymentsEngineError::ClientNotFound(1)));
}

#[test]
fn process_withdrawal_successfully() {
    let mut engine = engine_with(vec![(
        1,
        Account {
            locked: false,
            funds: Funds::available(dec(100, 0)),
            transactions: HashMap::default(),
        },
    )]);
    let transaction =
        Transaction::Withdrawal { client_id: 1, transaction_id: 101, amount: dec(10, 0) };

    let result = engine.process(transaction);

    assert!(result.is_ok());
    assert_eq!(engine.accounts().len(), 1);
    assert_eq!(
        engine.accounts().get(&1).unwrap(),
        &Account {
            locked: false,
            funds: Funds::available(dec(90, 0)),
            transactions: history(vec![(101, TransactionState::from_amount(dec(-10, 0)))]),
        }
    );
}

#[test]
fn process_dispute_non_existing_client() {
    let mut engine = InMemoryPaymentsEngine::new();
    let transaction = Transaction::Dispute { client_id: 1, transaction_id: 101 };

    let result = engine.process(transaction);

    assert_eq!(result, Err(PaymentsEngineError::ClientNotFound(1)));
}

#[test]
fn process_dispute_account_locked() {
    let mut engine = engine_with(vec![(1, Account { locked: true, ..Account::default() })]);
    let transaction = Transaction::Dispute { client_id: 1, transaction_id: 101 };

    let result = engine.process(transaction);

    assert_eq!(result, Err(PaymentsEngineError::AccountLocked(1)));
}

#[test]
fn process_dispute_non_existing_transaction() {
    let mut engine = engine_with(vec![(
        1,
        Account {
            locked: false,
            funds: Funds::available(dec(100, 0)),
            transactions: HashMap::default(),
        },
    )]);
    let transaction = Transaction::Dispute { client_id: 1, transaction_id: 101 };

    let result = engine.process(transaction);

    assert_eq!(result, Err(PaymentsEngineError::TransactionNotFound(101)));
}

#[test]
fn process_dispute_already_disputed() {
    let mut engine = engine_with(vec![(
        1,
        Account {
            locked: false,
            funds: Funds::available(dec(100, 0)),
            transactions: history(vec![(101, TransactionState::from_dispute(dec(10, 0)))]),
        },
    )]);
    let transaction = Transaction::Dispute { client_id: 1, transaction_id: 101 };

    let result = engine.process(transaction);

    assert_eq!(result, Err(PaymentsEngineError::TransactionAlreadyDisputed(1, 101)));
}

#[test]
fn process_dispute_successfully() {
    let mut engine = engine_with(vec![(
        1,
        Account {
            locked: false,
            funds: Funds::available(dec(110, 0)),
            transactions: history(vec![(101, TransactionState::from_amount(dec(10, 0)))]),
        },
    )]);
    let transaction = Transaction::Dispute { client_id: 1, transaction_id: 101 };

    let result = engine.process(transaction);

    assert!(result.is_ok());
    assert_eq!(
        engine.accounts().get(&1).unwrap(),
        &Account {
            locked: false,
            funds: Funds::new(dec(100, 0), dec(10, 0)),
            transactions: history(vec![(101, TransactionState::from_dispute(dec(10, 0)))]),
        }
    );
}

#[test]
fn process_resolve_non_existing_client() {
    let mut engine = InMemoryPaymentsEngine::new();
    let transaction = Transaction::Resolve { client_id: 1, transaction_id: 101 };

    let result = engine.process(transaction);

    assert_eq!(result, Err(PaymentsEngineError::ClientNotFound(1)));
}

#[test]
fn process_resolve_non_existing_transaction() {
    let mut engine = engine_with(vec![(
        1,
        Account {
            locked: false,
            funds: Funds::available(dec(100, 0)),
            transactions: HashMap::default(),
        },
    )]);
    let transaction = Transaction::Resolve { client_id: 1, transaction_id: 101 };

    let result = engine.process(transaction);

    assert_eq!(result, Err(PaymentsEngineError::TransactionNotFound(101)));
}

#[test]
fn process_resolve_not_disputed() {
    let mut engine = engine_with(vec![(
        1,
        Account {
            locked: false,
            funds: Funds::available(dec(100, 0)),
            transactions: history(vec![(101, TransactionState::from_amount(dec(10, 0)))]),
        },
    )]);
    let transaction = Transaction::Resolve { client_id: 1, transaction_id: 101 };

    let result = engine.process(transaction);

    assert_eq!(result, Err(PaymentsEngineError::TransactionNotDisputed(1, 101)));
}

#[test]
fn process_resolve_successfully() {
    let mut engine = engine_with(vec![(
        1,
        Account {
            locked: false,
            funds: Funds::new(dec(100, 0), dec(10, 0)),
            transactions: history(vec![(101, TransactionState::from_dispute(dec(10, 0)))]),
        },
    )]);
    let transaction = Transaction::Resolve { client_id: 1, transaction_id: 101 };

    let result = engine.process(transaction);

    assert!(result.is_ok());
    assert_eq!(
        engine.accounts().get(&1).unwrap(),
        &Account {
            locked: false,
            funds: Funds::available(dec(110, 0)),
            transactions: history(vec![(101, TransactionState::from_amount(dec(10, 0)))]),
        }
    );
}

#[test]
fn process_chargeback_non_existing_client() {
    let mut engine = InMemoryPaymentsEngine::new();
    let transaction = Transaction::Chargeback { client_id: 1, transaction_id: 101 };

    let result = engine.process(transaction);

    assert_eq!(result, Err(PaymentsEngineError::ClientNotFound(1)));
}

#[test]
fn process_chargeback_non_existing_transaction() {
    let mut engine = engine_with(vec![(
        1,
        Account {
            locked: false,
            funds: Funds::available(dec(100, 0)),
            transactions: HashMap::default(),
        },
    )]);
    let transaction = Transaction::Chargeback { client_id: 1, transaction_id: 101 };

    let result = engine.process(transaction);

    assert_eq!(result, Err(PaymentsEngineError::TransactionNotFound(101)));
}

#[test]
fn process_chargeback_not_disputed() {
    let mut engine = engine_with(vec![(
        1,
        Account {
            locked: false,
            funds: Funds::available(dec(100, 0)),
            transactions: history(vec![(101, TransactionState::from_amount(dec(10, 0)))]),
        },
    )]);
    let transaction = Transaction::Chargeback { client_id: 1, transaction_id: 101 };

    let result = engine.process(transaction);

    assert_eq!(result, Err(PaymentsEngineError::TransactionNotDisputed(1, 101)));
}

#[test]
fn process_chargeback_successfully() {
    let mut engine = engine_with(vec![(
        1,
        Account {
            locked: false,
            funds: Funds::new(dec(100, 0), dec(10, 0)),
            transactions: history(vec![(101, TransactionState::from_dispute(dec(10, 0)))]),
        },
    )]);
    let transaction = Transaction::Chargeback { client_id: 1, transaction_id: 101 };

    let result = engine.process(transaction);

    assert!(result.is_ok());
    assert_eq!(
        engine.accounts().get(&1).unwrap(),
        &Account {
            locked: true,
            funds: Funds::available(dec(100, 0)),
            transactions: HashMap::default(),
        }
    );
}

#[test]
fn accounts_report_empty() {
    let engine = InMemoryPaymentsEngine::new();

    let report: Vec<AccountReport> = engine.accounts_report();

    assert_eq!(report, vec![]);
}

#[test]
fn accounts_report_success() {
    let engine = engine_with(vec![
        (
            1,
            Account {
                locked: false,
                funds: Funds::available(dec(10100015, 5)),
                transactions: history(vec![(101, TransactionState::from_dispute(dec(10, 0)))]),
            },
        ),
        (
            2,
            Account {
                locked: false,
                funds: Funds::new(dec(20000005, 5), dec(-10, 0)),
                ..Account::default()
            },
        ),
        (
            3,
            Account { locked: true, funds: Funds::available(dec(300, 0)), ..Account::default() },
        ),
    ]);

    let report: HashSet<AccountReport> = engine.accounts_report().into_iter().collect();

    // A tie goes away from zero: 200.00005 is shown as 200.0001.
    assert_eq!(
        report,
        vec![
            AccountReport::new(1, dec(1010002, 4), dec(0, 0), dec(1010002, 4), false),
            AccountReport::new(2, dec(2000001, 4), dec(-10, 0), dec(1900001, 4), false),
            AccountReport::new(3, dec(300, 0), dec(0, 0), dec(300, 0), true),
        ]
        .into_iter()
        .collect()
    );
}
