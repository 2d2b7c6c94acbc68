use payments_engine::decimal::{Amount, MAX_MANTISSA};
use payments_engine::payments::{AccountReport, InMemoryPaymentsEngine, Transaction};
use payments_engine::processors::simple::run;

fn dec(mantissa: i128, scale: u32) -> Amount {
    Amount::from_parts(mantissa, scale).unwrap()
}

#[test]
fn run_successfully() {
    let transaction1 =
        Transaction::Deposit { client_id: 1, transaction_id: 102, amount: dec(-10, 0) };

    let transaction2 =
        Transaction::Deposit { client_id: 1, transaction_id: 101, amount: dec(10, 0) };

    let transactions =
        vec![Err("some failure".to_string()), Ok(transaction1), Ok(transaction2)];

    let account_reports = vec![AccountReport::new(1, dec(10, 0), dec(0, 0), dec(10, 0), false)];

    let result = run(transactions, InMemoryPaymentsEngine::new());

    assert!(result.is_some());
    assert_eq!(result.unwrap(), account_reports);
}

#[test]
fn run_of_nothing_reports_nothing() {
    let transactions: Vec<Result<Transaction, String>> = vec![];

    assert_eq!(run(transactions, InMemoryPaymentsEngine::new()), Some(vec![]));
}

#[test]
fn run_passes_over_what_is_refused() {
    let transactions: Vec<Result<Transaction, ()>> = vec![
        Ok(Transaction::Withdrawal { client_id: 1, transaction_id: 1, amount: dec(1, 0) }),
        Ok(Transaction::Deposit { client_id: 1, transaction_id: 2, amount: dec(15, 1) }),
        Err(()),
        Ok(Transaction::Deposit { client_id: 1, transaction_id: 2, amount: dec(15, 1) }),
        Ok(Transaction::Withdrawal { client_id: 1, transaction_id: 3, amount: dec(2, 0) }),
        Ok(Transaction::Withdrawal { client_id: 1, transaction_id: 3, amount: dec(5, 1) }),
        Ok(Transaction::Dispute { client_id: 1, transaction_id: 3 }),
        Ok(Transaction::Resolve { client_id: 1, transaction_id: 2 }),
        Err(()),
    ];

    assert_eq!(
        run(transactions, InMemoryPaymentsEngine::new()),
        Some(vec![AccountReport::new(1, dec(15, 1), dec(-5, 1), dec(10, 1), false)])
    );
}

#[test]
fn run_applies_transactions_in_their_order() {
    let forth: Vec<Result<Transaction, ()>> = vec![
        Ok(Transaction::Deposit { client_id: 1, transaction_id: 1, amount: dec(1, 0) }),
        Ok(Transaction::Withdrawal { client_id: 1, transaction_id: 2, amount: dec(1, 0) }),
    ];
    let back: Vec<Result<Transaction, ()>> = forth.iter().rev().cloned().collect();

    assert_eq!(
        run(forth, InMemoryPaymentsEngine::new()),
        Some(vec![AccountReport::new(1, dec(0, 0), dec(0, 0), dec(0, 0), false)])
    );
    assert_eq!(
        run(back, InMemoryPaymentsEngine::new()),
        Some(vec![AccountReport::new(1, dec(1, 0), dec(0, 0), dec(1, 0), false)])
    );
}

#[test]
fn run_has_no_report_beyond_what_amounts_hold() {
    let transactions: Vec<Result<Transaction, ()>> = vec![
        Ok(Transaction::Deposit { client_id: 1, transaction_id: 1, amount: dec(MAX_MANTISSA, 0) }),
        Ok(Transaction::Deposit { client_id: 1, transaction_id: 2, amount: dec(1, 0) }),
    ];

    assert_eq!(run(transactions, InMemoryPaymentsEngine::new()), None);
}
