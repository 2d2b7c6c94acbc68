//! A transaction as a record holds it, and what makes it one that the engine
//! takes.

use crate::decimal::Amount;
use crate::payments;
use vstd::prelude::*;
use vstd::string::StrSliceExecFns;
use vstd::utf8::is_ascii_chars;

verus! {

/// The kinds of transaction that a record can name.
#[derive(Debug, Clone, Copy, PartialEq, Eq)]
pub enum TransactionType {
    Deposit,
    Withdrawal,
    Dispute,
    Resolve,
    Chargeback,
}

/// The small letter of an ASCII capital, and any other character as it is.
pub open spec fn lowered(c: char) -> char {
    if 'A' <= c && c <= 'Z' {
        ((c as u8) + 32) as char
    } else {
        c
    }
}

/// Whether `name` is `canonical` when the case of ASCII letters is left
/// aside.
pub open spec fn names(name: Seq<char>, canonical: Seq<char>) -> bool {
    name.map_values(|c: char| lowered(c)) == canonical
}

impl TransactionType {
    /// The kind that `name` names, if it names one: a kind is named by its
    /// name in small letters, and by the same with any of them capital.
    pub open spec fn named(name: Seq<char>) -> Option<TransactionType> {
        if names(name, "deposit"@) {
            Some(TransactionType::Deposit)
        } else if names(name, "withdrawal"@) {
            Some(TransactionType::Withdrawal)
        } else if names(name, "dispute"@) {
            Some(TransactionType::Dispute)
        } else if names(name, "resolve"@) {
            Some(TransactionType::Resolve)
        } else if names(name, "chargeback"@) {
            Some(TransactionType::Chargeback)
        } else {
            None
        }
    }

    /// The kind that `name` names, if it names one.
    pub fn from_name(name: &str) -> (kind: Option<TransactionType>)
        ensures
            kind == TransactionType::named(name@),
    {
        proof {
            reveal_strlit("deposit");
            reveal_strlit("withdrawal");
            reveal_strlit("dispute");
            reveal_strlit("resolve");
            reveal_strlit("chargeback");
        }
        if !name.is_ascii() {
            proof {
                lemma_not_named(name@, "deposit"@);
                lemma_not_named(name@, "withdrawal"@);
                lemma_not_named(name@, "dispute"@);
                lemma_not_named(name@, "resolve"@);
                lemma_not_named(name@, "chargeback"@);
            }
            None
        } else if is_named(name, "deposit") {
            Some(TransactionType::Deposit)
        } else if is_named(name, "withdrawal") {
            Some(TransactionType::Withdrawal)
        } else if is_named(name, "dispute") {
            Some(TransactionType::Dispute)
        } else if is_named(name, "resolve") {
            Some(TransactionType::Resolve)
        } else if is_named(name, "chargeback") {
            Some(TransactionType::Chargeback)
        } else {
            None
        }
    }
}

/// A name with a character outside ASCII is not a name in ASCII, whatever
/// the case of its letters.
proof fn lemma_not_named(name: Seq<char>, canonical: Seq<char>)
    requires
        !is_ascii_chars(name),
        is_ascii_chars(canonical),
    ensures
        !names(name, canonical),
{
    let i = choose|i: int| 0 <= i < name.len() && !('\0' <= #[trigger] name[i] <= '\u{7f}');
    let small = name.map_values(|c: char| lowered(c));
    assert(small[i] == name[i]);
    if small.len() == canonical.len() {
        assert(small[i] != canonical[i]);
    }
}

/// Whether `name` is `canonical` when the case of its letters is left aside.
fn is_named(name: &str, canonical: &str) -> (named: bool)
    requires
        name.is_ascii(),
        canonical.is_ascii(),
    ensures
        named == names(name@, canonical@),
{
    let length = name.unicode_len();
    if length != canonical.unicode_len() {
        return false;
    }
    let mut i: usize = 0;
    while i < length
        invariant
            name.is_ascii(),
            canonical.is_ascii(),
            length == name@.len(),
            length == canonical@.len(),
            i <= length,
            forall|j: int| 0 <= j < i ==> lowered(#[trigger] name@[j]) == canonical@[j],
        decreases length - i,
    {
        let letter = name.get_ascii(i);
        let small = if 65 <= letter && letter <= 90 {
            letter + 32
        } else {
            letter
        };
        if small != canonical.get_ascii(i) {
            proof {
                let small = name@.map_values(|c: char| lowered(c));
                assert(small[i as int] == lowered(name@[i as int]));
            }
            return false;
        }
        i = i + 1;
    }
    proof {
        assert(name@.map_values(|c: char| lowered(c)) =~= canonical@);
    }
    true
}

/// A record of a transaction: its kind, the client, the transaction, and an
/// amount where the record has one.
#[derive(Debug, Clone, Copy, PartialEq, Eq)]
pub struct Transaction {
    pub kind: TransactionType,
    pub client_id: u16,
    pub transaction_id: u32,
    pub amount: Option<Amount>,
}

/// Why a record is no transaction.
#[derive(Debug, Clone, Copy, PartialEq, Eq)]
pub enum RecordError {
    /// The record names no kind of transaction.
    UnknownType,
    /// A deposit or a withdrawal without an amount.
    MissingAmount,
}

impl Transaction {
    /// The record with the kind that `kind` names and the other fields as
    /// they are given.
    pub open spec fn of(
        kind: Seq<char>,
        client_id: u16,
        transaction_id: u32,
        amount: Option<Amount>,
    ) -> Result<Transaction, RecordError> {
        match TransactionType::named(kind) {
            Some(kind) => Ok(Transaction { kind, client_id, transaction_id, amount }),
            None => Err(RecordError::UnknownType),
        }
    }

    /// The record of the given fields, if `kind` names a kind of transaction.
    pub fn from_fields(
        kind: &str,
        client_id: u16,
        transaction_id: u32,
        amount: Option<Amount>,
    ) -> (record: Result<Transaction, RecordError>)
        ensures
            record == Transaction::of(kind@, client_id, transaction_id, amount),
    {
        match TransactionType::from_name(kind) {
            Some(kind) => Ok(Transaction { kind, client_id, transaction_id, amount }),
            None => Err(RecordError::UnknownType),
        }
    }

    /// The transaction that the record stands for: a deposit or a withdrawal
    /// needs its amount, and the other kinds leave theirs aside.
    pub open spec fn parsed(self) -> Result<payments::Transaction, RecordError> {
        match self.kind {
            TransactionType::Deposit => match self.amount {
                Some(amount) => Ok(
                    payments::Transaction::Deposit {
                        client_id: self.client_id,
                        transaction_id: self.transaction_id,
                        amount,
                    },
                ),
                None => Err(RecordError::MissingAmount),
            },
            TransactionType::Withdrawal => match self.amount {
                Some(amount) => Ok(
                    payments::Transaction::Withdrawal {
                        client_id: self.client_id,
                        transaction_id: self.transaction_id,
                        amount,
                    },
                ),
                None => Err(RecordError::MissingAmount),
            },
            TransactionType::Dispute => Ok(
                payments::Transaction::Dispute {
                    client_id: self.client_id,
                    transaction_id: self.transaction_id,
                },
            ),
            TransactionType::Resolve => Ok(
                payments::Transaction::Resolve {
                    client_id: self.client_id,
                    transaction_id: self.transaction_id,
                },
            ),
            TransactionType::Chargeback => Ok(
                payments::Transaction::Chargeback {
                    client_id: self.client_id,
                    transaction_id: self.transaction_id,
                },
            ),
        }
    }
}

impl payments::Transaction {
    /// The transaction that a record stands for.
    pub fn try_from(transaction: Transaction) -> (parsed: Result<Self, RecordError>)
        ensures
            parsed == transaction.parsed(),
    {
        match transaction.kind {
            TransactionType::Deposit => match transaction.amount {
                Some(amount) => Ok(
                    payments::Transaction::Deposit {
                        client_id: transaction.client_id,
                        transaction_id: transaction.transaction_id,
                        amount,
                    },
                ),
                None => Err(RecordError::MissingAmount),
            },
            TransactionType::Withdrawal => match transaction.amount {
                Some(amount) => Ok(
                    payments::Transaction::Withdrawal {
                        client_id: transaction.client_id,
                        transaction_id: transaction.transaction_id,
                        amount,
                    },
                ),
                None => Err(RecordError::MissingAmount),
            },
            TransactionType::Dispute => Ok(
                payments::Transaction::Dispute {
                    client_id: transaction.client_id,
                    transaction_id: transaction.transaction_id,
                },
            ),
            TransactionType::Resolve => Ok(
                payments::Transaction::Resolve {
                    client_id: transaction.client_id,
                    transaction_id: transaction.transaction_id,
                },
            ),
            TransactionType::Chargeback => Ok(
                payments::Transaction::Chargeback {
                    client_id: transaction.client_id,
                    transaction_id: transaction.transaction_id,
                },
            ),
        }
    }
}

} // verus!
