//! The reader of transactions.

use vstd::prelude::*;

verus! {

/// A reader of transactions from comma-separated records. It holds the
/// source that the records come from.
pub struct CsvTransactionsReader<R>(pub R);

impl<R> CsvTransactionsReader<R> {
    /// A reader of the records of `reader`.
    pub fn new(reader: R) -> (transactions_reader: Self)
        ensures
            transactions_reader.0 == reader,
    {
        Self(reader)
    }
}

/// The number of fields of a record that gives an amount, which may be empty.
pub const FIELDS: usize = 4;

/// Whether a record of `fields` fields is one that leaves the amount out
/// altogether, as a dispute, a resolve or a chargeback may: such a record is
/// read as if its amount were empty.
pub fn lacks_amount(fields: usize) -> (lacking: bool)
    ensures
        lacking == (fields + 1 == FIELDS),
{
    fields == FIELDS - 1
}

} // verus!
