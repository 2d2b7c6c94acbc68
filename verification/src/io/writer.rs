//! The writer of reports.

use vstd::prelude::*;

verus! {

/// A writer of account reports as comma-separated records. It holds the
/// destination that the records go to.
pub struct CsvAccountsReportWriter<W>(pub W);

impl<W> CsvAccountsReportWriter<W> {
    /// A writer of records to `writer`.
    pub fn new(writer: W) -> (report_writer: Self)
        ensures
            report_writer.0 == writer,
    {
        Self(writer)
    }
}

} // verus!
