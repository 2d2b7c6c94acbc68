//! The records that transactions are read from and reports are written as,
//! and the reader and the writer that carry them.

pub mod account;
pub mod reader;
pub mod transaction;
pub mod writer;

pub use reader::CsvTransactionsReader;
pub use writer::CsvAccountsReportWriter;
