//! A ledger of accounts that a batch of transactions is applied to:
//! deposits and withdrawals, and the disputes, resolves and chargebacks
//! that refer to them.
//!
//! Money is exact. A record carries a [`Decimal`], a whole number of some
//! power of ten; an account keeps [`Amount`]s, whole numbers of
//! ten-thousandths. Every amount is rounded to four fractional digits, half
//! away from zero, before it reaches an account.
//!
//! [`rules`] states what a transaction does to the accounts, and
//! [`BankContext`] does it: `process` for one transaction, `process_all` for
//! a batch, each transaction with the deposit or withdrawal it refers to.
//! [`import`] reads transactions from the records of a delimited file, and
//! [`export`] writes the summary of the accounts as rows of text.

pub mod amount;
pub mod context;
pub mod data;
pub mod export;
pub mod import;
pub mod roles;
pub mod rules;
pub mod text;
pub mod utility;

pub use crate::amount::{Amount, Decimal};
pub use crate::context::BankContext;
pub use crate::data::{Account, Transaction, TransactionType};
pub use crate::export::CsvExportContext;
pub use crate::import::CsvImportContext;
pub use crate::roles::TransactionProcessor;
pub use crate::rules::Outcome;
pub use crate::utility::{find_transaction_parent, is_special_transaction};
