//! Records as they come from a delimited file, and the transactions that
//! they write.

use crate::data::{kind_of_text, Transaction, TransactionType, TransactionView};
use crate::text::{decimal_of_text, parse_decimal, parse_unsigned, unsigned_of_text};
use vstd::prelude::*;

verus! {

/// `csv::StringRecord`, a row of text fields. Nothing inside it is seen
/// here: what it holds goes by the name `record_fields`.
#[verifier::external_type_specification]
#[verifier::external_body]
pub struct ExStringRecord(csv::StringRecord);

/// The fields that a record of `csv` holds, in order. The name has no
/// definition here: it stands for what the record was built from.
pub uninterp spec fn record_fields(record: csv::StringRecord) -> Seq<Seq<char>>;

/// Believed of `csv::StringRecord::get`, not proved: it returns the field
/// at position `i`, and nothing where the record has no such field.
pub assume_specification<'a>[ csv::StringRecord::get ](
    record: &'a csv::StringRecord,
    i: usize,
) -> (field: Option<&'a str>)
    ensures
        field is Some <==> i < record_fields(*record).len(),
        field is Some ==> field.unwrap()@ == record_fields(*record)[i as int],
;

/// What `str::trim` of std leaves of a text: the text without the
/// whitespace at its two ends. The name has no definition here, so nothing
/// is known of it but that the same text gives the same result.
pub uninterp spec fn trimmed(text: Seq<char>) -> Seq<char>;

/// Believed of `str::trim` of std, not proved: what it returns depends on
/// the characters of the string alone.
pub assume_specification<'a>[ str::trim ](text: &'a str) -> (inner: &'a str)
    ensures
        inner@ == trimmed(text@),
;

/// Why a record writes no transaction.
#[derive(Clone, Copy, Debug, PartialEq, Eq, Structural)]
pub enum RecordError {
    /// The record has no field at this position.
    MissingField(usize),
    /// The account field is no number of 16 bits.
    InvalidAccount,
    /// The transaction field is no number of 32 bits.
    InvalidTransaction,
    /// The amount field is neither empty nor a decimal.
    InvalidAmount,
}

/// The transaction that four fields write: a type string, an account
/// identifier, a transaction identifier, and an amount or nothing.
pub open spec fn transaction_of_fields(
    kind: Seq<char>,
    account: Seq<char>,
    transaction: Seq<char>,
    amount: Seq<char>,
) -> Result<TransactionView, RecordError> {
    if unsigned_of_text(account, u16::MAX as nat) is None {
        Err(RecordError::InvalidAccount)
    } else if unsigned_of_text(transaction, u32::MAX as nat) is None {
        Err(RecordError::InvalidTransaction)
    } else if amount.len() > 0 && decimal_of_text(amount) is None {
        Err(RecordError::InvalidAmount)
    } else {
        Ok(
            TransactionView {
                transaction_id: unsigned_of_text(transaction, u32::MAX as nat).unwrap() as u32,
                kind: kind_of_text(kind),
                amount: if amount.len() == 0 {
                    None
                } else {
                    decimal_of_text(amount)
                },
                account_id: unsigned_of_text(account, u16::MAX as nat).unwrap() as u16,
            },
        )
    }
}

/// The transaction that a record writes: its first four fields, each
/// without the whitespace at its ends. A field is asked for when the ones
/// before it have been read.
pub open spec fn transaction_of_record(fields: Seq<Seq<char>>) -> Result<
    TransactionView,
    RecordError,
> {
    if fields.len() == 0 {
        Err(RecordError::MissingField(0))
    } else if fields.len() == 1 {
        Err(RecordError::MissingField(1))
    } else if unsigned_of_text(trimmed(fields[1]), u16::MAX as nat) is None {
        Err(RecordError::InvalidAccount)
    } else if fields.len() == 2 {
        Err(RecordError::MissingField(2))
    } else if unsigned_of_text(trimmed(fields[2]), u32::MAX as nat) is None {
        Err(RecordError::InvalidTransaction)
    } else if fields.len() == 3 {
        Err(RecordError::MissingField(3))
    } else {
        transaction_of_fields(
            trimmed(fields[0]),
            trimmed(fields[1]),
            trimmed(fields[2]),
            trimmed(fields[3]),
        )
    }
}

/// The value of the transaction that was read, or why none was.
pub open spec fn read_view(read: Result<Transaction, RecordError>) -> Result<
    TransactionView,
    RecordError,
> {
    match read {
        Ok(transaction) => Ok(transaction@),
        Err(error) => Err(error),
    }
}

impl Transaction {
    /// Reads a transaction from four fields as they stand, with no
    /// whitespace taken off.
    pub fn from_fields(kind: &str, account: &str, transaction: &str, amount: &str) -> (read:
        Result<Transaction, RecordError>)
        ensures
            read_view(read) == transaction_of_fields(kind@, account@, transaction@, amount@),
    {
        let account_id: u16 = match parse_unsigned(account, 0xffff) {
            Some(number) => number as u16,
            None => {
                return Err(RecordError::InvalidAccount);
            },
        };
        let transaction_id: u32 = match parse_unsigned(transaction, 0xffff_ffff) {
            Some(number) => number as u32,
            None => {
                return Err(RecordError::InvalidTransaction);
            },
        };
        let transaction_amount = if amount.is_empty() {
            None
        } else {
            match parse_decimal(amount) {
                Some(decimal) => Some(decimal),
                None => {
                    return Err(RecordError::InvalidAmount);
                },
            }
        };
        Ok(
            Transaction::new(
                account_id,
                transaction_id,
                TransactionType::from(kind),
                transaction_amount,
            ),
        )
    }

    /// Conversion of a record from a delimited file into a transaction.
    pub fn from_record(record: &csv::StringRecord) -> (read: Result<Transaction, RecordError>)
        ensures
            read_view(read) == transaction_of_record(record_fields(*record)),
    {
        let kind = match record.get(0) {
            Some(field) => field.trim(),
            None => {
                return Err(RecordError::MissingField(0));
            },
        };
        let account = match record.get(1) {
            Some(field) => field.trim(),
            None => {
                return Err(RecordError::MissingField(1));
            },
        };
        if parse_unsigned(account, 0xffff).is_none() {
            return Err(RecordError::InvalidAccount);
        }
        let transaction = match record.get(2) {
            Some(field) => field.trim(),
            None => {
                return Err(RecordError::MissingField(2));
            },
        };
        if parse_unsigned(transaction, 0xffff_ffff).is_none() {
            return Err(RecordError::InvalidTransaction);
        }
        let amount = match record.get(3) {
            Some(field) => field.trim(),
            None => {
                return Err(RecordError::MissingField(3));
            },
        };
        Transaction::from_fields(kind, account, transaction, amount)
    }
}

/// A record that writes no transaction, and why.
#[derive(Clone, Copy, Debug, PartialEq, Eq, Structural)]
pub struct ImportError {
    /// The position of the record among those read.
    pub record: usize,
    pub error: RecordError,
}

/// CSV import.
pub struct CsvImportContext<'a> {
    filepath: &'a str,
}

impl<'a> View for CsvImportContext<'a> {
    type V = Seq<char>;

    /// The path of the file to read.
    closed spec fn view(&self) -> Seq<char> {
        self.filepath@
    }
}

impl<'a> CsvImportContext<'a> {
    pub fn new(filepath: &'a str) -> (context: CsvImportContext<'a>)
        ensures
            context@ == filepath@,
    {
        CsvImportContext { filepath }
    }

    /// The path of the file to read.
    pub fn filepath(&self) -> (filepath: &'a str)
        ensures
            filepath@ == self@,
    {
        self.filepath
    }

    /// Turns the records of the file into transactions, in order, and
    /// stops at the first record that writes none.
    pub fn transactions(&self, records: &Vec<csv::StringRecord>) -> (read: Result<
        Vec<Transaction>,
        ImportError,
    >)
        ensures
            match read {
                Ok(transactions) => {
                    &&& transactions@.len() == records@.len()
                    &&& forall|i: int|
                        0 <= i < records@.len() ==> transaction_of_record(
                            record_fields(records@[i]),
                        ) == Ok::<TransactionView, RecordError>(#[trigger] transactions@[i]@)
                },
                Err(failure) => {
                    &&& failure.record < records@.len()
                    &&& forall|i: int|
                        0 <= i < failure.record ==> (#[trigger] transaction_of_record(
                            record_fields(records@[i]),
                        )) is Ok
                    &&& transaction_of_record(record_fields(records@[failure.record as int]))
                        == Err::<TransactionView, RecordError>(failure.error)
                },
            },
    {
        let mut transactions: Vec<Transaction> = Vec::new();
        let mut position: usize = 0;
        while position < records.len()
            invariant
                position <= records@.len(),
                transactions@.len() == position,
                forall|i: int|
                    0 <= i < position ==> transaction_of_record(record_fields(records@[i]))
                        == Ok::<TransactionView, RecordError>(#[trigger] transactions@[i]@),
                forall|i: int|
                    0 <= i < position ==> (#[trigger] transaction_of_record(
                        record_fields(records@[i]),
                    )) is Ok,
            decreases records@.len() - position,
        {
            match Transaction::from_record(&records[position]) {
                Ok(transaction) => {
                    transactions.push(transaction);
                },
                Err(error) => {
                    return Err(ImportError { record: position, error });
                },
            }
            position = position + 1;
        }
        Ok(transactions)
    }
}

} // verus!
