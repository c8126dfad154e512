//! Rounding, and the questions that the engine asks of a transaction.

use crate::amount::{Amount, Decimal};
use crate::data::{view_of, Transaction, TransactionType, TransactionView};
use crate::rules::{is_dispute_class, is_parent_of, is_real, parent_in, parent_position};
use vstd::prelude::*;

verus! {

/// Rounds to four fractional digits, half away from zero.
pub fn round_amount(amount: Decimal) -> (rounded: Amount)
    ensures
        rounded@ == amount.rounded_units(),
{
    amount.round()
}

/// Whether a dispute can refer to `transaction`: deposits and withdrawals
/// only.
pub fn filter_real_transactions(transaction: &&Transaction) -> (eligible: bool)
    ensures
        eligible == is_real(transaction@.kind),
{
    matches!(transaction.transaction_type(), TransactionType::Deposit) || matches!(
        transaction.transaction_type(),
        TransactionType::Withdrawal
    )
}

/// Whether `transaction` refers to an earlier transaction.
pub fn is_special_transaction(transaction: &Transaction) -> (special: bool)
    ensures
        special == is_dispute_class(transaction@.kind),
{
    match transaction.transaction_type() {
        TransactionType::Unknown => false,
        TransactionType::Deposit => false,
        TransactionType::Withdrawal => false,
        TransactionType::Dispute => true,
        TransactionType::Resolve => true,
        TransactionType::Chargeback => true,
    }
}

pub fn is_withdrawal(transaction: &Transaction) -> (withdrawal: bool)
    ensures
        withdrawal == (transaction@.kind == TransactionType::Withdrawal),
{
    return matches!(transaction.transaction_type(), TransactionType::Withdrawal);
}

/// The views of the records of a history, in order.
pub open spec fn views(history: Seq<Transaction>) -> Seq<TransactionView> {
    history.map_values(|transaction: Transaction| transaction@)
}

/// The record that a lookup found, if it found one.
pub open spec fn found_record(found: Option<&Transaction>) -> Option<Transaction> {
    match found {
        Some(transaction) => Some(*transaction),
        None => None,
    }
}

/// Whether `found` is what the lookup gives for `transaction` in
/// `transactions`: the first deposit or withdrawal of `transactions` that
/// has the identifier of `transaction`, or nothing where there is none.
pub open spec fn is_lookup_of(
    found: Option<Transaction>,
    transaction: Transaction,
    transactions: Seq<Transaction>,
) -> bool {
    match found {
        Some(parent) => exists|position: int|
            {
                &&& 0 <= position < transactions.len()
                &&& parent == #[trigger] transactions[position]
                &&& is_parent_of(parent@, transaction@.transaction_id)
                &&& forall|earlier: int|
                    0 <= earlier < position ==> !is_parent_of(
                        (#[trigger] transactions[earlier])@,
                        transaction@.transaction_id,
                    )
            },
        None => forall|position: int|
            0 <= position < transactions.len() ==> !is_parent_of(
                (#[trigger] transactions[position])@,
                transaction@.transaction_id,
            ),
    }
}

/// Filter only deposit and withdrawal transactions, and find the first one
/// that matches the identifier. The history is read and left as it is.
pub fn find_transaction_parent<'a>(
    transaction: &'a Transaction,
    transactions: &'a [Transaction],
) -> (parent: Option<&'a Transaction>)
    ensures
        is_lookup_of(found_record(parent), *transaction, transactions@),
        view_of(parent) == parent_in(views(transactions@), transaction@),
{
    let ghost history = views(transactions@);
    let wanted: u32 = transaction.transaction_id();
    let mut index: usize = 0;
    while index < transactions.len()
        invariant
            index <= transactions@.len(),
            history == views(transactions@),
            wanted == transaction@.transaction_id,
            parent_position(history, wanted, 0) == parent_position(history, wanted, index as int),
            forall|earlier: int|
                0 <= earlier < index ==> !is_parent_of((#[trigger] transactions@[earlier])@, wanted),
        decreases transactions@.len() - index,
    {
        let candidate = &transactions[index];
        if filter_real_transactions(&candidate) && candidate.transaction_id() == wanted {
            return Some(candidate);
        }
        index = index + 1;
    }
    None
}

/// The lookup is a function of its arguments: two results for the same
/// transaction and the same history are the same.
pub proof fn lemma_lookup_is_determined(
    first: Option<Transaction>,
    second: Option<Transaction>,
    transaction: Transaction,
    transactions: Seq<Transaction>,
)
    requires
        is_lookup_of(first, transaction, transactions),
        is_lookup_of(second, transaction, transactions),
    ensures
        first == second,
{
}

/// What the lookup finds is a deposit or a withdrawal of the identifier
/// asked for, and a record of the history; a dispute, a resolve or a
/// chargeback of that identifier is never returned.
pub proof fn lemma_lookup_finds_real(
    found: Transaction,
    transaction: Transaction,
    transactions: Seq<Transaction>,
)
    requires
        is_lookup_of(Some(found), transaction, transactions),
    ensures
        transactions.contains(found),
        found@.transaction_id == transaction@.transaction_id,
        found@.kind == TransactionType::Deposit || found@.kind == TransactionType::Withdrawal,
        !is_dispute_class(found@.kind),
{
}

} // verus!
