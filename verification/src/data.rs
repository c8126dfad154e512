//! Accounts and transaction records.

use crate::amount::{Amount, Decimal};
use vstd::prelude::*;

verus! {

/// What an account holds: the mathematical value of an [`Account`].
pub struct AccountState {
    pub account_id: u16,
    /// Total funds before holds, in ten-thousandths.
    pub balance: int,
    /// Funds under dispute, in ten-thousandths.
    pub held: int,
    pub locked: bool,
}

impl AccountState {
    /// The account as it is when a transaction first names it.
    pub open spec fn opened(account_id: u16) -> AccountState {
        AccountState { account_id, balance: 0, held: 0, locked: false }
    }

    /// Funds that are not held.
    pub open spec fn available(self) -> int {
        self.balance - self.held
    }
}

/// Whether `x` can be kept in an [`Amount`].
pub open spec fn fits_amount(x: int) -> bool {
    i128::MIN <= x <= i128::MAX
}

/// Account data structure.
#[derive(Clone, Copy, Debug, PartialEq, Eq)]
pub struct Account {
    account_id: u16,
    balance: Amount,
    held_funds: Amount,
    locked: bool,
}

impl View for Account {
    type V = AccountState;

    closed spec fn view(&self) -> AccountState {
        AccountState {
            account_id: self.account_id,
            balance: self.balance@,
            held: self.held_funds@,
            locked: self.locked,
        }
    }
}

impl Account {
    /// An unlocked account with the given balance and nothing held.
    pub fn new(account_id: u16, balance: Amount) -> (account: Account)
        ensures
            account@ == (AccountState { balance: balance@, ..AccountState::opened(account_id) }),
    {
        return Account { account_id, balance, held_funds: Amount { units: 0 }, locked: false };
    }

    pub fn identifier(&self) -> (account_id: u16)
        ensures
            account_id == self@.account_id,
    {
        return self.account_id;
    }

    pub fn balance(&self) -> (balance: Amount)
        ensures
            balance@ == self@.balance,
    {
        return self.balance;
    }

    /// The balance, to be written in place; nothing else changes.
    pub fn balance_mut(&mut self) -> (balance: &mut Amount)
        ensures
            (*balance)@ == old(self)@.balance,
            final(self)@ == (AccountState { balance: (*final(balance))@, ..old(self)@ }),
    {
        return &mut self.balance;
    }

    /// The balance less what is held.
    pub fn available(&self) -> (available: Amount)
        requires
            fits_amount(self@.available()),
        ensures
            available@ == self@.available(),
    {
        return Amount { units: self.balance.units - self.held_funds.units };
    }

    pub fn held(&self) -> (held: Amount)
        ensures
            held@ == self@.held,
    {
        return self.held_funds;
    }

    /// The held funds, to be written in place; nothing else changes.
    pub fn held_mut(&mut self) -> (held: &mut Amount)
        ensures
            (*held)@ == old(self)@.held,
            final(self)@ == (AccountState { held: (*final(held))@, ..old(self)@ }),
    {
        return &mut self.held_funds;
    }

    pub fn locked(&self) -> (locked: bool)
        ensures
            locked == self@.locked,
    {
        return self.locked;
    }

    /// The lock flag, to be written in place; nothing else changes.
    pub fn locked_mut(&mut self) -> (locked: &mut bool)
        ensures
            *locked == old(self)@.locked,
            final(self)@ == (AccountState { locked: *final(locked), ..old(self)@ }),
    {
        return &mut self.locked;
    }

    /// Two accounts of one value are one account.
    pub proof fn lemma_view_determines(self, other: Account)
        requires
            self@ == other@,
        ensures
            self == other,
    {
    }
}

/// Types of transaction.
#[derive(Clone, Copy, Debug, PartialEq, Eq, Structural)]
pub enum TransactionType {
    Unknown,
    Deposit,
    Withdrawal,
    Dispute,
    Resolve,
    Chargeback,
}

/// The kind that a type string names; unknown if it names none.
pub open spec fn kind_of_text(text: Seq<char>) -> TransactionType {
    if text == "deposit"@ {
        TransactionType::Deposit
    } else if text == "withdrawal"@ {
        TransactionType::Withdrawal
    } else if text == "dispute"@ {
        TransactionType::Dispute
    } else if text == "resolve"@ {
        TransactionType::Resolve
    } else if text == "chargeback"@ {
        TransactionType::Chargeback
    } else {
        TransactionType::Unknown
    }
}

/// Believed of `==` on `str` of std, not proved: it holds of two strings of
/// the same characters, and of no others.
pub assume_specification[ <str as PartialEq>::eq ](left: &str, right: &str) -> (equal: bool)
    ensures
        equal == (left@ == right@),
;

impl From<&str> for TransactionType {
    fn from(string: &str) -> (kind: Self) {
        if string.eq("deposit") {
            TransactionType::Deposit
        } else if string.eq("withdrawal") {
            TransactionType::Withdrawal
        } else if string.eq("dispute") {
            TransactionType::Dispute
        } else if string.eq("resolve") {
            TransactionType::Resolve
        } else if string.eq("chargeback") {
            TransactionType::Chargeback
        } else {
            TransactionType::Unknown
        }
    }
}

impl vstd::std_specs::convert::FromSpecImpl<&str> for TransactionType {
    open spec fn obeys_from_spec() -> bool {
        true
    }

    open spec fn from_spec(string: &str) -> Self {
        kind_of_text(string@)
    }
}

/// What a transaction record says: the mathematical value of a
/// [`Transaction`].
pub struct TransactionView {
    pub transaction_id: u32,
    pub kind: TransactionType,
    pub amount: Option<Decimal>,
    pub account_id: u16,
}

/// Transaction data structure.
#[derive(Clone, Copy, Debug, PartialEq, Eq)]
pub struct Transaction {
    transaction_id: u32,
    transaction_type: TransactionType,
    transaction_amount: Option<Decimal>,
    account_id: u16,
}

impl View for Transaction {
    type V = TransactionView;

    closed spec fn view(&self) -> TransactionView {
        TransactionView {
            transaction_id: self.transaction_id,
            kind: self.transaction_type,
            amount: self.transaction_amount,
            account_id: self.account_id,
        }
    }
}

impl Transaction {
    pub fn new(
        account_id: u16,
        transaction_id: u32,
        transaction_type: TransactionType,
        transaction_amount: Option<Decimal>,
    ) -> (transaction: Transaction)
        ensures
            transaction@ == (TransactionView {
                transaction_id,
                kind: transaction_type,
                amount: transaction_amount,
                account_id,
            }),
    {
        return Transaction { transaction_id, transaction_type, transaction_amount, account_id };
    }

    pub fn transaction_id(&self) -> (transaction_id: u32)
        ensures
            transaction_id == self@.transaction_id,
    {
        return self.transaction_id;
    }

    pub fn transaction_type(&self) -> (kind: &TransactionType)
        ensures
            *kind == self@.kind,
    {
        return &self.transaction_type;
    }

    pub fn transaction_amount(&self) -> (amount: Option<Decimal>)
        ensures
            amount == self@.amount,
    {
        return self.transaction_amount;
    }

    pub fn account_id(&self) -> (account_id: u16)
        ensures
            account_id == self@.account_id,
    {
        return self.account_id;
    }

    /// Two records that say the same are one record.
    pub proof fn lemma_view_determines(self, other: Transaction)
        requires
            self@ == other@,
        ensures
            self == other,
    {
    }
}

/// The value of the record that a lookup found, if it found one.
pub open spec fn view_of(found: Option<&Transaction>) -> Option<TransactionView> {
    match found {
        Some(transaction) => Some(transaction@),
        None => None,
    }
}

} // verus!
