//! The bank: accounts by identifier, and the engine that applies
//! transactions to them.

use crate::amount::Amount;
use crate::data::{view_of, Account, Transaction, TransactionType};
use crate::roles::{
    DepositAccount, HoldFundsAccount, LockedAccount, ReleaseFundsAccount, TransactionProcessor,
    WithdrawalAccount,
};
use crate::rules::{
    account_at, acts_on, admits, admits_at, effect, outcome_of, replay, resolved_parent,
    rounded_amount, step, Ledger, Outcome,
};
use crate::utility::{
    find_transaction_parent, is_special_transaction, is_withdrawal, round_amount, views,
};
use std::collections::HashMap;
use vstd::prelude::*;

verus! {

broadcast use vstd::std_specs::hash::group_hash_axioms;

/// Implementing deposit to account.
impl DepositAccount for Account {
    fn increment(&mut self, amount: Amount) -> (balance: Amount) {
        let balance = self.balance_mut();
        *balance = Amount::from_units(balance.units() + amount.units());
        return self.balance();
    }
}

/// Implementing withdrawal from account.
impl WithdrawalAccount for Account {
    fn decrement(&mut self, amount: Amount) -> (balance: Amount) {
        let balance = self.balance_mut();
        *balance = Amount::from_units(balance.units() - amount.units());
        return self.balance();
    }
}

impl HoldFundsAccount for Account {
    fn hold_funds(&mut self, amount: Amount) -> (held: Amount) {
        let held = self.held_mut();
        *held = Amount::from_units(held.units() + amount.units());
        return self.held();
    }
}

impl ReleaseFundsAccount for Account {
    fn release_funds(&mut self, amount: Amount) -> (held: Amount) {
        let held = self.held_mut();
        *held = Amount::from_units(held.units() - amount.units());
        return self.held();
    }
}

impl LockedAccount for Account {
    fn lock(&mut self) {
        *self.locked_mut() = true;
    }

    fn unlock(&mut self) {
        *self.locked_mut() = false;
    }
}

/// The values of the accounts of a map, by identifier.
pub open spec fn ledger_of(accounts: Map<u16, Account>) -> Ledger {
    accounts.map_values(|account: Account| account@)
}

/// Bank.
pub struct BankContext<'a> {
    pub accounts: &'a mut HashMap<u16, Account>,
}

impl<'a> BankContext<'a> {
    /// A bank that works on `accounts` in place: it starts from what the map
    /// holds, and what it leaves there is what the owner of the map finds.
    pub fn new(accounts: &'a mut HashMap<u16, Account>) -> (bank: BankContext<'a>)
        ensures
            *bank.accounts == *old(accounts),
            *final(bank.accounts) == *final(accounts),
    {
        BankContext { accounts }
    }

    /// Whether `process` can apply `transaction`: the amount it needs is
    /// there, and the sums fit.
    pub fn can_process(&self, transaction: &Transaction, parent: Option<&Transaction>) -> (ok: bool)
        ensures
            ok == admits(self.ledger(), transaction@, view_of(parent)),
    {
        let account_id = transaction.account_id();
        let (balance, held): (i128, i128) = match self.accounts.get(&account_id) {
            Some(account) => (account.balance().units(), account.held().units()),
            None => (0, 0),
        };
        match transaction.transaction_type() {
            TransactionType::Unknown => true,
            TransactionType::Deposit => match transaction.transaction_amount() {
                Some(amount) => balance.checked_add(round_amount(amount).units()).is_some(),
                None => false,
            },
            TransactionType::Withdrawal => match transaction.transaction_amount() {
                Some(amount) => balance.checked_sub(round_amount(amount).units()).is_some(),
                None => false,
            },
            TransactionType::Dispute => match moved_amount(parent) {
                Moved::Nothing => true,
                Moved::Unstated => false,
                Moved::Sum(amount) => held.checked_add(amount.units()).is_some(),
            },
            TransactionType::Resolve => match moved_amount(parent) {
                Moved::Nothing => true,
                Moved::Unstated => false,
                Moved::Sum(amount) => held.checked_sub(amount.units()).is_some()
                    && balance.checked_add(amount.units()).is_some(),
            },
            TransactionType::Chargeback => match moved_amount(parent) {
                Moved::Nothing => true,
                Moved::Unstated => false,
                Moved::Sum(amount) => held.checked_sub(amount.units()).is_some(),
            },
        }
    }

    /// Applies `transactions` in order, each with the transaction it refers
    /// to looked up in the whole of `transactions`, and says how each was
    /// dealt with. Stops before the first transaction that cannot be
    /// applied, and returns its position.
    pub fn process_all(&mut self, transactions: &Vec<Transaction>) -> (result: Result<
        Vec<Outcome>,
        usize,
    >)
        ensures
            *final(final(self).accounts) == *final(old(self).accounts),
            match result {
                Ok(outcomes) => {
                    &&& forall|i: int|
                        0 <= i < transactions@.len() ==> admits_at(
                            old(self).ledger(),
                            views(transactions@),
                            i,
                        )
                    &&& final(self).ledger() == replay(
                        old(self).ledger(),
                        views(transactions@),
                        transactions@.len(),
                    )
                    &&& outcomes@.len() == transactions@.len()
                    &&& forall|i: int|
                        0 <= i < transactions@.len() ==> outcomes@[i] == outcome_of(
                            #[trigger] views(transactions@)[i],
                            resolved_parent(views(transactions@), views(transactions@)[i]),
                        )
                },
                Err(position) => {
                    &&& position < transactions@.len()
                    &&& forall|i: int|
                        0 <= i < position ==> admits_at(
                            old(self).ledger(),
                            views(transactions@),
                            i,
                        )
                    &&& !admits_at(old(self).ledger(), views(transactions@), position as int)
                    &&& final(self).ledger() == replay(
                        old(self).ledger(),
                        views(transactions@),
                        position as nat,
                    )
                },
            },
    {
        let ghost start = self.ledger();
        let ghost history = views(transactions@);
        let mut outcomes: Vec<Outcome> = Vec::new();
        let mut position: usize = 0;
        while position < transactions.len()
            invariant
                position <= transactions@.len(),
                history == views(transactions@),
                start == old(self).ledger(),
                *final(self.accounts) == *final(old(self).accounts),
                self.ledger() == replay(start, history, position as nat),
                forall|i: int| 0 <= i < position ==> admits_at(start, history, i),
                outcomes@.len() == position,
                forall|i: int|
                    0 <= i < position ==> outcomes@[i] == outcome_of(
                        #[trigger] history[i],
                        resolved_parent(history, history[i]),
                    ),
            decreases transactions@.len() - position,
        {
            let transaction = &transactions[position];
            let mut parent: Option<&Transaction> = None;
            if is_special_transaction(transaction) {
                parent = find_transaction_parent(transaction, transactions.as_slice());
            }
            if !self.can_process(transaction, parent) {
                return Err(position);
            }
            let outcome = self.process(transaction, parent);
            outcomes.push(outcome);
            position = position + 1;
        }
        Ok(outcomes)
    }
}

/// What a dispute, resolve or chargeback moves.
enum Moved {
    /// Nothing: no transaction is referred to, or one that is no withdrawal.
    Nothing,
    /// The withdrawal referred to states no amount.
    Unstated,
    /// The rounded amount of the withdrawal referred to.
    Sum(Amount),
}

/// What a dispute, resolve or chargeback of `parent` moves.
fn moved_amount(parent: Option<&Transaction>) -> (moved: Moved)
    ensures
        match moved {
            Moved::Nothing => !acts_on(view_of(parent)),
            Moved::Unstated => acts_on(view_of(parent)) && view_of(parent).unwrap().amount is None,
            Moved::Sum(amount) => acts_on(view_of(parent)) && view_of(parent).unwrap().amount
                is Some && amount@ == rounded_amount(view_of(parent).unwrap()),
        },
{
    match parent {
        None => Moved::Nothing,
        Some(parent_transaction) => {
            if is_withdrawal(parent_transaction) {
                match parent_transaction.transaction_amount() {
                    Some(amount) => Moved::Sum(round_amount(amount)),
                    None => Moved::Unstated,
                }
            } else {
                Moved::Nothing
            }
        },
    }
}

impl TransactionProcessor for BankContext<'_> {
    open spec fn ledger(&self) -> Ledger {
        ledger_of((*self.accounts)@)
    }

    fn process(&mut self, transaction: &Transaction, parent: Option<&Transaction>) -> (outcome:
        Outcome)
        ensures
            *final(final(self).accounts) == *final(old(self).accounts),
            final(self).accounts@.contains_key(transaction@.account_id),
            final(self).accounts@[transaction@.account_id]@ == effect(
                account_at(old(self).ledger(), transaction@.account_id),
                transaction@,
                view_of(parent),
            ),
            forall|other: u16|
                other != transaction@.account_id ==> final(self).accounts@.contains_key(other)
                    == old(self).accounts@.contains_key(other),
            forall|other: u16|
                other != transaction@.account_id && old(self).accounts@.contains_key(other)
                    ==> final(self).accounts@[other] == old(self).accounts@[other],
    {
        let account_id = transaction.account_id();
        // if we don't have such account, create a new one, and add to mapping.
        let account = self.accounts.entry(account_id).or_insert(
            Account::new(account_id, Amount::from_units(0)),
        );
        let outcome = match transaction.transaction_type() {
            TransactionType::Unknown => Outcome::UnknownKind,
            TransactionType::Deposit => {
                let amount = transaction.transaction_amount().unwrap();
                account.increment(round_amount(amount));
                Outcome::Applied
            },
            TransactionType::Withdrawal => {
                let amount = transaction.transaction_amount().unwrap();
                account.decrement(round_amount(amount));
                Outcome::Applied
            },
            TransactionType::Dispute => {
                match parent {
                    // ignore if no parent transaction, this is probably an error
                    None => Outcome::MissingParent,
                    Some(parent_transaction) => {
                        if is_withdrawal(parent_transaction) {
                            // the amount is there: the caller has seen to it
                            let hold_amount = round_amount(
                                parent_transaction.transaction_amount().unwrap(),
                            );
                            account.hold_funds(hold_amount);
                            Outcome::Applied
                        } else {
                            Outcome::ParentNotWithdrawal
                        }
                    },
                }
            },
            TransactionType::Resolve => {
                match parent {
                    None => Outcome::MissingParent,
                    Some(parent_transaction) => {
                        // a resolve may come without the dispute it answers;
                        // no track is kept of that.
                        if is_withdrawal(parent_transaction) {
                            let hold_amount = round_amount(
                                parent_transaction.transaction_amount().unwrap(),
                            );
                            account.release_funds(hold_amount);
                            // the funds go back to the account, reversing the transaction
                            account.increment(hold_amount);
                            Outcome::Applied
                        } else {
                            Outcome::ParentNotWithdrawal
                        }
                    },
                }
            },
            TransactionType::Chargeback => {
                match parent {
                    None => Outcome::MissingParent,
                    Some(parent_transaction) => {
                        if is_withdrawal(parent_transaction) {
                            let hold_amount = parent_transaction.transaction_amount().unwrap();
                            account.release_funds(round_amount(hold_amount));
                            // the withdrawal was already made, so the funds stay as they are.
                            account.lock();
                            Outcome::Applied
                        } else {
                            Outcome::ParentNotWithdrawal
                        }
                    },
                }
            },
        };
        assert(final(self).ledger() =~= step(old(self).ledger(), transaction@, view_of(parent)));
        outcome
    }
}

} // verus!
