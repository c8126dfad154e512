//! The capabilities of an account, and of an engine that processes
//! transactions.

use crate::amount::Amount;
use crate::data::{fits_amount, view_of, AccountState, Transaction};
use crate::rules::{admits, outcome_of, step, Ledger, Outcome};
use vstd::prelude::*;

verus! {

pub trait DepositAccount: View<V = AccountState> {
    /// Adds `amount` to the balance and returns the new balance.
    fn increment(&mut self, amount: Amount) -> (balance: Amount)
        requires
            fits_amount(old(self)@.balance + amount@),
        ensures
            final(self)@ == (AccountState {
                balance: old(self)@.balance + amount@,
                ..old(self)@
            }),
            balance@ == final(self)@.balance,
    ;
}

pub trait WithdrawalAccount: View<V = AccountState> {
    /// Takes `amount` from the balance, which may go below zero, and
    /// returns the new balance.
    fn decrement(&mut self, amount: Amount) -> (balance: Amount)
        requires
            fits_amount(old(self)@.balance - amount@),
        ensures
            final(self)@ == (AccountState {
                balance: old(self)@.balance - amount@,
                ..old(self)@
            }),
            balance@ == final(self)@.balance,
    ;
}

pub trait HoldFundsAccount: View<V = AccountState> {
    /// Adds `amount` to the held funds and returns the new held funds.
    fn hold_funds(&mut self, amount: Amount) -> (held: Amount)
        requires
            fits_amount(old(self)@.held + amount@),
        ensures
            final(self)@ == (AccountState { held: old(self)@.held + amount@, ..old(self)@ }),
            held@ == final(self)@.held,
    ;
}

pub trait ReleaseFundsAccount: View<V = AccountState> {
    /// Takes `amount` from the held funds, which may go below zero, and
    /// returns the new held funds.
    fn release_funds(&mut self, amount: Amount) -> (held: Amount)
        requires
            fits_amount(old(self)@.held - amount@),
        ensures
            final(self)@ == (AccountState { held: old(self)@.held - amount@, ..old(self)@ }),
            held@ == final(self)@.held,
    ;
}

pub trait LockedAccount: View<V = AccountState> {
    /// Sets the lock flag.
    fn lock(&mut self)
        ensures
            final(self)@ == (AccountState { locked: true, ..old(self)@ }),
    ;

    /// Clears the lock flag.
    fn unlock(&mut self)
        ensures
            final(self)@ == (AccountState { locked: false, ..old(self)@ }),
    ;
}

pub trait TransactionProcessor {
    /// The accounts that the processor keeps, by identifier.
    spec fn ledger(&self) -> Ledger;

    /// Applies `transaction`, whose referenced transaction is `parent`, to
    /// the accounts, and says how it was dealt with.
    fn process(&mut self, transaction: &Transaction, parent: Option<&Transaction>) -> (outcome:
        Outcome)
        requires
            admits(old(self).ledger(), transaction@, view_of(parent)),
        ensures
            final(self).ledger() == step(old(self).ledger(), transaction@, view_of(parent)),
            outcome == outcome_of(transaction@, view_of(parent)),
    ;
}

} // verus!
