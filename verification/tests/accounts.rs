use txn_ledger::amount::Amount;
use txn_ledger::data::Account;
use txn_ledger::roles::{
    DepositAccount, HoldFundsAccount, LockedAccount, ReleaseFundsAccount, WithdrawalAccount,
};

fn amount(value: f64) -> Amount {
    Amount::from_units((value * 10_000.0).round() as i128)
}

fn value(amount: Amount) -> f64 {
    amount.units() as f64 / 10_000.0
}

#[test]
fn test_account() {
    let account = Account::new(1, amount(1_000.0));
    assert_eq!(account.identifier(), 1);
    assert_eq!(value(account.balance()), 1_000.0);
    assert_eq!(value(account.available()), 1_000.0);
    assert_eq!(value(account.held()), 0.0);
    assert_eq!(account.locked(), false);
}

#[test]
fn test_account_deposit() {
    let mut account = Account::new(1, amount(1_000.0));
    account.increment(amount(500.0));
    assert_eq!(value(account.balance()), 1_500.0);
}

#[test]
fn test_account_withdrawal() {
    let mut account = Account::new(1, amount(1_000.0));
    account.decrement(amount(750.0));
    assert_eq!(value(account.balance()), 250.0);
}

#[test]
fn test_account_hold_funds() {
    let mut account = Account::new(1, amount(1_000.0));
    account.hold_funds(amount(100.0));
    assert_eq!(value(account.held()), 100.0);
    assert_eq!(value(account.available()), 900.0);
    assert_eq!(value(account.balance()), 1_000.0);
}

#[test]
fn test_account_release_funds() {
    let mut account = Account::new(1, amount(1_000.0));
    account.hold_funds(amount(500.0));
    assert_eq!(value(account.held()), 500.0);

    account.release_funds(amount(250.0));
    assert_eq!(value(account.available()), 750.0);
    assert_eq!(value(account.balance()), 1_000.0);
}

#[test]
fn test_account_lock() {
    let mut account = Account::new(1, amount(1_000.0));

    account.lock();
    assert_eq!(account.locked(), true);

    account.unlock();
    assert_eq!(account.locked(), false);
}

#[test]
fn operations_return_the_new_value() {
    let mut account = Account::new(9, Amount::from_units(10_000));
    assert_eq!(account.increment(Amount::from_units(5)).units(), 10_005);
    assert_eq!(account.decrement(Amount::from_units(20_005)).units(), -10_000);
    assert_eq!(account.hold_funds(Amount::from_units(7)).units(), 7);
    assert_eq!(account.release_funds(Amount::from_units(10)).units(), -3);
    assert_eq!(account.balance().units(), -10_000);
    assert_eq!(account.held().units(), -3);
    assert_eq!(account.available().units(), -9_997);
    assert_eq!(account.identifier(), 9);
    assert_eq!(account.locked(), false);
}

#[test]
fn fields_are_written_in_place() {
    let mut account = Account::new(3, Amount::from_units(1));
    *account.balance_mut() = Amount::from_units(25);
    *account.held_mut() = Amount::from_units(4);
    *account.locked_mut() = true;
    assert_eq!(account.balance().units(), 25);
    assert_eq!(account.held().units(), 4);
    assert_eq!(account.available().units(), 21);
    assert_eq!(account.locked(), true);
    assert_eq!(account.identifier(), 3);
}

#[test]
fn amounts_at_the_limits_are_kept() {
    let mut account = Account::new(1, Amount::from_units(i128::MAX - 1));
    assert_eq!(account.increment(Amount::from_units(1)).units(), i128::MAX);
    assert_eq!(account.decrement(Amount::from_units(i128::MAX)).units(), 0);
    assert_eq!(account.release_funds(Amount::from_units(i128::MAX)).units(), -i128::MAX);
    assert_eq!(account.hold_funds(Amount::from_units(i128::MAX)).units(), 0);
}
