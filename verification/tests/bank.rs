use std::collections::HashMap;
use txn_ledger::amount::{Amount, Decimal};
use txn_ledger::roles::TransactionProcessor;
use txn_ledger::rules::Outcome;
use txn_ledger::text::parse_decimal;
use txn_ledger::{Account, BankContext, Transaction, TransactionType};

fn amount(value: f64) -> Amount {
    Amount::from_units((value * 10_000.0).round() as i128)
}

fn value(amount: Amount) -> f64 {
    amount.units() as f64 / 10_000.0
}

fn decimal(value: f64) -> Decimal {
    parse_decimal(&format!("{}", value)).unwrap()
}

#[test]
fn test_bank_processing() {
    let account_id_1: u16 = 1;
    let account_id_2: u16 = 2;

    let mut accounts: HashMap<u16, Account> = HashMap::new();
    accounts.insert(account_id_1, Account::new(1, amount(1_000.0)));
    let mut bank = BankContext::new(&mut accounts);

    let transaction1 = Transaction::new(1, 1, TransactionType::Withdrawal, Some(decimal(500.0)));
    bank.process(&transaction1, None);

    let transaction2 = Transaction::new(1, 2, TransactionType::Deposit, Some(decimal(250.0)));
    bank.process(&transaction2, None);

    let transaction3 = Transaction::new(2, 3, TransactionType::Deposit, Some(decimal(900.75)));
    bank.process(&transaction3, None);

    let account1 = accounts.get(&account_id_1).unwrap();
    assert_eq!(value(account1.balance()), 750.0);
    assert_eq!(value(account1.available()), 750.0);

    let account2 = accounts.get(&account_id_2).unwrap();
    assert_eq!(value(account2.balance()), 900.75);
    assert_eq!(value(account2.available()), 900.75);
}

#[test]
fn deposit_opens_an_account() {
    let mut accounts: HashMap<u16, Account> = HashMap::new();
    let mut bank = BankContext::new(&mut accounts);
    let deposit = Transaction::new(1, 1, TransactionType::Deposit, Some(decimal(1000.0)));
    assert_eq!(bank.process(&deposit, None), Outcome::Applied);

    assert_eq!(accounts.len(), 1);
    let account = accounts.get(&1).unwrap();
    assert_eq!(account.identifier(), 1);
    assert_eq!(value(account.balance()), 1000.0);
    assert_eq!(value(account.available()), 1000.0);
    assert_eq!(value(account.held()), 0.0);
    assert_eq!(account.locked(), false);
}

#[test]
fn withdrawal_may_exceed_the_balance() {
    let mut accounts: HashMap<u16, Account> = HashMap::new();
    let mut bank = BankContext::new(&mut accounts);
    let withdrawal = Transaction::new(1, 1, TransactionType::Withdrawal, Some(decimal(500.0)));
    let deposit = Transaction::new(1, 2, TransactionType::Deposit, Some(decimal(250.0)));
    assert_eq!(bank.process(&withdrawal, None), Outcome::Applied);
    assert_eq!(bank.process(&deposit, None), Outcome::Applied);

    let account = accounts.get(&1).unwrap();
    assert_eq!(value(account.balance()), -250.0);
    assert_eq!(value(account.available()), -250.0);
}

#[test]
fn dispute_then_resolve_reverses_the_withdrawal() {
    let mut accounts: HashMap<u16, Account> = HashMap::new();
    accounts.insert(1, Account::new(1, amount(1_000.0)));
    let withdrawal = Transaction::new(1, 10, TransactionType::Withdrawal, Some(decimal(200.0)));
    let dispute = Transaction::new(1, 10, TransactionType::Dispute, None);
    let resolve = Transaction::new(1, 10, TransactionType::Resolve, None);
    {
        let mut bank = BankContext::new(&mut accounts);
        assert_eq!(bank.process(&withdrawal, None), Outcome::Applied);
    }
    assert_eq!(value(accounts.get(&1).unwrap().balance()), 800.0);
    {
        let mut bank = BankContext::new(&mut accounts);
        assert_eq!(bank.process(&dispute, Some(&withdrawal)), Outcome::Applied);
    }
    assert_eq!(value(accounts.get(&1).unwrap().held()), 200.0);
    assert_eq!(value(accounts.get(&1).unwrap().balance()), 800.0);
    assert_eq!(value(accounts.get(&1).unwrap().available()), 600.0);
    {
        let mut bank = BankContext::new(&mut accounts);
        assert_eq!(bank.process(&resolve, Some(&withdrawal)), Outcome::Applied);
    }
    let account = accounts.get(&1).unwrap();
    assert_eq!(value(account.held()), 0.0);
    assert_eq!(value(account.balance()), 1_000.0);
    assert_eq!(account.locked(), false);
}

#[test]
fn dispute_then_chargeback_locks_the_account() {
    let mut accounts: HashMap<u16, Account> = HashMap::new();
    accounts.insert(1, Account::new(1, amount(1_000.0)));
    let withdrawal = Transaction::new(1, 10, TransactionType::Withdrawal, Some(decimal(200.0)));
    let dispute = Transaction::new(1, 10, TransactionType::Dispute, None);
    let chargeback = Transaction::new(1, 10, TransactionType::Chargeback, None);
    let mut bank = BankContext::new(&mut accounts);
    bank.process(&withdrawal, None);
    bank.process(&dispute, Some(&withdrawal));
    assert_eq!(bank.process(&chargeback, Some(&withdrawal)), Outcome::Applied);

    let account = accounts.get(&1).unwrap();
    assert_eq!(value(account.held()), 0.0);
    assert_eq!(value(account.balance()), 800.0);
    assert_eq!(account.locked(), true);
}

#[test]
fn resolve_without_dispute_drives_held_below_zero() {
    let mut accounts: HashMap<u16, Account> = HashMap::new();
    let withdrawal = Transaction::new(4, 7, TransactionType::Withdrawal, Some(decimal(30.5)));
    let resolve = Transaction::new(4, 7, TransactionType::Resolve, None);
    let mut bank = BankContext::new(&mut accounts);
    assert_eq!(bank.process(&resolve, Some(&withdrawal)), Outcome::Applied);

    let account = accounts.get(&4).unwrap();
    assert_eq!(account.held().units(), -305_000);
    assert_eq!(account.balance().units(), 305_000);
    assert_eq!(account.available().units(), 610_000);
}

#[test]
fn dispute_class_of_a_deposit_changes_nothing() {
    let deposit = Transaction::new(1, 5, TransactionType::Deposit, Some(decimal(40.0)));
    for kind in [TransactionType::Dispute, TransactionType::Resolve, TransactionType::Chargeback] {
        let mut accounts: HashMap<u16, Account> = HashMap::new();
        accounts.insert(1, Account::new(1, amount(40.0)));
        let mut bank = BankContext::new(&mut accounts);
        let transaction = Transaction::new(1, 5, kind, None);
        assert_eq!(bank.process(&transaction, Some(&deposit)), Outcome::ParentNotWithdrawal);
        assert_eq!(accounts.get(&1).unwrap(), &Account::new(1, amount(40.0)));
    }
}

#[test]
fn dispute_class_without_parent_changes_nothing() {
    for kind in [TransactionType::Dispute, TransactionType::Resolve, TransactionType::Chargeback] {
        let mut accounts: HashMap<u16, Account> = HashMap::new();
        accounts.insert(1, Account::new(1, amount(12.5)));
        let mut bank = BankContext::new(&mut accounts);
        let transaction = Transaction::new(1, 5, kind, None);
        assert_eq!(bank.process(&transaction, None), Outcome::MissingParent);
        assert_eq!(accounts.get(&1).unwrap(), &Account::new(1, amount(12.5)));
        assert_eq!(accounts.len(), 1);
    }
}

#[test]
fn unknown_kind_is_skipped_but_opens_the_account() {
    let mut accounts: HashMap<u16, Account> = HashMap::new();
    let mut bank = BankContext::new(&mut accounts);
    let unknown = Transaction::new(8, 1, TransactionType::Unknown, Some(decimal(3.0)));
    assert_eq!(bank.process(&unknown, None), Outcome::UnknownKind);
    assert_eq!(accounts.get(&8).unwrap(), &Account::new(8, amount(0.0)));
}

#[test]
fn amounts_are_rounded_before_they_are_applied() {
    let mut accounts: HashMap<u16, Account> = HashMap::new();
    let mut bank = BankContext::new(&mut accounts);
    let deposit = Transaction::new(1, 1, TransactionType::Deposit, Some(Decimal::new(112345, 5)));
    let withdrawal =
        Transaction::new(1, 2, TransactionType::Withdrawal, Some(Decimal::new(100004, 5)));
    bank.process(&deposit, None);
    assert_eq!(accounts.get(&1).unwrap().balance().units(), 11_235);
    let mut bank = BankContext::new(&mut accounts);
    bank.process(&withdrawal, None);
    assert_eq!(accounts.get(&1).unwrap().balance().units(), 1_235);
    let mut bank = BankContext::new(&mut accounts);
    let dispute = Transaction::new(1, 2, TransactionType::Dispute, None);
    bank.process(&dispute, Some(&withdrawal));
    assert_eq!(accounts.get(&1).unwrap().held().units(), 10_000);
}

#[test]
fn can_process_tells_what_process_accepts() {
    let mut accounts: HashMap<u16, Account> = HashMap::new();
    accounts.insert(1, Account::new(1, Amount::from_units(i128::MAX)));
    accounts.insert(2, Account::new(2, Amount::from_units(i128::MIN)));
    let bank = BankContext::new(&mut accounts);

    let one = Some(Decimal::new(1, 4));
    let deposit = Transaction::new(1, 1, TransactionType::Deposit, one);
    let withdrawal = Transaction::new(1, 2, TransactionType::Withdrawal, one);
    assert_eq!(bank.can_process(&deposit, None), false);
    assert_eq!(bank.can_process(&withdrawal, None), true);
    assert_eq!(bank.can_process(&Transaction::new(2, 1, TransactionType::Deposit, one), None), true);
    assert_eq!(
        bank.can_process(&Transaction::new(2, 2, TransactionType::Withdrawal, one), None),
        false
    );
    assert_eq!(bank.can_process(&Transaction::new(3, 1, TransactionType::Deposit, None), None), false);
    assert_eq!(
        bank.can_process(&Transaction::new(3, 1, TransactionType::Withdrawal, None), None),
        false
    );
    assert_eq!(bank.can_process(&Transaction::new(3, 1, TransactionType::Unknown, None), None), true);

    let bare = Transaction::new(1, 2, TransactionType::Withdrawal, None);
    for kind in [TransactionType::Dispute, TransactionType::Resolve, TransactionType::Chargeback] {
        let transaction = Transaction::new(1, 2, kind, None);
        assert_eq!(bank.can_process(&transaction, None), true);
        assert_eq!(bank.can_process(&transaction, Some(&deposit)), true);
        assert_eq!(bank.can_process(&transaction, Some(&bare)), false);
    }
    let resolve = Transaction::new(1, 2, TransactionType::Resolve, None);
    let dispute = Transaction::new(1, 2, TransactionType::Dispute, None);
    assert_eq!(bank.can_process(&resolve, Some(&withdrawal)), false);
    assert_eq!(bank.can_process(&dispute, Some(&withdrawal)), true);
}

#[test]
fn batch_looks_parents_up_in_the_whole_history() {
    let transactions = vec![
        Transaction::new(1, 1, TransactionType::Deposit, Some(decimal(100.0))),
        Transaction::new(1, 2, TransactionType::Dispute, None),
        Transaction::new(1, 2, TransactionType::Withdrawal, Some(decimal(30.0))),
        Transaction::new(1, 2, TransactionType::Resolve, None),
        Transaction::new(1, 1, TransactionType::Dispute, None),
        Transaction::new(1, 9, TransactionType::Chargeback, None),
        Transaction::new(2, 5, TransactionType::Unknown, None),
        Transaction::new(1, 2, TransactionType::Dispute, None),
        Transaction::new(1, 2, TransactionType::Chargeback, None),
        Transaction::new(1, 6, TransactionType::Deposit, Some(decimal(1.5))),
    ];
    let mut accounts: HashMap<u16, Account> = HashMap::new();
    let mut bank = BankContext::new(&mut accounts);
    let outcomes = bank.process_all(&transactions).unwrap();
    assert_eq!(
        outcomes,
        vec![
            Outcome::Applied,
            Outcome::Applied,
            Outcome::Applied,
            Outcome::Applied,
            Outcome::ParentNotWithdrawal,
            Outcome::MissingParent,
            Outcome::UnknownKind,
            Outcome::Applied,
            Outcome::Applied,
            Outcome::Applied,
        ]
    );
    assert_eq!(accounts.len(), 2);
    let first = accounts.get(&1).unwrap();
    assert_eq!(value(first.balance()), 101.5);
    assert_eq!(value(first.held()), 0.0);
    assert_eq!(value(first.available()), 101.5);
    assert_eq!(first.locked(), true);
    assert_eq!(accounts.get(&2).unwrap(), &Account::new(2, amount(0.0)));
}

#[test]
fn batch_stops_before_what_cannot_be_applied() {
    let transactions = vec![
        Transaction::new(1, 1, TransactionType::Deposit, Some(decimal(10.0))),
        Transaction::new(1, 2, TransactionType::Deposit, None),
        Transaction::new(1, 3, TransactionType::Deposit, Some(decimal(5.0))),
    ];
    let mut accounts: HashMap<u16, Account> = HashMap::new();
    let mut bank = BankContext::new(&mut accounts);
    assert_eq!(bank.process_all(&transactions), Err(1));
    assert_eq!(accounts.get(&1).unwrap(), &Account::new(1, amount(10.0)));

    let mut empty: HashMap<u16, Account> = HashMap::new();
    let mut bank = BankContext::new(&mut empty);
    assert_eq!(bank.process_all(&Vec::new()), Ok(Vec::new()));
    assert_eq!(empty.len(), 0);
}

#[test]
fn locked_account_still_takes_transactions() {
    let mut accounts: HashMap<u16, Account> = HashMap::new();
    let withdrawal = Transaction::new(1, 1, TransactionType::Withdrawal, Some(decimal(1.0)));
    let chargeback = Transaction::new(1, 1, TransactionType::Chargeback, None);
    let deposit = Transaction::new(1, 2, TransactionType::Deposit, Some(decimal(4.0)));
    let mut bank = BankContext::new(&mut accounts);
    bank.process(&chargeback, Some(&withdrawal));
    bank.process(&deposit, None);
    let account = accounts.get(&1).unwrap();
    assert_eq!(account.locked(), true);
    assert_eq!(value(account.balance()), 4.0);
    assert_eq!(value(account.held()), -1.0);
}
