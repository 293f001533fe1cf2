use payments::account::{Account, AccountError, ClientId, Number};
use payments::ledger::{
    process_transactions, transition, Ledger, Operation, Transaction, TransactionError,
    TransactionId, TransactionState,
};

fn num(mantissa: i128, scale: u32) -> Number {
    Number::with_scale(mantissa, scale).unwrap()
}

fn units(units: i64) -> Number {
    Number { units }
}

#[test]
fn verify_precision() {
    let mut a = Number::zero();
    for _ in 0..10_000 {
        a = a.checked_add(num(1, 4)).unwrap();
    }
    assert_eq!(a, Number::one());
    for _ in 0..10_000 {
        a = a.checked_sub(num(1, 4)).unwrap();
    }
    assert_eq!(a, Number::zero());
}

#[test]
fn mixed_amounts_return_to_start() {
    let amounts = vec![num(12345, 4), num(-7, 1), num(3, 0), num(99, 2)];
    let start = num(5, 3);
    let mut a = start;
    for x in amounts.iter() {
        a = a.checked_add(*x).unwrap();
    }
    assert_eq!(a.units, 50 + 12345 - 7000 + 30000 + 9900);
    for x in amounts.iter() {
        a = a.checked_sub(*x).unwrap();
    }
    assert_eq!(a, start);
}

#[test]
fn with_scale_values() {
    assert_eq!(num(500, 1).units, 500000);
    assert_eq!(num(9999, 4).units, 9999);
    assert_eq!(num(-10, 1).units, -10000);
    assert_eq!(num(7, 0).units, 70000);
    assert_eq!(Number::with_scale(1, 5), None);
    assert_eq!(Number::with_scale(i64::MAX as i128, 0), None);
    assert_eq!(Number::with_scale(i64::MAX as i128, 4), Some(units(i64::MAX)));
    assert_eq!(Number::with_scale(i128::MAX, 4), None);
}

#[test]
fn checked_arithmetic_limits() {
    assert_eq!(units(i64::MAX).checked_add(units(1)), None);
    assert_eq!(units(i64::MIN).checked_sub(units(1)), None);
    assert_eq!(units(5).checked_add(units(-7)), Some(units(-2)));
    assert_eq!(units(5).checked_sub(units(7)), Some(units(-2)));
}

#[test]
fn account_total() {
    let mut a = Account::new();
    assert!(a.deposit(num(5, 0)).is_ok());
    assert!(a.dispute(num(2, 0)).is_ok());
    assert_eq!(a.available(), num(3, 0));
    assert_eq!(a.held(), num(2, 0));
    assert_eq!(a.total(), num(5, 0));
}

#[test]
fn deposit_overflow() {
    let mut a = Account::new();
    assert!(a.deposit(units(i64::MAX)).is_ok());
    let before = a;
    assert_eq!(
        a.deposit(units(1)),
        Err(AccountError::Overflow {
            available: units(i64::MAX),
            held: Number::zero(),
            transaction_amount: units(1)
        })
    );
    assert_eq!(a, before);
}

#[test]
fn deposit_to_locked_account_is_allowed() {
    let mut a = Account::new();
    assert!(a.chargeback(Number::zero()).is_ok());
    assert!(a.locked());
    assert!(a.deposit(num(1, 0)).is_ok());
    assert_eq!(a.available(), num(1, 0));
}

#[test]
fn withdraw_from_locked_account() {
    let mut a = Account::new();
    assert!(a.deposit(num(10, 0)).is_ok());
    assert!(a.chargeback(Number::zero()).is_ok());
    let before = a;
    assert_eq!(a.withdraw(num(1, 0)), Err(AccountError::FrozenAccount(before)));
    assert_eq!(a, before);
    assert_eq!(a.check_locked(), Err(AccountError::FrozenAccount(before)));
}

#[test]
fn withdraw_negative_amount_overflow() {
    let mut a = Account::new();
    assert!(a.deposit(units(i64::MAX)).is_ok());
    assert_eq!(
        a.withdraw(units(-1)),
        Err(AccountError::Overflow {
            available: units(i64::MAX),
            held: Number::zero(),
            transaction_amount: units(-1)
        })
    );
}

#[test]
fn dispute_errors_leave_account_unchanged() {
    let mut a = Account::new();
    assert!(a.withdraw(Number::zero()).is_ok());
    assert!(a.dispute(units(i64::MAX)).is_ok());
    assert_eq!(a.available(), units(-i64::MAX));
    let before = a;
    assert_eq!(
        a.dispute(units(2)),
        Err(AccountError::Underflow {
            available: units(-i64::MAX),
            held: units(i64::MAX),
            transaction_amount: units(2)
        })
    );
    assert_eq!(a, before);
    let mut b = Account::new();
    assert!(b.dispute(units(i64::MAX)).is_ok());
    assert!(b.deposit(units(i64::MAX)).is_ok());
    let before = b;
    assert_eq!(
        b.dispute(units(1)),
        Err(AccountError::Overflow {
            available: units(0),
            held: units(i64::MAX),
            transaction_amount: units(1)
        })
    );
    assert_eq!(b, before);
}

#[test]
fn resolve_errors_leave_account_unchanged() {
    let mut a = Account::new();
    assert!(a.deposit(units(i64::MAX)).is_ok());
    let before = a;
    assert_eq!(
        a.resolve(units(1)),
        Err(AccountError::Overflow {
            available: units(i64::MAX),
            held: units(0),
            transaction_amount: units(1)
        })
    );
    assert_eq!(a, before);
    let mut b = Account::new();
    assert!(b.resolve(units(i64::MAX)).is_ok());
    assert!(b.withdraw(units(i64::MAX)).is_ok());
    assert_eq!(b.held(), units(-i64::MAX));
    let before = b;
    assert_eq!(
        b.resolve(units(2)),
        Err(AccountError::Underflow {
            available: units(0),
            held: units(-i64::MAX),
            transaction_amount: units(2)
        })
    );
    assert_eq!(b, before);
}

#[test]
fn chargeback_underflow() {
    let mut a = Account::new();
    assert!(a.resolve(units(i64::MAX)).is_ok());
    let before = a;
    assert_eq!(
        a.chargeback(units(2)),
        Err(AccountError::Underflow {
            available: units(i64::MAX),
            held: units(-i64::MAX),
            transaction_amount: units(2)
        })
    );
    assert_eq!(a, before);
    assert!(!a.locked());
}

#[test]
fn transition_table() {
    let id = TransactionId(3);
    let deposit = Transaction::new(ClientId(1), num(1, 0), Operation::Deposit);
    let withdrawal = Transaction::new(ClientId(1), num(1, 0), Operation::Withdrawal);
    let mut disputed = deposit;
    disputed.state = TransactionState::Disputed;
    let mut charged = deposit;
    charged.state = TransactionState::Chargedback;
    assert_eq!(transition(&deposit, Operation::Dispute, id), Ok(TransactionState::Disputed));
    assert_eq!(transition(&withdrawal, Operation::Dispute, id), Err(TransactionError::AlreadyDisputed(id)));
    assert_eq!(transition(&disputed, Operation::Dispute, id), Err(TransactionError::AlreadyDisputed(id)));
    assert_eq!(transition(&disputed, Operation::Resolve, id), Ok(TransactionState::Undisputed));
    assert_eq!(transition(&disputed, Operation::Chargeback, id), Ok(TransactionState::Chargedback));
    assert_eq!(transition(&deposit, Operation::Resolve, id), Err(TransactionError::UndisputedTransaction(id)));
    assert_eq!(transition(&deposit, Operation::Chargeback, id), Err(TransactionError::UndisputedTransaction(id)));
    assert_eq!(transition(&charged, Operation::Resolve, id), Err(TransactionError::UndisputedTransaction(id)));
    assert_eq!(transition(&charged, Operation::Dispute, id), Err(TransactionError::AlreadyDisputed(id)));
    assert_eq!(transition(&deposit, Operation::Deposit, id), Err(TransactionError::RepeatedTransactionId(id)));
}

#[test]
fn two_clients_dispute_scenario() {
    let mut ledger = Ledger::new();
    let transactions = vec![
        (TransactionId(1), Transaction::new(ClientId(1), num(50, 0), Operation::Deposit)),
        (TransactionId(2), Transaction::new(ClientId(1), num(20, 0), Operation::Deposit)),
        (TransactionId(1), Transaction::new(ClientId(1), Number::zero(), Operation::Dispute)),
    ];
    let results = process_transactions(&mut ledger, &transactions);
    assert!(results.iter().all(|r| r.is_ok()));
    let account = ledger.account(ClientId(1)).unwrap();
    assert_eq!(account.available(), num(20, 0));
    assert_eq!(account.held(), num(50, 0));
    assert!(!account.locked());
    assert_eq!(ledger.num_transactions(), 2);
    assert_eq!(ledger.transaction(TransactionId(1)).unwrap().state(), TransactionState::Disputed);
}

#[test]
fn fresh_deposit_sets_only_available() {
    let mut ledger = Ledger::new();
    let res = ledger.apply_transaction(
        TransactionId(9),
        &Transaction::new(ClientId(4), num(123456, 4), Operation::Deposit),
    );
    assert_eq!(res, Ok(()));
    let account = ledger.account(ClientId(4)).unwrap();
    assert_eq!(account.available(), num(123456, 4));
    assert_eq!(account.held(), Number::zero());
    assert!(!account.locked());
    assert_eq!(ledger.account(ClientId(5)), None);
}

#[test]
fn repeated_withdrawal_id_after_deposit() {
    let mut ledger = Ledger::new();
    let _ = ledger.apply_transaction(TransactionId(1), &Transaction::new(ClientId(1), num(5, 0), Operation::Deposit));
    let res = ledger.apply_transaction(TransactionId(1), &Transaction::new(ClientId(1), num(1, 0), Operation::Withdrawal));
    assert_eq!(res, Err(TransactionError::RepeatedTransactionId(TransactionId(1))));
    assert_eq!(ledger.account(ClientId(1)).unwrap().available(), num(5, 0));
    assert_eq!(ledger.num_transactions(), 1);
}

#[test]
fn failed_withdrawal_creates_no_account() {
    let mut ledger = Ledger::new();
    let res = ledger.apply_transaction(TransactionId(1), &Transaction::new(ClientId(2), num(1, 0), Operation::Withdrawal));
    assert!(res.is_err());
    assert_eq!(ledger.num_accounts(), 0);
    assert_eq!(ledger.num_transactions(), 0);
}

#[test]
fn dispute_twice_then_resolve_and_dispute_again() {
    let mut ledger = Ledger::new();
    let dispute = Transaction::new(ClientId(1), Number::zero(), Operation::Dispute);
    assert!(ledger.apply_transaction(TransactionId(1), &Transaction::new(ClientId(1), num(8, 0), Operation::Deposit)).is_ok());
    assert!(ledger.apply_transaction(TransactionId(1), &dispute).is_ok());
    assert_eq!(ledger.apply_transaction(TransactionId(1), &dispute), Err(TransactionError::AlreadyDisputed(TransactionId(1))));
    assert_eq!(ledger.account(ClientId(1)).unwrap().held(), num(8, 0));
    assert!(ledger.apply_transaction(TransactionId(1), &Transaction::new(ClientId(1), Number::zero(), Operation::Resolve)).is_ok());
    assert_eq!(ledger.transaction(TransactionId(1)).unwrap().state(), TransactionState::Undisputed);
    assert_eq!(ledger.account(ClientId(1)).unwrap().available(), num(8, 0));
    assert!(ledger.apply_transaction(TransactionId(1), &dispute).is_ok());
    assert_eq!(ledger.account(ClientId(1)).unwrap().held(), num(8, 0));
}

#[test]
fn chargeback_is_terminal_and_locks() {
    let mut ledger = Ledger::new();
    let _ = ledger.apply_transaction(TransactionId(1), &Transaction::new(ClientId(1), num(8, 0), Operation::Deposit));
    let _ = ledger.apply_transaction(TransactionId(2), &Transaction::new(ClientId(1), num(2, 0), Operation::Deposit));
    let _ = ledger.apply_transaction(TransactionId(1), &Transaction::new(ClientId(1), Number::zero(), Operation::Dispute));
    assert!(ledger.apply_transaction(TransactionId(1), &Transaction::new(ClientId(1), Number::zero(), Operation::Chargeback)).is_ok());
    assert_eq!(
        ledger.apply_transaction(TransactionId(1), &Transaction::new(ClientId(1), Number::zero(), Operation::Resolve)),
        Err(TransactionError::UndisputedTransaction(TransactionId(1)))
    );
    let locked = ledger.account(ClientId(1)).unwrap();
    assert!(locked.locked());
    assert_eq!(
        ledger.apply_transaction(TransactionId(3), &Transaction::new(ClientId(1), num(1, 0), Operation::Withdrawal)),
        Err(TransactionError::AccountError(ClientId(1), AccountError::FrozenAccount(locked)))
    );
    assert!(ledger.apply_transaction(TransactionId(4), &Transaction::new(ClientId(1), num(1, 0), Operation::Deposit)).is_ok());
    assert!(ledger.account(ClientId(1)).unwrap().locked());
    assert_eq!(ledger.account(ClientId(1)).unwrap().available(), num(3, 0));
}

#[test]
fn totals_follow_successful_flows() {
    let mut ledger = Ledger::new();
    let transactions = vec![
        (TransactionId(1), Transaction::new(ClientId(1), num(10, 0), Operation::Deposit)),
        (TransactionId(2), Transaction::new(ClientId(2), num(7, 0), Operation::Deposit)),
        (TransactionId(3), Transaction::new(ClientId(1), num(4, 0), Operation::Withdrawal)),
        (TransactionId(4), Transaction::new(ClientId(2), num(9, 0), Operation::Withdrawal)),
        (TransactionId(2), Transaction::new(ClientId(2), Number::zero(), Operation::Dispute)),
        (TransactionId(1), Transaction::new(ClientId(1), Number::zero(), Operation::Dispute)),
        (TransactionId(1), Transaction::new(ClientId(1), Number::zero(), Operation::Resolve)),
        (TransactionId(2), Transaction::new(ClientId(2), Number::zero(), Operation::Chargeback)),
    ];
    let results = process_transactions(&mut ledger, &transactions);
    assert_eq!(results.len(), 8);
    assert!(results[3].is_err());
    let one = ledger.account(ClientId(1)).unwrap();
    let two = ledger.account(ClientId(2)).unwrap();
    assert_eq!(one.total(), num(6, 0));
    assert_eq!(two.total(), num(0, 0));
    assert!(two.locked());
    assert!(!one.locked());
}

#[test]
fn clients_lists_each_account_once() {
    let mut ledger = Ledger::new();
    let transactions = vec![
        (TransactionId(1), Transaction::new(ClientId(3), num(1, 0), Operation::Deposit)),
        (TransactionId(2), Transaction::new(ClientId(1), num(1, 0), Operation::Deposit)),
        (TransactionId(3), Transaction::new(ClientId(3), num(1, 0), Operation::Deposit)),
        (TransactionId(4), Transaction::new(ClientId(9), num(1, 0), Operation::Withdrawal)),
    ];
    let results = process_transactions(&mut ledger, &transactions);
    assert!(results[3].is_err());
    let clients = ledger.clients();
    assert_eq!(clients.len(), 2);
    assert!(clients.contains(&ClientId(3)));
    assert!(clients.contains(&ClientId(1)));
    assert_eq!(ledger.num_accounts(), 2);
}
