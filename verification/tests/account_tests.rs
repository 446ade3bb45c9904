use transactinator::account::Account;
use transactinator::errors::Operation;
use transactinator::errors::TransactionErrorKind;
use transactinator::transaction::AmountTransaction;

// Amounts are fixed-point ten-thousandths: 10_000 units stand for 1.0.
const UNIT: u64 = 10_000;

#[test]
fn test_should_test_hello_world() {
    let mut account = Account::new(1);
    account
        .process_transaction(&AmountTransaction::deposit(1, 2 * UNIT))
        .unwrap();
    account
        .process_transaction(&AmountTransaction::withdraw(2, UNIT / 2))
        .unwrap();
    assert_eq!(account.available(), 15_000);
    assert_eq!(account.held(), 0);
    assert!(!account.is_locked());
}

#[test]
fn test_duplicated_transactions() {
    let mut account = Account::new(1);
    account
        .process_transaction(&AmountTransaction::deposit(7, 5 * UNIT))
        .unwrap();
    let err = account
        .process_transaction(&AmountTransaction::deposit(7, 3 * UNIT))
        .unwrap_err();
    assert_eq!(err.kind, TransactionErrorKind::DuplicateTransaction);
    assert_eq!(err.tid, 7);
    assert_eq!(err.operation, Operation::Process);
    // A withdrawal reusing the id is rejected too, and state is unchanged.
    let err = account
        .process_transaction(&AmountTransaction::withdraw(7, UNIT))
        .unwrap_err();
    assert_eq!(err.kind, TransactionErrorKind::DuplicateTransaction);
    assert_eq!(account.available(), 5 * UNIT);
    assert_eq!(account.held(), 0);
}

#[test]
fn test_no_money_available() {
    let mut account = Account::new(1);
    account
        .process_transaction(&AmountTransaction::deposit(1, UNIT))
        .unwrap();
    let err = account
        .process_transaction(&AmountTransaction::withdraw(2, UNIT + 1))
        .unwrap_err();
    assert_eq!(err.kind, TransactionErrorKind::InsufficientFunds);
    assert_eq!(account.available(), UNIT);
    assert_eq!(account.held(), 0);
}

#[test]
fn test_precision_calculation() {
    let mut account = Account::new(1);
    // 2.1234 + 0.0001 = 2.1235, exactly.
    account
        .process_transaction(&AmountTransaction::deposit(1, 21_234))
        .unwrap();
    account
        .process_transaction(&AmountTransaction::deposit(2, 1))
        .unwrap();
    assert_eq!(account.available(), 21_235);
    let row = account.serialize();
    assert_eq!(row[1], "2.1235");
}

#[test]
fn test_open_dispute_for_wrong_ttype() {
    let mut account = Account::new(1);
    account
        .process_transaction(&AmountTransaction::deposit(1, 5 * UNIT))
        .unwrap();
    account
        .process_transaction(&AmountTransaction::withdraw(2, UNIT))
        .unwrap();
    let err = account.open_dispute(2).unwrap_err();
    assert_eq!(err.kind, TransactionErrorKind::NotDisputable);
    assert_eq!(err.operation, Operation::OpenDispute);
    assert_eq!(account.available(), 4 * UNIT);
    assert_eq!(account.held(), 0);
}

#[test]
fn test_withdraw_while_transaction_in_dispute() {
    let mut account = Account::new(1);
    account
        .process_transaction(&AmountTransaction::deposit(1, 5 * UNIT))
        .unwrap();
    account.open_dispute(1).unwrap();
    assert_eq!(account.available(), 0);
    assert_eq!(account.held(), 5 * UNIT);
    let err = account
        .process_transaction(&AmountTransaction::withdraw(2, 3 * UNIT))
        .unwrap_err();
    assert_eq!(err.kind, TransactionErrorKind::InsufficientFunds);
    assert_eq!(account.available(), 0);
    assert_eq!(account.held(), 5 * UNIT);
}

#[test]
fn test_resolve_while_not_open_dispute() {
    let mut account = Account::new(1);
    account
        .process_transaction(&AmountTransaction::deposit(1, 5 * UNIT))
        .unwrap();
    let err = account.resolve(1).unwrap_err();
    assert_eq!(err.kind, TransactionErrorKind::NoOpenDispute);
    assert_eq!(err.operation, Operation::Resolve);
    assert_eq!(account.available(), 5 * UNIT);
}

#[test]
fn test_resolve_open() {
    let mut account = Account::new(1);
    account
        .process_transaction(&AmountTransaction::deposit(1, 5 * UNIT))
        .unwrap();
    account.open_dispute(1).unwrap();
    account.resolve(1).unwrap();
    // The dispute round trip restores the balances exactly.
    assert_eq!(account.available(), 5 * UNIT);
    assert_eq!(account.held(), 0);
    assert!(!account.is_locked());
    // The dispute is closed: a second resolve finds nothing.
    let err = account.resolve(1).unwrap_err();
    assert_eq!(err.kind, TransactionErrorKind::NoOpenDispute);
}

#[test]
fn test_chargeback_missing_dispute() {
    let mut account = Account::new(1);
    account
        .process_transaction(&AmountTransaction::deposit(1, 5 * UNIT))
        .unwrap();
    let err = account.chargeback(1).unwrap_err();
    assert_eq!(err.kind, TransactionErrorKind::NoOpenDispute);
    assert_eq!(err.operation, Operation::Chargeback);
    assert!(!account.is_locked());
}

#[test]
fn test_chargeback_lock() {
    let mut account = Account::new(1);
    account
        .process_transaction(&AmountTransaction::deposit(1, 5 * UNIT))
        .unwrap();
    account.open_dispute(1).unwrap();
    account.chargeback(1).unwrap();
    assert_eq!(account.available(), 0);
    assert_eq!(account.held(), 0);
    assert!(account.is_locked());
}

#[test]
fn test_locked_account_rejects_everything() {
    let mut account = Account::new(1);
    account
        .process_transaction(&AmountTransaction::deposit(1, 5 * UNIT))
        .unwrap();
    account
        .process_transaction(&AmountTransaction::deposit(2, 2 * UNIT))
        .unwrap();
    account.open_dispute(1).unwrap();
    account.chargeback(1).unwrap();
    assert!(account.is_locked());
    let err = account
        .process_transaction(&AmountTransaction::deposit(3, UNIT))
        .unwrap_err();
    assert_eq!(err.kind, TransactionErrorKind::AccountLocked);
    let err = account.open_dispute(2).unwrap_err();
    assert_eq!(err.kind, TransactionErrorKind::AccountLocked);
    let err = account.resolve(2).unwrap_err();
    assert_eq!(err.kind, TransactionErrorKind::AccountLocked);
    let err = account.chargeback(2).unwrap_err();
    assert_eq!(err.kind, TransactionErrorKind::AccountLocked);
    assert_eq!(account.available(), 2 * UNIT);
    assert_eq!(account.held(), 0);
}

#[test]
fn test_dispute_already_open() {
    let mut account = Account::new(1);
    account
        .process_transaction(&AmountTransaction::deposit(1, 5 * UNIT))
        .unwrap();
    account.open_dispute(1).unwrap();
    let err = account.open_dispute(1).unwrap_err();
    assert_eq!(err.kind, TransactionErrorKind::DisputeAlreadyOpen);
    assert_eq!(account.held(), 5 * UNIT);
}

#[test]
fn test_dispute_needs_available_funds() {
    let mut account = Account::new(1);
    account
        .process_transaction(&AmountTransaction::deposit(1, 5 * UNIT))
        .unwrap();
    account
        .process_transaction(&AmountTransaction::withdraw(2, 4 * UNIT))
        .unwrap();
    // Only 1.0 is left available, so the 5.0 deposit cannot be held.
    let err = account.open_dispute(1).unwrap_err();
    assert_eq!(err.kind, TransactionErrorKind::InsufficientFunds);
    assert_eq!(account.available(), UNIT);
    assert_eq!(account.held(), 0);
}

#[test]
fn test_serialize_row() {
    let mut account = Account::new(42);
    account
        .process_transaction(&AmountTransaction::deposit(1, 55_000))
        .unwrap();
    account
        .process_transaction(&AmountTransaction::deposit(2, 30_000))
        .unwrap();
    account.open_dispute(2).unwrap();
    let row = account.serialize();
    assert_eq!(row.len(), 5);
    assert_eq!(row[0], "42");
    assert_eq!(row[1], "5.5");
    assert_eq!(row[2], "3");
    assert_eq!(row[3], "8.5");
    assert_eq!(row[4], "false");
}

#[test]
fn test_available_is_signed_sum_of_accepted() {
    let mut account = Account::new(1);
    account
        .process_transaction(&AmountTransaction::deposit(1, 3 * UNIT))
        .unwrap();
    account
        .process_transaction(&AmountTransaction::withdraw(2, UNIT))
        .unwrap();
    // This step is rejected, so it is excluded from the sum.
    assert!(account
        .process_transaction(&AmountTransaction::withdraw(3, 5 * UNIT))
        .is_err());
    account
        .process_transaction(&AmountTransaction::deposit(4, 2 * UNIT))
        .unwrap();
    // 3 - 1 + 2 = 4, and the balance never went negative on the way.
    assert_eq!(account.available(), 4 * UNIT);
}
