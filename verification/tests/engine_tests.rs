use transactinator::engine::Accounts;
use transactinator::engine::InputRecord;
use transactinator::errors::Operation;
use transactinator::errors::TransactionErrorKind;
use transactinator::render::amount_string;
use transactinator::render::u64_string;

fn record(ttype: &str, client: u16, tx: u32, amount: Option<u64>) -> InputRecord {
    InputRecord { ttype: ttype.to_string(), client, tx, amount }
}

#[test]
fn test_end_to_end_mixed_clients() {
    let mut accounts = Accounts::new();
    accounts.apply_record(&record("deposit", 1, 1, Some(50_000))).unwrap();
    accounts.apply_record(&record("deposit", 2, 2, Some(30_000))).unwrap();
    accounts.apply_record(&record("deposit", 1, 3, Some(20_000))).unwrap();
    accounts.apply_record(&record("withdraw", 1, 4, Some(15_000))).unwrap();
    let rows = accounts.snapshot();
    assert_eq!(rows.len(), 2);
    assert_eq!(rows[0], vec!["1", "5.5", "0", "5.5", "false"]);
    assert_eq!(rows[1], vec!["2", "3", "0", "3", "false"]);
}

#[test]
fn test_end_to_end_chargeback() {
    let mut accounts = Accounts::new();
    accounts.apply_record(&record("deposit", 1, 1, Some(50_000))).unwrap();
    accounts.apply_record(&record("dispute", 1, 1, None)).unwrap();
    accounts.apply_record(&record("chargeback", 1, 1, None)).unwrap();
    let rows = accounts.snapshot();
    assert_eq!(rows.len(), 1);
    assert_eq!(rows[0], vec!["1", "0", "0", "0", "true"]);
}

#[test]
fn test_end_to_end_double_resolve() {
    let mut accounts = Accounts::new();
    accounts.apply_record(&record("deposit", 1, 1, Some(50_000))).unwrap();
    accounts.apply_record(&record("dispute", 1, 1, None)).unwrap();
    accounts.apply_record(&record("resolve", 1, 1, None)).unwrap();
    let err = accounts.apply_record(&record("resolve", 1, 1, None)).unwrap_err();
    assert_eq!(err.kind, TransactionErrorKind::NoOpenDispute);
    let rows = accounts.snapshot();
    assert_eq!(rows.len(), 1);
    assert_eq!(rows[0], vec!["1", "5", "0", "5", "false"]);
}

#[test]
fn test_open_dispute_for_different_client_but_same_tid() {
    let mut accounts = Accounts::new();
    accounts.apply_record(&record("deposit", 1, 1, Some(50_000))).unwrap();
    // Client 2 never logged transaction 1: its own account knows nothing
    // of it, and is created empty by the reference.
    let err = accounts.apply_record(&record("dispute", 2, 1, None)).unwrap_err();
    assert_eq!(err.kind, TransactionErrorKind::UnknownTransaction);
    let rows = accounts.snapshot();
    assert_eq!(rows.len(), 2);
    assert_eq!(rows[0], vec!["1", "5", "0", "5", "false"]);
    assert_eq!(rows[1], vec!["2", "0", "0", "0", "false"]);
}

#[test]
fn test_unknown_transaction_type() {
    let mut accounts = Accounts::new();
    let err = accounts.apply_record(&record("transfer", 1, 1, Some(50_000))).unwrap_err();
    assert_eq!(err.kind, TransactionErrorKind::UnknownTransactionType);
    assert_eq!(err.operation, Operation::Ingest);
    assert_eq!(err.tid, 1);
    // The account was still created by the reference, untouched.
    let rows = accounts.snapshot();
    assert_eq!(rows.len(), 1);
    assert_eq!(rows[0], vec!["1", "0", "0", "0", "false"]);
}

#[test]
fn test_rows_sorted_by_client() {
    let mut accounts = Accounts::new();
    accounts.apply_record(&record("deposit", 30, 1, Some(10_000))).unwrap();
    accounts.apply_record(&record("deposit", 10, 2, Some(20_000))).unwrap();
    accounts.apply_record(&record("deposit", 20, 3, Some(30_000))).unwrap();
    let rows = accounts.snapshot();
    assert_eq!(rows.len(), 3);
    assert_eq!(rows[0][0], "10");
    assert_eq!(rows[1][0], "20");
    assert_eq!(rows[2][0], "30");
    assert_eq!(rows[0][1], "2");
    assert_eq!(rows[1][1], "3");
    assert_eq!(rows[2][1], "1");
}

#[test]
fn test_get_account_balances() {
    let mut accounts = Accounts::new();
    accounts.apply_record(&record("deposit", 5, 1, Some(12_345))).unwrap();
    let account = accounts.get_account(5).unwrap();
    assert_eq!(account.client(), 5);
    assert_eq!(account.available(), 12_345);
    assert_eq!(account.held(), 0);
    assert!(!account.is_locked());
    assert!(accounts.get_account(6).is_none());
}

#[test]
fn test_deposit_fits_bound() {
    let mut accounts = Accounts::new();
    assert!(accounts.deposit_fits(1, u64::MAX));
    accounts.apply_record(&record("deposit", 1, 1, Some(u64::MAX))).unwrap();
    assert!(accounts.deposit_fits(1, 0));
    assert!(!accounts.deposit_fits(1, 1));
}

#[test]
fn test_amount_rendering() {
    assert_eq!(amount_string(0), "0");
    assert_eq!(amount_string(1), "0.0001");
    assert_eq!(amount_string(123), "0.0123");
    assert_eq!(amount_string(1_230), "0.123");
    assert_eq!(amount_string(10_001), "1.0001");
    assert_eq!(amount_string(15_000), "1.5");
    assert_eq!(amount_string(50_000), "5");
    assert_eq!(amount_string(1_000_000), "100");
    assert_eq!(u64_string(0), "0");
    assert_eq!(u64_string(65_535), "65535");
}

#[test]
fn test_error_message_line() {
    let mut accounts = Accounts::new();
    accounts.apply_record(&record("deposit", 1, 7, Some(10_000))).unwrap();
    let err = accounts.apply_record(&record("deposit", 1, 7, Some(10_000))).unwrap_err();
    assert_eq!(
        err.message(),
        "Error processing transaction tid=7. process_transaction operation failed. \
         Transaction is already processed"
    );
    let err = accounts.apply_record(&record("transfer", 2, 9, None)).unwrap_err();
    assert_eq!(
        err.message(),
        "Error processing transaction tid=9. ingest operation failed. Unknown transaction type"
    );
}
