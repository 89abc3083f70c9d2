use bank_ledger::amount::Amount;
use bank_ledger::balance::Balance;
use bank_ledger::bank::{AccountStatus, Bank, Receipt};
use bank_ledger::client::{Outcome, Rejection};
use bank_ledger::error::TransactionError;
use bank_ledger::transaction::{Transaction, TransactionParseError, TransactionType};

fn transaction(transaction_type: TransactionType, client: u16, transaction_id: u32) -> Transaction {
    Transaction { transaction_type, client, transaction_id }
}

fn deposit(client: u16, transaction_id: u32, value: i64) -> Transaction {
    transaction(TransactionType::Deposit(Amount::new(value)), client, transaction_id)
}

fn withdrawal(client: u16, transaction_id: u32, value: i64) -> Transaction {
    transaction(TransactionType::Withdrawal(Amount::new(value)), client, transaction_id)
}

fn row(client: u16, available: i128, held: i128, locked: bool) -> AccountStatus {
    AccountStatus {
        client,
        available: Balance::new(available),
        held: Balance::new(held),
        total: Balance::new(available + held),
        locked,
    }
}

fn sorted(mut rows: Vec<AccountStatus>) -> Vec<AccountStatus> {
    rows.sort_by_key(|row| row.client);
    rows
}

fn record(kind: &str, client: u16, transaction_id: u32, amount: Option<&str>) -> Result<Transaction, TransactionParseError> {
    let amount = match amount {
        Some(text) => Some(Amount::from_decimal_str(text).unwrap()),
        None => None,
    };
    let transaction_type = TransactionType::try_from((kind, amount))?;
    Ok(Transaction { transaction_type, client, transaction_id })
}

const VALID_FILE: &str = "type,client,tx,amount
deposit,1,1,1.0
deposit,2,2,2.0
deposit,1,3,2.0
withdrawal,1,4,1.5
withdrawal,2,5,3.0
dispute,1,1,
resolve,1,1
";

const MALFORMED_FILE: &str = "type,client,tx,amount
deposit,1,1,1.0
deposit,2,2
deposit,1,3,2.0
";

#[test]
fn process_valid_file_no_errors() {
    let mut bank = Bank::default();
    bank.process_file(VALID_FILE.as_bytes()).unwrap();
}

#[test]
fn error_on_malformed_txn() {
    let mut bank = Bank::default();
    bank.process_file(MALFORMED_FILE.as_bytes()).unwrap_err();
}

#[test]
fn file_is_read_row_by_row() {
    let mut bank = Bank::default();
    let receipts = bank.process_file(VALID_FILE.as_bytes()).unwrap();
    assert_eq!(sorted(bank.snapshot()), vec![row(1, 15000, 0, false), row(2, 20000, 0, false)]);
    assert_eq!(receipts.len(), 7);
    assert_eq!(receipts[0], Receipt { transaction: deposit(1, 1, 10000), outcome: Outcome::Applied });
    assert_eq!(
        receipts[4],
        Receipt {
            transaction: withdrawal(2, 5, 30000),
            outcome: Outcome::Rejected(Rejection::InsufficientFunds)
        }
    );
    assert_eq!(
        receipts[6],
        Receipt {
            transaction: transaction(TransactionType::Resolve, 1, 1),
            outcome: Outcome::Applied
        }
    );
}

#[test]
fn file_error_names_the_row() {
    let mut bank = Bank::default();
    assert_eq!(
        bank.process_file(MALFORMED_FILE.as_bytes()),
        Err(TransactionError::FileTransaction(
            1,
            TransactionParseError::new(String::from("Unknown transaction type: deposit, amount: None"))
        ))
    );
    assert_eq!(bank.snapshot(), vec![row(1, 10000, 0, false)]);
}

#[test]
fn file_with_quotes_and_blank_lines() {
    let mut bank = Bank::default();
    let content = "type,client,tx,amount,note\n\n\"deposit\",\"7\",\"1\",\"12.5\",\"a, b\"\n\nWITHDRAWAL,7,2,0.25\n";
    assert_eq!(bank.process_file(content.as_bytes()).unwrap().len(), 2);
    assert_eq!(bank.snapshot(), vec![row(7, 122500, 0, false)]);
}

#[test]
fn file_fields_are_not_trimmed() {
    let mut bank = Bank::default();
    assert_eq!(
        bank.process_file(b"type, client, tx, amount\ndeposit, 1, 1, 1.0\n"),
        Err(TransactionError::FileTransaction(
            0,
            TransactionParseError::new(String::from("invalid client id:  1"))
        ))
    );
    assert!(bank.snapshot().is_empty());
}

#[test]
fn file_with_header_only_or_nothing() {
    let mut bank = Bank::default();
    assert_eq!(bank.process_file(b"type,client,tx,amount\n"), Ok(vec![]));
    assert_eq!(bank.process_file(b""), Ok(vec![]));
    // the first row is the header, whatever it holds
    assert_eq!(bank.process_file(b"deposit,1,1,1.0\n"), Ok(vec![]));
    assert!(bank.snapshot().is_empty());
}

#[test]
fn file_row_that_is_no_text_ends_the_batch() {
    let mut bank = Bank::default();
    let result = bank.process_file(b"type,client,tx,amount\ndeposit,1,1,1.0\ndeposit,1,\xff,1.0\n");
    match result {
        Err(TransactionError::FileTransaction(1, error)) => assert!(!error.value().is_empty()),
        other => panic!("{:?}", other),
    }
    assert_eq!(bank.snapshot(), vec![row(1, 10000, 0, false)]);
}

#[test]
fn rows_are_typed_and_processed() {
    let mut bank = Bank::default();
    let fields = |texts: &[&str]| -> Vec<String> { texts.iter().map(|text| text.to_string()).collect() };
    let receipts = bank
        .process_rows(vec![
            Ok(fields(&["deposit", "3", "1", "2.5"])),
            Ok(fields(&["dispute", "3", "1"])),
            Ok(fields(&["chargeback", "3", "1", "", "ignored"])),
        ])
        .unwrap();
    assert_eq!(receipts.len(), 3);
    assert_eq!(bank.snapshot(), vec![row(3, 0, 0, true)]);
    assert_eq!(
        bank.process_rows(vec![Ok(fields(&["deposit", "3", "2", "1"])), Err(String::from("broken row"))]),
        Err(TransactionError::FileTransaction(1, TransactionParseError::new(String::from("broken row"))))
    );
    assert_eq!(
        bank.process_rows(vec![Ok(fields(&["deposit", "3"]))]),
        Err(TransactionError::FileTransaction(
            0,
            TransactionParseError::new(String::from("record has fewer than three fields"))
        ))
    );
}

#[test]
fn records_are_processed_in_order() {
    let mut bank = Bank::default();
    let receipts = bank
        .process_records(vec![
            record("deposit", 1, 1, Some("1.0")),
            record("deposit", 2, 2, Some("2.0")),
            record("deposit", 1, 3, Some("2.0")),
            record("withdrawal", 1, 4, Some("1.5")),
            record("withdrawal", 2, 5, Some("3.0")),
            record("dispute", 1, 1, None),
            record("resolve", 1, 1, None),
        ])
        .unwrap();
    assert_eq!(sorted(bank.snapshot()), vec![row(1, 15000, 0, false), row(2, 20000, 0, false)]);
    let outcomes: Vec<Outcome> = receipts.iter().map(|receipt| receipt.outcome).collect();
    assert_eq!(
        outcomes,
        vec![
            Outcome::Applied,
            Outcome::Applied,
            Outcome::Applied,
            Outcome::Applied,
            Outcome::Rejected(Rejection::InsufficientFunds),
            Outcome::Applied,
            Outcome::Applied,
        ]
    );
}

#[test]
fn error_names_the_first_bad_record() {
    let mut bank = Bank::new();
    let result = bank.process_records(vec![
        record("deposit", 1, 1, Some("1.0")),
        record("deposit", 2, 2, Some("5")),
        record("transfer", 1, 3, Some("2.0")),
        record("deposit", 3, 4, Some("2.0")),
        record("refund", 3, 5, None),
    ]);
    assert_eq!(
        result,
        Err(TransactionError::FileTransaction(
            2,
            TransactionParseError::new(String::from("Unknown transaction type: transfer, amount: Some(2)"))
        ))
    );
    // what came before the bad record has taken effect, and nothing after it
    assert_eq!(sorted(bank.snapshot()), vec![row(1, 10000, 0, false), row(2, 50000, 0, false)]);
}

#[test]
fn bad_first_record_leaves_the_bank_as_it_was() {
    let mut bank = Bank::new();
    bank.process_transaction(deposit(4, 1, 7));
    let result = bank.process_records(vec![Err(TransactionParseError::new(String::from("bad"))), Ok(deposit(4, 2, 7))]);
    assert_eq!(
        result,
        Err(TransactionError::FileTransaction(0, TransactionParseError::new(String::from("bad"))))
    );
    assert_eq!(bank.snapshot(), vec![row(4, 7, 0, false)]);
}

#[test]
fn empty_batch_changes_nothing() {
    let mut bank = Bank::new();
    assert_eq!(bank.process_records(vec![]), Ok(vec![]));
    assert_eq!(bank.snapshot(), vec![]);
}

#[test]
fn new_bank_knows_no_client() {
    assert!(Bank::new().snapshot().is_empty());
    assert!(Bank::default().snapshot().is_empty());
}

#[test]
fn client_is_opened_on_first_sight() {
    let mut bank = Bank::new();
    // even a transaction that is rejected opens the account
    assert_eq!(
        bank.process_transaction(transaction(TransactionType::Dispute, 9, 1)),
        Outcome::Rejected(Rejection::NotActive)
    );
    assert_eq!(bank.snapshot(), vec![row(9, 0, 0, false)]);
    assert_eq!(
        bank.process_transaction(withdrawal(10, 1, 1)),
        Outcome::Rejected(Rejection::InsufficientFunds)
    );
    assert_eq!(sorted(bank.snapshot()), vec![row(9, 0, 0, false), row(10, 0, 0, false)]);
}

#[test]
fn clients_do_not_touch_each_other() {
    let mut bank = Bank::new();
    assert_eq!(bank.process_transaction(deposit(1, 1, 15000)), Outcome::Applied);
    assert_eq!(bank.process_transaction(deposit(2, 1, 25000)), Outcome::Applied);
    assert_eq!(bank.process_transaction(transaction(TransactionType::Dispute, 2, 1)), Outcome::Applied);
    assert_eq!(bank.process_transaction(transaction(TransactionType::Chargeback, 2, 1)), Outcome::Applied);
    assert_eq!(
        bank.process_transaction(deposit(2, 2, 1)),
        Outcome::Rejected(Rejection::AccountLocked)
    );
    assert_eq!(bank.process_transaction(deposit(1, 2, 1)), Outcome::Applied);
    assert_eq!(sorted(bank.snapshot()), vec![row(1, 15001, 0, false), row(2, 0, 0, true)]);
}

#[test]
fn snapshot_has_one_row_for_each_client() {
    let mut bank = Bank::new();
    for client in [5_u16, 0, 65535, 5, 0, 300] {
        bank.process_transaction(deposit(client, client as u32, 10000));
        bank.process_transaction(deposit(client, 70000 + client as u32, 5000));
    }
    bank.process_transaction(transaction(TransactionType::Dispute, 300, 300));
    assert_eq!(
        sorted(bank.snapshot()),
        vec![
            row(0, 15000, 0, false),
            row(5, 15000, 0, false),
            row(300, 5000, 10000, false),
            row(65535, 15000, 0, false),
        ]
    );
}

#[test]
fn same_transaction_id_under_two_clients() {
    let mut bank = Bank::new();
    bank.process_transaction(deposit(1, 1, 100));
    bank.process_transaction(deposit(2, 1, 200));
    bank.process_transaction(transaction(TransactionType::Dispute, 1, 1));
    assert_eq!(sorted(bank.snapshot()), vec![row(1, 0, 100, false), row(2, 200, 0, false)]);
}

#[test]
fn batch_error_variants_differ() {
    let unreadable = TransactionError::FileUnreadable(String::from("no such file"));
    let bad_line = TransactionError::FileTransaction(3, TransactionParseError::new(String::from("no such file")));
    assert_eq!(unreadable.clone(), unreadable);
    assert_eq!(bad_line.clone(), bad_line);
    assert_ne!(unreadable, bad_line);
}
