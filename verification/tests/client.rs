use bank_ledger::amount::Amount;
use bank_ledger::balance::Balance;
use bank_ledger::client::{Client, Outcome, Rejection};
use bank_ledger::transaction::TransactionType::{Chargeback, Deposit, Dispute, Resolve, Withdrawal};
use bank_ledger::transaction::{Transaction, TransactionType};
use bank_ledger::{ClientId, TransactionId};

const TEST_CLIENT_ID: ClientId = 1337;

fn money(value: f64) -> Amount {
    Amount::from_decimal_str(&format!("{}", value)).unwrap()
}

fn decimal(balance: Balance) -> f64 {
    balance.to_decimal_string().parse::<f64>().unwrap()
}

fn test_transaction(transaction_type: TransactionType, transaction_id: TransactionId) -> Transaction {
    Transaction {
        transaction_type,
        client: TEST_CLIENT_ID,
        transaction_id,
    }
}

#[test]
fn deposit_withdrawal() {
    let mut client = Client::new(TEST_CLIENT_ID);
    client.process_transaction(test_transaction(Deposit(money(1.5)), 1));
    client.process_transaction(test_transaction(Deposit(money(4.0)), 2));
    client.process_transaction(test_transaction(Withdrawal(money(2.0)), 3));
    assert_eq!(decimal(client.hold()), 0.0);
    assert_eq!(decimal(client.available()), 3.5);
    assert_eq!(decimal(client.total()), 3.5);
    // ignore transaction if insufficient funds exist
    client.process_transaction(test_transaction(Withdrawal(money(4.0)), 4));
    assert_eq!(decimal(client.hold()), 0.0);
    assert_eq!(decimal(client.available()), 3.5);
    assert_eq!(decimal(client.total()), 3.5);
}

#[test]
fn dispute_resolve() {
    let mut client = Client::new(TEST_CLIENT_ID);
    client.process_transaction(test_transaction(Deposit(money(1.5)), 1));
    client.process_transaction(test_transaction(Deposit(money(2.5)), 2));
    client.process_transaction(test_transaction(Dispute, 1));
    assert_eq!(decimal(client.hold()), 1.5);
    assert_eq!(decimal(client.available()), 2.5);
    assert_eq!(decimal(client.total()), 4.0);
    client.process_transaction(test_transaction(Resolve, 1));
    assert_eq!(decimal(client.hold()), 0.0);
    assert_eq!(decimal(client.available()), 4.0);
    assert_eq!(decimal(client.total()), 4.0);
}

#[test]
fn chargeback() {
    let mut client = Client::new(TEST_CLIENT_ID);
    client.process_transaction(test_transaction(Deposit(money(1.5)), 1));
    client.process_transaction(test_transaction(Deposit(money(2.5)), 2));
    client.process_transaction(test_transaction(Dispute, 1));
    client.process_transaction(test_transaction(Chargeback, 1));
    assert_eq!(decimal(client.hold()), 0.0);
    assert_eq!(decimal(client.available()), 2.5);
    assert_eq!(decimal(client.total()), 2.5);
    assert!(client.locked());
    // No new transactions are processed
    client.process_transaction(test_transaction(Deposit(money(1.5)), 3));
    client.process_transaction(test_transaction(Dispute, 3));
    assert_eq!(decimal(client.hold()), 0.0);
    assert_eq!(decimal(client.available()), 2.5);
    assert_eq!(decimal(client.total()), 2.5);
}

#[test]
fn chargeback_for_transaction_that_is_not_in_dispute() {
    let mut client = Client::new(TEST_CLIENT_ID);
    client.process_transaction(test_transaction(Deposit(money(1.5)), 1));
    client.process_transaction(test_transaction(Deposit(money(2.5)), 2));
    client.process_transaction(test_transaction(Chargeback, 1));
    assert_eq!(decimal(client.hold()), 0.0);
    assert_eq!(decimal(client.available()), 4.0);
    assert_eq!(decimal(client.total()), 4.0);
    assert!(!client.locked());
}

fn state(client: &Client) -> (Balance, Balance, Balance, bool) {
    (client.available(), client.hold(), client.total(), client.locked())
}

fn funded_client() -> Client {
    let mut client = Client::new(TEST_CLIENT_ID);
    assert_eq!(
        client.process_transaction(test_transaction(Deposit(Amount::new(15000)), 1)),
        Outcome::Applied
    );
    assert_eq!(
        client.process_transaction(test_transaction(Deposit(Amount::new(25000)), 2)),
        Outcome::Applied
    );
    client
}

#[test]
fn new_client_is_empty_and_unlocked() {
    let client = Client::new(7);
    assert_eq!(client.id(), 7);
    assert_eq!(client.available(), Balance::new(0));
    assert_eq!(client.hold(), Balance::new(0));
    assert_eq!(client.total(), Balance::new(0));
    assert!(!client.locked());
}

#[test]
fn outcomes_name_what_happened() {
    let mut client = funded_client();
    assert_eq!(
        client.process_transaction(test_transaction(Withdrawal(Amount::new(40001)), 3)),
        Outcome::Rejected(Rejection::InsufficientFunds)
    );
    assert_eq!(
        client.process_transaction(test_transaction(Withdrawal(Amount::new(40000)), 3)),
        Outcome::Applied
    );
    assert_eq!(client.available(), Balance::new(0));
    assert_eq!(
        client.process_transaction(test_transaction(Dispute, 9)),
        Outcome::Rejected(Rejection::NotActive)
    );
    assert_eq!(
        client.process_transaction(test_transaction(Resolve, 1)),
        Outcome::Rejected(Rejection::NotDisputed)
    );
    assert_eq!(
        client.process_transaction(test_transaction(Chargeback, 1)),
        Outcome::Rejected(Rejection::NotDisputed)
    );
    assert_eq!(client.process_transaction(test_transaction(Dispute, 1)), Outcome::Applied);
    assert_eq!(
        client.process_transaction(test_transaction(Dispute, 1)),
        Outcome::Rejected(Rejection::NotActive)
    );
    assert_eq!(client.process_transaction(test_transaction(Chargeback, 1)), Outcome::Applied);
    assert!(client.locked());
    for transaction_type in [Deposit(Amount::new(1)), Withdrawal(Amount::new(1)), Dispute, Resolve, Chargeback] {
        assert_eq!(
            client.process_transaction(test_transaction(transaction_type, 2)),
            Outcome::Rejected(Rejection::AccountLocked)
        );
    }
}

#[test]
fn deposits_alone_hold_nothing() {
    let mut client = Client::new(TEST_CLIENT_ID);
    let mut expected: i128 = 0;
    for (id, value) in [5_i64, 0, 123456, -40, 99999999].into_iter().enumerate() {
        client.process_transaction(test_transaction(Deposit(Amount::new(value)), id as u32));
        expected += value as i128;
        assert_eq!(client.hold(), Balance::new(0));
        assert_eq!(client.available(), Balance::new(expected));
        assert_eq!(client.total(), client.available());
    }
}

#[test]
fn resolve_of_what_is_not_held_changes_nothing() {
    let mut client = funded_client();
    client.process_transaction(test_transaction(Dispute, 2));
    let before = state(&client);
    client.process_transaction(test_transaction(Resolve, 1));
    client.process_transaction(test_transaction(Resolve, 77));
    assert_eq!(state(&client), before);
}

#[test]
fn dispute_then_resolve_restores_the_funds() {
    let mut client = funded_client();
    client.process_transaction(test_transaction(Withdrawal(Amount::new(5000)), 3));
    let before = state(&client);
    for id in [1, 2, 3, 4] {
        client.process_transaction(test_transaction(Dispute, id));
        client.process_transaction(test_transaction(Resolve, id));
        assert_eq!(state(&client), before);
    }
}

#[test]
fn dispute_keeps_the_total() {
    let mut client = funded_client();
    client.process_transaction(test_transaction(Dispute, 2));
    assert_eq!(client.available(), Balance::new(15000));
    assert_eq!(client.hold(), Balance::new(25000));
    assert_eq!(client.total(), Balance::new(40000));
}

#[test]
fn disputed_withdrawal_raises_the_available_funds() {
    let mut client = funded_client();
    client.process_transaction(test_transaction(Withdrawal(Amount::new(10000)), 3));
    assert_eq!(client.available(), Balance::new(30000));
    client.process_transaction(test_transaction(Dispute, 3));
    assert_eq!(client.available(), Balance::new(40000));
    assert_eq!(client.hold(), Balance::new(-10000));
    assert_eq!(client.total(), Balance::new(30000));
}

#[test]
fn rejected_withdrawal_leaves_the_available_funds() {
    let mut client = funded_client();
    let before = state(&client);
    assert_eq!(
        client.process_transaction(test_transaction(Withdrawal(Amount::new(40001)), 3)),
        Outcome::Rejected(Rejection::InsufficientFunds)
    );
    assert_eq!(state(&client), before);
    // the dropped withdrawal cannot be disputed either
    assert_eq!(
        client.process_transaction(test_transaction(Dispute, 3)),
        Outcome::Rejected(Rejection::NotActive)
    );
}

#[test]
fn withdrawal_of_all_that_is_available_succeeds() {
    let mut client = funded_client();
    assert_eq!(
        client.process_transaction(test_transaction(Withdrawal(Amount::new(40000)), 3)),
        Outcome::Applied
    );
    assert_eq!(client.available(), Balance::new(0));
}

#[test]
fn locked_client_never_changes() {
    let mut client = funded_client();
    client.process_transaction(test_transaction(Dispute, 1));
    client.process_transaction(test_transaction(Chargeback, 1));
    let before = state(&client);
    assert!(before.3);
    for id in [1, 2, 3] {
        for transaction_type in [Deposit(Amount::new(5)), Withdrawal(Amount::new(5)), Dispute, Resolve, Chargeback] {
            client.process_transaction(test_transaction(transaction_type, id));
            assert_eq!(state(&client), before);
        }
    }
}

#[test]
fn chargeback_of_what_is_not_held_changes_nothing() {
    let mut client = funded_client();
    let before = state(&client);
    client.process_transaction(test_transaction(Chargeback, 2));
    client.process_transaction(test_transaction(Chargeback, 50));
    assert_eq!(state(&client), before);
    assert!(!client.locked());
}

#[test]
fn deposit_under_an_active_id_replaces_it() {
    let mut client = funded_client();
    client.process_transaction(test_transaction(Deposit(Amount::new(70000)), 1));
    assert_eq!(client.available(), Balance::new(95000));
}

#[test]
fn deposit_under_a_disputed_id_is_kept_like_any_other() {
    let mut client = funded_client();
    client.process_transaction(test_transaction(Dispute, 1));
    assert_eq!(
        client.process_transaction(test_transaction(Deposit(Amount::new(7)), 1)),
        Outcome::Applied
    );
    assert_eq!(client.available(), Balance::new(25007));
    assert_eq!(client.hold(), Balance::new(15000));
    assert_eq!(client.total(), Balance::new(40007));
}

#[test]
fn zero_and_negative_deposits_are_kept() {
    let mut client = Client::new(TEST_CLIENT_ID);
    assert_eq!(
        client.process_transaction(test_transaction(Deposit(Amount::new(0)), 1)),
        Outcome::Applied
    );
    assert_eq!(
        client.process_transaction(test_transaction(Deposit(Amount::new(-25000)), 2)),
        Outcome::Applied
    );
    assert_eq!(client.available(), Balance::new(-25000));
}

#[test]
fn balances_pass_the_range_of_an_amount() {
    let mut client = Client::new(TEST_CLIENT_ID);
    client.process_transaction(test_transaction(Deposit(Amount::new(i64::MAX)), 1));
    client.process_transaction(test_transaction(Deposit(Amount::new(i64::MAX)), 2));
    client.process_transaction(test_transaction(Deposit(Amount::new(i64::MAX)), 3));
    assert_eq!(client.available(), Balance::new(3 * (i64::MAX as i128)));
    client.process_transaction(test_transaction(Dispute, 3));
    assert_eq!(client.total(), Balance::new(3 * (i64::MAX as i128)));
    assert_eq!(client.total().to_decimal_string(), "2767011611056432.7421");
}

#[test]
fn sum_of_a_given_map() {
    let client = Client::new(TEST_CLIENT_ID);
    let mut transactions = std::collections::HashMap::new();
    assert_eq!(client.sum_transactions(&transactions), Balance::new(0));
    transactions.insert(1, Deposit(Amount::new(100)));
    transactions.insert(2, Withdrawal(Amount::new(30)));
    transactions.insert(3, Dispute);
    transactions.insert(u32::MAX, Deposit(Amount::new(5)));
    assert_eq!(client.sum_transactions(&transactions), Balance::new(75));
    assert_eq!(client.sum_transactions(&transactions).value(), 75);
}
