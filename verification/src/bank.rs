//! The bank: every client's account, and the routing of transactions to
//! the account they belong to.

use crate::balance::Balance;
use crate::client::Client;
use crate::client::ClientState;
use crate::client::Outcome;
use crate::error::TransactionError;
use crate::records::csv_records;
use crate::records::read_records;
use crate::records::row_view;
use crate::records::rows_view;
use crate::transaction::record_fault;
use crate::transaction::record_transaction;
use crate::transaction::Transaction;
use crate::transaction::TransactionParseError;
use crate::ClientId;
use std::collections::HashMap;
use vstd::prelude::*;
use vstd::std_specs::hash::*;
use vstd::std_specs::iter::IteratorSpec;

verus! {

/// The account that client `id` has among `accounts`: the one kept for it,
/// or a new one where the client is not known yet.
pub open spec fn account_of(accounts: Map<ClientId, ClientState>, id: ClientId) -> ClientState {
    if accounts.contains_key(id) {
        accounts[id]
    } else {
        ClientState::new(id)
    }
}

/// The accounts after `transaction`: the account of the client that it
/// names takes the step, and the others stay as they are.
pub open spec fn step_accounts(
    accounts: Map<ClientId, ClientState>,
    transaction: Transaction,
) -> Map<ClientId, ClientState> {
    accounts.insert(transaction.client, account_of(accounts, transaction.client).step(transaction))
}

/// The accounts after the transactions of `batch`, taken in order.
pub open spec fn run_accounts(
    accounts: Map<ClientId, ClientState>,
    batch: Seq<Transaction>,
) -> Map<ClientId, ClientState>
    decreases batch.len(),
{
    if batch.len() == 0 {
        accounts
    } else {
        step_accounts(run_accounts(accounts, batch.drop_last()), batch.last())
    }
}

/// Each account is kept under the id that it carries.
pub open spec fn accounts_keyed(accounts: Map<ClientId, ClientState>) -> bool {
    forall|id: ClientId| #[trigger] accounts.contains_key(id) ==> accounts[id].id == id
}

/// A transaction opens the account of its client where there was none,
/// and never closes an account.
pub proof fn lemma_step_accounts_clients(
    accounts: Map<ClientId, ClientState>,
    transaction: Transaction,
)
    ensures
        step_accounts(accounts, transaction).dom() == accounts.dom().insert(transaction.client),
{
    assert(step_accounts(accounts, transaction).dom() =~= accounts.dom().insert(
        transaction.client,
    ));
}

/// A transaction leaves the accounts of the other clients as they are.
pub proof fn lemma_step_accounts_others(
    accounts: Map<ClientId, ClientState>,
    transaction: Transaction,
    other: ClientId,
)
    requires
        other != transaction.client,
        accounts.contains_key(other),
    ensures
        step_accounts(accounts, transaction)[other] == accounts[other],
{
}

/// A transaction keeps each account under the id that it carries.
pub proof fn lemma_step_accounts_keyed(
    accounts: Map<ClientId, ClientState>,
    transaction: Transaction,
)
    requires
        accounts_keyed(accounts),
    ensures
        accounts_keyed(step_accounts(accounts, transaction)),
{
}

/// A batch closes no account, and keeps each under the id that it carries.
pub proof fn lemma_run_accounts(accounts: Map<ClientId, ClientState>, batch: Seq<Transaction>)
    ensures
        accounts.dom().subset_of(run_accounts(accounts, batch).dom()),
        accounts_keyed(accounts) ==> accounts_keyed(run_accounts(accounts, batch)),
    decreases batch.len(),
{
    if batch.len() > 0 {
        lemma_run_accounts(accounts, batch.drop_last());
        let before = run_accounts(accounts, batch.drop_last());
        lemma_step_accounts_clients(before, batch.last());
        if accounts_keyed(accounts) {
            lemma_step_accounts_keyed(before, batch.last());
        }
    }
}

/// A locked account stays as it is through any batch.
pub proof fn lemma_locked_account_stays(
    accounts: Map<ClientId, ClientState>,
    batch: Seq<Transaction>,
    client: ClientId,
)
    requires
        accounts.contains_key(client),
        accounts[client].locked,
    ensures
        run_accounts(accounts, batch).contains_key(client),
        run_accounts(accounts, batch)[client] == accounts[client],
    decreases batch.len(),
{
    if batch.len() > 0 {
        lemma_locked_account_stays(accounts, batch.drop_last(), client);
        accounts[client].lemma_locked_step(batch.last());
    }
}

/// A record of a batch as contracts see it: a transaction, or the message
/// that says why it is none.
pub open spec fn record_view(record: Result<Transaction, TransactionParseError>) -> Result<
    Transaction,
    Seq<char>,
> {
    match record {
        Ok(transaction) => Ok(transaction),
        Err(error) => Err(error@),
    }
}

/// The records of a batch as contracts see them.
pub open spec fn records_view(records: Seq<Result<Transaction, TransactionParseError>>) -> Seq<
    Result<Transaction, Seq<char>>,
> {
    Seq::new(records.len(), |i: int| record_view(records[i]))
}

/// The record that a row makes: the transaction that its fields make, or
/// the message that says why they make none, or why the row could not be
/// read.
pub open spec fn row_record(row: Result<Seq<Seq<char>>, Seq<char>>) -> Result<
    Transaction,
    Seq<char>,
> {
    match row {
        Ok(fields) => match record_transaction(fields) {
            Some(transaction) => Ok(transaction),
            None => Err(record_fault(fields)),
        },
        Err(message) => Err(message),
    }
}

/// The records that the rows of a batch make.
pub open spec fn rows_records(rows: Seq<Result<Seq<Seq<char>>, Seq<char>>>) -> Seq<
    Result<Transaction, Seq<char>>,
> {
    Seq::new(rows.len(), |i: int| row_record(rows[i]))
}

/// The transactions that `records` holds, where each of them is one.
pub open spec fn transactions_of(records: Seq<Result<Transaction, Seq<char>>>) -> Seq<Transaction> {
    Seq::new(records.len(), |i: int| records[i]->Ok_0)
}

/// A transaction of a batch, and what became of it.
#[derive(Debug, Clone, Copy, PartialEq, Eq, Structural)]
pub struct Receipt {
    pub transaction: Transaction,
    pub outcome: Outcome,
}

/// What became of each transaction of `batch`, handed in order to the
/// accounts `before`.
pub open spec fn receipts_of(before: Map<ClientId, ClientState>, batch: Seq<Transaction>) -> Seq<
    Receipt,
> {
    Seq::new(
        batch.len(),
        |i: int|
            Receipt {
                transaction: batch[i],
                outcome: account_of(run_accounts(before, batch.take(i)), batch[i].client).outcome(
                    batch[i],
                ),
            },
    )
}

/// Whether `after` and `result` are what a batch of `records` makes of the
/// accounts `before`. Where every record is a transaction, all of them
/// have taken effect, in order, and there is a receipt for each. Else the
/// first record that is none ends the batch: the error gives its position
/// and its message, and the transactions before it have taken effect.
pub open spec fn batch_outcome(
    before: Map<ClientId, ClientState>,
    records: Seq<Result<Transaction, Seq<char>>>,
    after: Map<ClientId, ClientState>,
    result: Result<Vec<Receipt>, TransactionError>,
) -> bool {
    match result {
        Ok(receipts) => {
            &&& forall|i: int| 0 <= i < records.len() ==> (#[trigger] records[i]) is Ok
            &&& after == run_accounts(before, transactions_of(records))
            &&& receipts@ == receipts_of(before, transactions_of(records))
        },
        Err(TransactionError::FileTransaction(position, error)) => {
            &&& 0 <= position < records.len()
            &&& forall|i: int| 0 <= i < position ==> (#[trigger] records[i]) is Ok
            &&& records[position as int] == Err::<Transaction, Seq<char>>(error@)
            &&& after == run_accounts(before, transactions_of(records.take(position as int)))
        },
        Err(TransactionError::FileUnreadable(_)) => false,
    }
}

/// One client's funds and lock, as a report shows them.
#[derive(Debug, Clone, Copy, PartialEq, Eq, Structural)]
pub struct AccountStatus {
    pub client: ClientId,
    pub available: Balance,
    pub held: Balance,
    pub total: Balance,
    pub locked: bool,
}

impl AccountStatus {
    /// Whether the row shows the account `account`, kept under `id`.
    pub open spec fn shows(self, id: ClientId, account: ClientState) -> bool {
        &&& self.client == id
        &&& self.available@ == account.available()
        &&& self.held@ == account.held_funds()
        &&& self.total@ == account.total()
        &&& self.locked == account.locked
    }
}

/// Tracks the accounts of all clients.
#[derive(Debug)]
pub struct Bank {
    clients: HashMap<ClientId, Client>,
}

impl View for Bank {
    type V = Map<ClientId, ClientState>;

    /// The state of each known client's account, by client id.
    closed spec fn view(&self) -> Map<ClientId, ClientState> {
        self.clients@.map_values(|client: Client| client@)
    }
}

impl Default for Bank {
    /// A bank that knows no client.
    fn default() -> (bank: Self)
        ensures
            bank@ == Map::<ClientId, ClientState>::empty(),
    {
        Bank::new()
    }
}

impl Bank {
    /// A bank that knows no client.
    pub fn new() -> (bank: Self)
        ensures
            bank@ == Map::<ClientId, ClientState>::empty(),
    {
        let bank = Self { clients: HashMap::new() };
        assert(bank@ =~= Map::<ClientId, ClientState>::empty());
        bank
    }

    /// The current state of all clients: one row for each known client,
    /// in no particular order.
    pub fn snapshot(&self) -> (rows: Vec<AccountStatus>)
        ensures
            rows.len() == self@.len(),
            forall|i: int|
                0 <= i < rows.len() ==> self@.contains_key((#[trigger] rows[i]).client)
                    && rows[i].shows(rows[i].client, self@[rows[i].client]),
            forall|i: int, j: int|
                0 <= i < j < rows.len() ==> (#[trigger] rows[i]).client != (#[trigger] rows[j]).client,
            forall|id: ClientId| #[trigger]
                self@.contains_key(id) ==> exists|i: int|
                    0 <= i < rows.len() && (#[trigger] rows[i]).client == id,
    {
        broadcast use group_hash_axioms;
        let mut rows: Vec<AccountStatus> = Vec::new();
        let ghost pairs = spec_hash_map_iter(&self.clients).remaining();
        for pair in it: self.clients.iter()
            invariant
                it.seq() == pairs,
                pairs == spec_hash_map_iter(&self.clients).remaining(),
                rows.len() == it.index(),
                forall|i: int|
                    0 <= i < rows.len() ==> (#[trigger] rows[i]).shows(*pairs[i].0, (*pairs[i].1)@),
        {
            rows.push(
                AccountStatus {
                    client: *pair.0,
                    available: pair.1.available(),
                    held: pair.1.hold(),
                    total: pair.1.total(),
                    locked: pair.1.locked(),
                },
            );
        }
        proof {
            assert(self@.dom() =~= self.clients@.dom());
            assert forall|i: int, j: int| 0 <= i < j < rows.len() implies (#[trigger] rows[i]).client
                != (#[trigger] rows[j]).client by {
                if *pairs[i].0 == *pairs[j].0 {
                    assert(self.clients@[*pairs[i].0] == *pairs[i].1);
                    assert(self.clients@[*pairs[j].0] == *pairs[j].1);
                    assert(pairs[i] == pairs[j]);
                }
            }
            assert forall|i: int| 0 <= i < rows.len() implies self@.contains_key(
                (#[trigger] rows[i]).client,
            ) && rows[i].shows(rows[i].client, self@[rows[i].client]) by {
                assert(self.clients@.contains_key(*pairs[i].0));
                assert(self.clients@[*pairs[i].0] == *pairs[i].1);
            }
            assert forall|id: ClientId| #[trigger] self@.contains_key(id) implies exists|i: int|
                0 <= i < rows.len() && (#[trigger] rows[i]).client == id by {
                assert(self.clients@.contains_key(id));
                assert(pairs.contains((&id, &self.clients@[id])));
                let i = choose|i: int| 0 <= i < pairs.len() && pairs[i] == (&id, &self.clients@[id]);
                assert(rows[i].client == id);
            }
        }
        rows
    }

    /// Handles all transaction processing for the content of a single
    /// batch file: comma-separated text with a header row, and then one
    /// row for each transaction. The rows are read with the `csv` crate.
    /// The first row that could not be read, or that makes no
    /// transaction, ends the batch.
    pub fn process_file(&mut self, content: &[u8]) -> (result: Result<
        Vec<Receipt>,
        TransactionError,
    >)
        ensures
            batch_outcome(old(self)@, rows_records(csv_records(content@)), final(self)@, result),
            accounts_keyed(old(self)@) ==> accounts_keyed(final(self)@),
    {
        self.process_rows(read_records(content))
    }

    /// Processes the rows of a batch in order: for each row its fields,
    /// or a message where the row could not be read. The first row that
    /// could not be read, or that makes no transaction, ends the batch.
    pub fn process_rows(&mut self, rows: Vec<Result<Vec<String>, String>>) -> (result: Result<
        Vec<Receipt>,
        TransactionError,
    >)
        ensures
            batch_outcome(old(self)@, rows_records(rows_view(rows@)), final(self)@, result),
            accounts_keyed(old(self)@) ==> accounts_keyed(final(self)@),
    {
        let mut records: Vec<Result<Transaction, TransactionParseError>> = Vec::new();
        let mut i: usize = 0;
        while i < rows.len()
            invariant
                i <= rows.len(),
                records.len() == i,
                forall|j: int|
                    0 <= j < i ==> record_view(#[trigger] records[j]) == row_record(
                        row_view(rows[j]),
                    ),
            decreases rows.len() - i,
        {
            let record = match &rows[i] {
                Ok(fields) => Transaction::from_fields(fields),
                Err(message) => Err(TransactionParseError::new(message.clone())),
            };
            records.push(record);
            i = i + 1;
        }
        assert(records_view(records@) =~= rows_records(rows_view(rows@)));
        self.process_records(records)
    }

    /// Processes a batch of records in order, up to the first that is no
    /// transaction: that one ends the batch, and the error names its
    /// position. The transactions before it have taken effect.
    pub fn process_records(
        &mut self,
        records: Vec<Result<Transaction, TransactionParseError>>,
    ) -> (result: Result<Vec<Receipt>, TransactionError>)
        ensures
            batch_outcome(old(self)@, records_view(records@), final(self)@, result),
            accounts_keyed(old(self)@) ==> accounts_keyed(final(self)@),
    {
        let ghost views = records_view(records@);
        let mut receipts: Vec<Receipt> = Vec::new();
        let mut position: usize = 0;
        while position < records.len()
            invariant
                position <= records.len(),
                views == records_view(records@),
                forall|i: int| 0 <= i < position ==> (#[trigger] views[i]) is Ok,
                self@ == run_accounts(old(self)@, transactions_of(views.take(position as int))),
                receipts@ == receipts_of(old(self)@, transactions_of(views.take(position as int))),
                accounts_keyed(old(self)@) ==> accounts_keyed(self@),
            decreases records.len() - position,
        {
            match &records[position] {
                Ok(transaction) => {
                    let ghost before = transactions_of(views.take(position as int));
                    let ghost after = transactions_of(views.take(position + 1));
                    proof {
                        assert(after.drop_last() =~= before);
                        assert(after.last() == *transaction);
                        assert(after.take(position as int) =~= before);
                        assert forall|i: int| 0 <= i < position implies after.take(i)
                            == before.take(i) by {
                            assert(after.take(i) =~= before.take(i));
                        }
                    }
                    let outcome = self.process_transaction(*transaction);
                    receipts.push(Receipt { transaction: *transaction, outcome });
                    assert(receipts@ =~= receipts_of(old(self)@, after));
                },
                Err(error) => {
                    return Err(TransactionError::FileTransaction(position, error.clone()));
                },
            }
            position = position + 1;
        }
        assert(views.take(records.len() as int) =~= views);
        Ok(receipts)
    }

    /// Processes an individual transaction: hands it to the account of the
    /// client it names, which is opened first if the client is new, and
    /// reports what became of it.
    pub fn process_transaction(&mut self, transaction: Transaction) -> (outcome: Outcome)
        ensures
            final(self)@ == step_accounts(old(self)@, transaction),
            outcome == account_of(old(self)@, transaction.client).outcome(transaction),
            accounts_keyed(old(self)@) ==> accounts_keyed(final(self)@),
    {
        broadcast use group_hash_axioms;
        let client = self.clients.entry(transaction.client).or_insert(Client::new(transaction.client));
        let outcome = client.process_transaction(transaction);
        assert(self@ =~= step_accounts(old(self)@, transaction));
        proof {
            if accounts_keyed(old(self)@) {
                lemma_step_accounts_keyed(old(self)@, transaction);
            }
        }
        outcome
    }
}

} // verus!
