//! A client's account: the transactions it keeps, those under dispute, and
//! the rules by which a transaction changes them.

use crate::balance::lemma_signed_sum_insert;
use crate::balance::lemma_sum_below_empty;
use crate::balance::lemma_signed_sum_range;
use crate::balance::lemma_signed_sum_remove;
use crate::balance::signed_sum;
use crate::balance::sum_entries;
use crate::balance::Balance;
use crate::transaction::Transaction;
use crate::transaction::TransactionType;
use crate::ClientId;
use crate::TransactionId;
use std::collections::HashMap;
use vstd::prelude::*;
use vstd::std_specs::hash::*;

verus! {

/// Why a transaction was left without effect.
#[derive(Debug, Clone, Copy, PartialEq, Eq, Structural)]
pub enum Rejection {
    /// The account is locked: nothing changes it any more.
    AccountLocked,
    /// A withdrawal asked for more than is available.
    InsufficientFunds,
    /// A dispute named a transaction that is not active.
    NotActive,
    /// A resolution or a chargeback named a transaction that is not under
    /// dispute.
    NotDisputed,
}

/// What became of a transaction handed to a client.
#[derive(Debug, Clone, Copy, PartialEq, Eq, Structural)]
pub enum Outcome {
    /// The transaction took effect.
    Applied,
    /// The transaction changed nothing, for the reason given.
    Rejected(Rejection),
}

/// The state of a client's account as contracts see it.
pub struct ClientState {
    /// The client's id.
    pub id: ClientId,
    /// The deposits and withdrawals that count towards the available
    /// funds, by transaction id.
    pub active: Map<TransactionId, TransactionType>,
    /// The deposits and withdrawals under dispute, by transaction id.
    pub held: Map<TransactionId, TransactionType>,
    /// Whether a chargeback has locked the account.
    pub locked: bool,
}

impl ClientState {
    /// The account of a client that has seen no transaction.
    pub open spec fn new(id: ClientId) -> ClientState {
        ClientState { id, active: Map::empty(), held: Map::empty(), locked: false }
    }

    /// No transaction is both active and under dispute, and only deposits
    /// and withdrawals are kept.
    pub open spec fn wf(self) -> bool {
        &&& forall|id: TransactionId|
            !(#[trigger] self.active.contains_key(id) && self.held.contains_key(id))
        &&& forall|id: TransactionId| #[trigger]
            self.active.contains_key(id) ==> self.active[id].is_entry()
        &&& forall|id: TransactionId| #[trigger]
            self.held.contains_key(id) ==> self.held[id].is_entry()
    }

    /// The available funds: the signed sum of the active transactions.
    pub open spec fn available(self) -> int {
        signed_sum(self.active)
    }

    /// The funds on hold: the signed sum of the transactions under dispute.
    pub open spec fn held_funds(self) -> int {
        signed_sum(self.held)
    }

    /// The total funds: available and held together.
    pub open spec fn total(self) -> int {
        self.available() + self.held_funds()
    }

    /// Why `transaction` leaves this account unchanged, if it does.
    pub open spec fn rejection(self, transaction: Transaction) -> Option<Rejection> {
        let id = transaction.transaction_id;
        if self.locked {
            Some(Rejection::AccountLocked)
        } else {
            match transaction.transaction_type {
                TransactionType::Deposit(_) => None,
                TransactionType::Withdrawal(amount) => if self.available() < amount@ {
                    Some(Rejection::InsufficientFunds)
                } else {
                    None
                },
                TransactionType::Dispute => if self.active.contains_key(id) {
                    None
                } else {
                    Some(Rejection::NotActive)
                },
                TransactionType::Resolve => if self.held.contains_key(id) {
                    None
                } else {
                    Some(Rejection::NotDisputed)
                },
                TransactionType::Chargeback => if self.held.contains_key(id) {
                    None
                } else {
                    Some(Rejection::NotDisputed)
                },
            }
        }
    }

    /// What `transaction` reports back.
    pub open spec fn outcome(self, transaction: Transaction) -> Outcome {
        match self.rejection(transaction) {
            Some(reason) => Outcome::Rejected(reason),
            None => Outcome::Applied,
        }
    }

    /// The account after `transaction`.
    ///
    /// A rejected transaction changes nothing. A deposit or withdrawal
    /// becomes active under its id. A dispute moves the transaction it
    /// names from active to held, a resolution moves it back, and a
    /// chargeback drops it from held and locks the account.
    pub open spec fn step(self, transaction: Transaction) -> ClientState {
        let id = transaction.transaction_id;
        if self.rejection(transaction) is Some {
            self
        } else {
            match transaction.transaction_type {
                TransactionType::Deposit(_) | TransactionType::Withdrawal(_) => ClientState {
                    active: self.active.insert(id, transaction.transaction_type),
                    ..self
                },
                TransactionType::Dispute => ClientState {
                    active: self.active.remove(id),
                    held: self.held.insert(id, self.active[id]),
                    ..self
                },
                TransactionType::Resolve => ClientState {
                    active: self.active.insert(id, self.held[id]),
                    held: self.held.remove(id),
                    ..self
                },
                TransactionType::Chargeback => ClientState {
                    held: self.held.remove(id),
                    locked: true,
                    ..self
                },
            }
        }
    }

    /// The account after the transactions of `batch`, taken in order.
    pub open spec fn run(self, batch: Seq<Transaction>) -> ClientState
        decreases batch.len(),
    {
        if batch.len() == 0 {
            self
        } else {
            self.run(batch.drop_last()).step(batch.last())
        }
    }

    /// Whether `transaction` comes under an id that it may use: a deposit
    /// or a withdrawal does not take the id of a transaction that is under
    /// dispute.
    pub open spec fn admits(self, transaction: Transaction) -> bool {
        transaction.transaction_type.is_entry() ==> !self.held.contains_key(
            transaction.transaction_id,
        )
    }

    /// Whether each transaction of `batch` comes under an id that it may
    /// use when its turn comes.
    pub open spec fn admits_all(self, batch: Seq<Transaction>) -> bool {
        forall|i: int| 0 <= i < batch.len() ==> self.run(batch.take(i)).admits(#[trigger] batch[i])
    }

    /// A step keeps the account well formed, where no deposit or
    /// withdrawal reuses the id of a transaction under dispute.
    pub proof fn lemma_step_wf(self, transaction: Transaction)
        requires
            self.wf(),
            self.admits(transaction),
        ensures
            self.step(transaction).wf(),
    {
    }

    /// A batch keeps the account well formed, where no deposit or
    /// withdrawal reuses the id of a transaction under dispute.
    pub proof fn lemma_run_wf(self, batch: Seq<Transaction>)
        requires
            self.wf(),
            self.admits_all(batch),
        ensures
            self.run(batch).wf(),
        decreases batch.len(),
    {
        if batch.len() > 0 {
            let before = batch.drop_last();
            assert forall|i: int| 0 <= i < before.len() implies self.run(before.take(i)).admits(
                #[trigger] before[i],
            ) by {
                assert(before.take(i) =~= batch.take(i));
                assert(before[i] == batch[i]);
            }
            self.lemma_run_wf(before);
            assert(batch.take(batch.len() - 1) =~= before);
            assert(batch[batch.len() - 1] == batch.last());
            self.run(before).lemma_step_wf(batch.last());
        }
    }

    /// Deposits leave the transactions under dispute as they are.
    pub proof fn lemma_deposits_keep_held(self, batch: Seq<Transaction>)
        requires
            forall|i: int| 0 <= i < batch.len() ==> (#[trigger] batch[i]).transaction_type is Deposit,
        ensures
            self.run(batch).held == self.held,
        decreases batch.len(),
    {
        if batch.len() > 0 {
            let before = batch.drop_last();
            assert forall|i: int| 0 <= i < before.len() implies (
            #[trigger] before[i]).transaction_type is Deposit by {
                assert(before[i] == batch[i]);
            }
            self.lemma_deposits_keep_held(before);
        }
    }

    /// After any sequence of deposits into a new account nothing is held,
    /// and the total funds are the available funds.
    pub proof fn lemma_deposits_only(id: ClientId, batch: Seq<Transaction>)
        requires
            forall|i: int| 0 <= i < batch.len() ==> (#[trigger] batch[i]).transaction_type is Deposit,
        ensures
            ClientState::new(id).run(batch).held_funds() == 0,
            ClientState::new(id).run(batch).total() == ClientState::new(id).run(batch).available(),
    {
        ClientState::new(id).lemma_deposits_keep_held(batch);
        lemma_sum_below_empty(0x1_0000_0000);
    }

    /// Resolving a transaction that is not under dispute changes nothing.
    pub proof fn lemma_resolve_not_held(self, transaction: Transaction)
        requires
            transaction.transaction_type is Resolve,
            !self.held.contains_key(transaction.transaction_id),
        ensures
            self.step(transaction) == self,
    {
    }

    /// A dispute followed by a resolution of the same transaction, which
    /// was not under dispute before, gives back the account as it was,
    /// and so its available and held funds.
    pub proof fn lemma_dispute_then_resolve(self, dispute: Transaction, resolve: Transaction)
        requires
            dispute.transaction_type is Dispute,
            resolve.transaction_type is Resolve,
            dispute.transaction_id == resolve.transaction_id,
            !self.held.contains_key(dispute.transaction_id),
        ensures
            self.step(dispute).step(resolve) == self,
            self.step(dispute).step(resolve).available() == self.available(),
            self.step(dispute).step(resolve).held_funds() == self.held_funds(),
    {
        let after = self.step(dispute).step(resolve);
        assert(after.active =~= self.active);
        assert(after.held =~= self.held);
    }

    /// A withdrawal of more than the available funds is rejected and
    /// changes nothing.
    pub proof fn lemma_withdrawal_beyond_available(self, transaction: Transaction)
        requires
            transaction.transaction_type matches TransactionType::Withdrawal(amount)
                && amount@ > self.available(),
        ensures
            self.outcome(transaction) is Rejected,
            self.step(transaction) == self,
    {
    }

    /// A rejected transaction changes nothing.
    pub proof fn lemma_rejected_step(self, transaction: Transaction)
        requires
            self.outcome(transaction) is Rejected,
        ensures
            self.step(transaction) == self,
    {
    }

    /// Nothing changes a locked account.
    pub proof fn lemma_locked_step(self, transaction: Transaction)
        requires
            self.locked,
        ensures
            self.outcome(transaction) == Outcome::Rejected(Rejection::AccountLocked),
            self.step(transaction) == self,
    {
    }

    /// No batch changes a locked account: its funds and its lock stay.
    pub proof fn lemma_locked_run(self, batch: Seq<Transaction>)
        requires
            self.locked,
        ensures
            self.run(batch) == self,
        decreases batch.len(),
    {
        if batch.len() > 0 {
            self.lemma_locked_run(batch.drop_last());
        }
    }

    /// A step never unlocks an account.
    pub proof fn lemma_lock_stays(self, transaction: Transaction)
        ensures
            self.locked ==> self.step(transaction).locked,
    {
    }

    /// A chargeback of a transaction that is not under dispute changes
    /// nothing: it does not lock the account.
    pub proof fn lemma_chargeback_not_held(self, transaction: Transaction)
        requires
            transaction.transaction_type is Chargeback,
            !self.held.contains_key(transaction.transaction_id),
        ensures
            self.step(transaction) == self,
    {
    }

    /// A dispute or a resolution moves funds between available and held
    /// and leaves the total as it was.
    pub proof fn lemma_dispute_resolve_keep_total(self, transaction: Transaction)
        requires
            self.wf(),
            transaction.transaction_type is Dispute || transaction.transaction_type is Resolve,
        ensures
            self.step(transaction).total() == self.total(),
    {
        let id = transaction.transaction_id;
        if self.rejection(transaction) is None {
            if transaction.transaction_type is Dispute {
                lemma_signed_sum_remove(self.active, id);
                lemma_signed_sum_insert(self.held, id, self.active[id]);
            } else {
                lemma_signed_sum_remove(self.held, id);
                lemma_signed_sum_insert(self.active, id, self.held[id]);
            }
        }
    }

    /// A chargeback that takes effect takes the disputed transaction out
    /// of the held funds, leaves the available funds, and locks the account.
    pub proof fn lemma_chargeback_applied(self, transaction: Transaction)
        requires
            transaction.transaction_type is Chargeback,
            !self.locked,
            self.held.contains_key(transaction.transaction_id),
        ensures
            self.step(transaction).locked,
            self.step(transaction).available() == self.available(),
            self.step(transaction).held_funds() == self.held_funds()
                - self.held[transaction.transaction_id].signed_value(),
    {
        lemma_signed_sum_remove(self.held, transaction.transaction_id);
    }

    /// A deposit under an id that the account does not know raises the
    /// available funds by its amount.
    pub proof fn lemma_deposit_applied(self, transaction: Transaction)
        requires
            transaction.transaction_type is Deposit,
            !self.locked,
            !self.active.contains_key(transaction.transaction_id),
            !self.held.contains_key(transaction.transaction_id),
        ensures
            self.step(transaction).available() == self.available()
                + transaction.transaction_type.signed_value(),
            self.step(transaction).held_funds() == self.held_funds(),
    {
        lemma_signed_sum_insert(self.active, transaction.transaction_id, transaction.transaction_type);
    }

    /// A withdrawal of no more than the available funds, under an id that
    /// the account does not know, lowers the available funds by its amount.
    pub proof fn lemma_withdrawal_applied(self, transaction: Transaction)
        requires
            transaction.transaction_type matches TransactionType::Withdrawal(amount)
                && amount@ <= self.available(),
            !self.locked,
            !self.active.contains_key(transaction.transaction_id),
            !self.held.contains_key(transaction.transaction_id),
        ensures
            self.step(transaction).available() == self.available()
                + transaction.transaction_type.signed_value(),
            self.step(transaction).held_funds() == self.held_funds(),
    {
        lemma_signed_sum_insert(self.active, transaction.transaction_id, transaction.transaction_type);
    }
}

/// Stores all details of a client's account status.
#[derive(Debug)]
pub struct Client {
    id: ClientId,
    transactions: HashMap<TransactionId, TransactionType>,
    disputed_transactions: HashMap<TransactionId, TransactionType>,
    locked: bool,
}

impl View for Client {
    type V = ClientState;

    closed spec fn view(&self) -> ClientState {
        ClientState {
            id: self.id,
            active: self.transactions@,
            held: self.disputed_transactions@,
            locked: self.locked,
        }
    }
}

impl Client {
    /// The account of client `id`, with no transaction and not locked.
    pub fn new(id: ClientId) -> (client: Self)
        ensures
            client@ == ClientState::new(id),
            client@.wf(),
    {
        Self { id, transactions: HashMap::new(), disputed_transactions: HashMap::new(), locked: false }
    }

    /// The client's id.
    pub fn id(&self) -> (id: ClientId)
        ensures
            id == self@.id,
    {
        self.id
    }

    /// Current available funds.
    pub fn available(&self) -> (funds: Balance)
        ensures
            funds@ == self@.available(),
    {
        self.sum_transactions(&self.transactions)
    }

    /// Current funds on hold.
    pub fn hold(&self) -> (funds: Balance)
        ensures
            funds@ == self@.held_funds(),
    {
        self.sum_transactions(&self.disputed_transactions)
    }

    /// Current total funds for the account.
    pub fn total(&self) -> (funds: Balance)
        ensures
            funds@ == self@.total(),
    {
        let available = self.sum_transactions(&self.transactions);
        let held = self.sum_transactions(&self.disputed_transactions);
        proof {
            lemma_signed_sum_range(self.transactions@);
            lemma_signed_sum_range(self.disputed_transactions@);
        }
        Balance::new(available.value() + held.value())
    }

    /// Is the account currently locked? (If so, all incoming transactions
    /// are rejected.)
    pub fn locked(&self) -> (locked: bool)
        ensures
            locked == self@.locked,
    {
        self.locked
    }

    /// The signed sum of the transactions in `transactions`: deposits
    /// count with their amount, withdrawals with their negated amount.
    pub fn sum_transactions(
        &self,
        transactions: &HashMap<TransactionId, TransactionType>,
    ) -> (sum: Balance)
        ensures
            sum@ == signed_sum(transactions@),
    {
        Balance::new(sum_entries(transactions))
    }

    /// Process a single transaction and report what became of it.
    ///
    /// A transaction that cannot take effect is rejected and leaves the
    /// account as it was.
    pub fn process_transaction(&mut self, transaction: Transaction) -> (outcome: Outcome)
        ensures
            final(self)@ == old(self)@.step(transaction),
            outcome == old(self)@.outcome(transaction),
    {
        broadcast use group_hash_axioms;
        if self.locked {
            return Outcome::Rejected(Rejection::AccountLocked);
        }
        let id = transaction.transaction_id;
        match transaction.transaction_type {
            TransactionType::Deposit(_) => {
                self.transactions.insert(id, transaction.transaction_type);
                Outcome::Applied
            },
            TransactionType::Withdrawal(amount) => {
                let current_balance = self.available();
                if current_balance.value() < amount.value() as i128 {
                    return Outcome::Rejected(Rejection::InsufficientFunds);
                }
                self.transactions.insert(id, transaction.transaction_type);
                Outcome::Applied
            },
            TransactionType::Dispute => {
                match self.transactions.remove(&id) {
                    Some(previous_transaction) => {
                        self.disputed_transactions.insert(id, previous_transaction);
                        Outcome::Applied
                    },
                    None => {
                        assert(self@.active =~= old(self)@.active);
                        Outcome::Rejected(Rejection::NotActive)
                    },
                }
            },
            TransactionType::Resolve => {
                match self.disputed_transactions.remove(&id) {
                    Some(previous_transaction) => {
                        self.transactions.insert(id, previous_transaction);
                        Outcome::Applied
                    },
                    None => {
                        assert(self@.held =~= old(self)@.held);
                        Outcome::Rejected(Rejection::NotDisputed)
                    },
                }
            },
            TransactionType::Chargeback => {
                if self.disputed_transactions.remove(&id).is_some() {
                    self.locked = true;
                    Outcome::Applied
                } else {
                    assert(self@.held =~= old(self)@.held);
                    Outcome::Rejected(Rejection::NotDisputed)
                }
            },
        }
    }
}

} // verus!
