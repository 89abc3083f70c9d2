//! Balances: the signed sum of a set of kept transactions.

use crate::decimal::decimal_text;
use crate::decimal::decimal_value;
use crate::decimal::format_decimal;
use crate::transaction::TransactionType;
use crate::TransactionId;
use std::cmp::Ordering;
use std::collections::HashMap;
use vstd::prelude::*;
use vstd::std_specs::cmp::PartialOrdSpecImpl;
use vstd::std_specs::hash::*;
use vstd::std_specs::iter::IteratorSpec;

verus! {

/// A balance: a signed number of ten-thousandths, wide enough for the sum
/// of every transaction that a client can keep.
#[derive(Debug, Clone, Copy, PartialEq, Eq, Structural, Ord, Hash)]
pub struct Balance(i128);

impl View for Balance {
    type V = int;

    /// The number of ten-thousandths.
    closed spec fn view(&self) -> int {
        self.0 as int
    }
}

impl Balance {
    /// The balance of `value` ten-thousandths.
    pub fn new(value: i128) -> (r: Self)
        ensures
            r@ == value,
    {
        Self(value)
    }

    /// The number of ten-thousandths held.
    pub fn value(&self) -> (v: i128)
        ensures
            v == self@,
    {
        self.0
    }

    /// The balance in decimal, with as many digits behind the point as it
    /// needs, at most four.
    pub fn to_decimal_string(&self) -> (text: String)
        ensures
            text@ == decimal_text(self@),
            decimal_value(text@) == Some(self@),
    {
        format_decimal(self.0)
    }

    /// Two balances are equal exactly when they hold the same number of
    /// ten-thousandths.
    pub proof fn lemma_equal_iff_same_value(self, other: Balance)
        ensures
            self == other <==> self@ == other@,
    {
    }
}

impl PartialOrd for Balance {
    /// Balances are ordered as the numbers they hold.
    fn partial_cmp(&self, other: &Balance) -> (order: Option<Ordering>) {
        if self.0 < other.0 {
            Some(Ordering::Less)
        } else if self.0 == other.0 {
            Some(Ordering::Equal)
        } else {
            Some(Ordering::Greater)
        }
    }
}

impl PartialOrdSpecImpl for Balance {
    open spec fn obeys_partial_cmp_spec() -> bool {
        true
    }

    open spec fn partial_cmp_spec(&self, other: &Balance) -> Option<Ordering> {
        if self@ < other@ {
            Some(Ordering::Less)
        } else if self@ == other@ {
            Some(Ordering::Equal)
        } else {
            Some(Ordering::Greater)
        }
    }
}

/// What the transaction kept under `id`, if there is one, adds to the sum
/// of `entries`.
pub open spec fn contribution(entries: Map<TransactionId, TransactionType>, id: int) -> int {
    if 0 <= id <= u32::MAX && entries.contains_key(id as u32) {
        entries[id as u32].signed_value()
    } else {
        0
    }
}

/// The signed sum of the transactions kept under the ids below `n`.
pub open spec fn sum_below(entries: Map<TransactionId, TransactionType>, n: nat) -> int
    decreases n,
{
    if n == 0 {
        0
    } else {
        sum_below(entries, (n - 1) as nat) + contribution(entries, n - 1)
    }
}

/// The signed sum of all the transactions in `entries`: deposits count
/// with their amount, withdrawals with their negated amount.
pub open spec fn signed_sum(entries: Map<TransactionId, TransactionType>) -> int {
    sum_below(entries, 0x1_0000_0000)
}

/// Nothing kept sums to nothing.
pub proof fn lemma_sum_below_empty(n: nat)
    ensures
        sum_below(Map::empty(), n) == 0,
    decreases n,
{
    if n > 0 {
        lemma_sum_below_empty((n - 1) as nat);
    }
}

/// Keeping `t` under `id` replaces what `id` contributed before by the
/// signed value of `t`.
pub proof fn lemma_sum_below_insert(
    entries: Map<TransactionId, TransactionType>,
    id: TransactionId,
    t: TransactionType,
    n: nat,
)
    ensures
        sum_below(entries.insert(id, t), n) == sum_below(entries, n) + if id < n {
            t.signed_value() - contribution(entries, id as int)
        } else {
            0
        },
    decreases n,
{
    if n > 0 {
        lemma_sum_below_insert(entries, id, t, (n - 1) as nat);
    }
}

/// Dropping `id` takes away what it contributed.
pub proof fn lemma_sum_below_remove(
    entries: Map<TransactionId, TransactionType>,
    id: TransactionId,
    n: nat,
)
    ensures
        sum_below(entries.remove(id), n) == sum_below(entries, n) - if id < n {
            contribution(entries, id as int)
        } else {
            0
        },
    decreases n,
{
    if n > 0 {
        lemma_sum_below_remove(entries, id, (n - 1) as nat);
    }
}

/// Each of the `n` ids contributes at most the largest amount in either
/// direction.
pub proof fn lemma_sum_below_range(entries: Map<TransactionId, TransactionType>, n: nat)
    ensures
        -(n * 0x8000_0000_0000_0000) <= sum_below(entries, n) <= n * 0x8000_0000_0000_0000,
    decreases n,
{
    if n > 0 {
        lemma_sum_below_range(entries, (n - 1) as nat);
        let id = (n - 1) as int;
        if 0 <= id <= u32::MAX && entries.contains_key(id as u32) {
            match entries[id as u32] {
                TransactionType::Deposit(amount) => amount.lemma_range(),
                TransactionType::Withdrawal(amount) => amount.lemma_range(),
                _ => {},
            }
        }
        assert(n * 0x8000_0000_0000_0000 == (n - 1) * 0x8000_0000_0000_0000
            + 0x8000_0000_0000_0000) by (nonlinear_arith);
    }
}

/// The signed sum after `t` is kept under `id`.
pub proof fn lemma_signed_sum_insert(
    entries: Map<TransactionId, TransactionType>,
    id: TransactionId,
    t: TransactionType,
)
    ensures
        signed_sum(entries.insert(id, t)) == signed_sum(entries) + t.signed_value() - contribution(
            entries,
            id as int,
        ),
{
    lemma_sum_below_insert(entries, id, t, 0x1_0000_0000);
}

/// The signed sum after `id` is dropped.
pub proof fn lemma_signed_sum_remove(entries: Map<TransactionId, TransactionType>, id: TransactionId)
    ensures
        signed_sum(entries.remove(id)) == signed_sum(entries) - contribution(entries, id as int),
{
    lemma_sum_below_remove(entries, id, 0x1_0000_0000);
}

/// A signed sum fits in 96 bits, and so in a `Balance`.
pub proof fn lemma_signed_sum_range(entries: Map<TransactionId, TransactionType>)
    ensures
        -0x8000_0000_0000_0000_0000_0000 <= signed_sum(entries) <= 0x8000_0000_0000_0000_0000_0000,
{
    lemma_sum_below_range(entries, 0x1_0000_0000);
}

/// The signed sum of the transactions that `pairs` lists, in order.
pub open spec fn listed_sum<'a>(pairs: Seq<(&'a TransactionId, &'a TransactionType)>) -> int
    decreases pairs.len(),
{
    if pairs.len() == 0 {
        0
    } else {
        listed_sum(pairs.drop_last()) + pairs.last().1.signed_value()
    }
}

/// A listing of `entries` that names each kept id once sums to the
/// signed sum of `entries`.
pub proof fn lemma_listed_sum<'a>(
    pairs: Seq<(&'a TransactionId, &'a TransactionType)>,
    entries: Map<TransactionId, TransactionType>,
)
    requires
        forall|i: int, j: int|
            0 <= i < j < pairs.len() ==> *(#[trigger] pairs[i]).0 != *(#[trigger] pairs[j]).0,
        forall|i: int|
            0 <= i < pairs.len() ==> entries.contains_key(*(#[trigger] pairs[i]).0)
                && entries[*pairs[i].0] == *pairs[i].1,
        forall|id: TransactionId| #[trigger]
            entries.contains_key(id) ==> exists|i: int|
                0 <= i < pairs.len() && *(#[trigger] pairs[i]).0 == id,
    ensures
        listed_sum(pairs) == signed_sum(entries),
    decreases pairs.len(),
{
    if pairs.len() == 0 {
        assert(entries =~= Map::empty()) by {
            assert forall|id: TransactionId| !entries.contains_key(id) by {
                if entries.contains_key(id) {
                    let i = choose|i: int| 0 <= i < pairs.len() && *(#[trigger] pairs[i]).0 == id;
                }
            }
        }
        lemma_sum_below_empty(0x1_0000_0000);
    } else {
        let rest = pairs.drop_last();
        let last = pairs.last();
        let id = *last.0;
        let fewer = entries.remove(id);
        assert(pairs[pairs.len() - 1] == last);
        assert forall|key: TransactionId| #[trigger] fewer.contains_key(key) implies exists|i: int|
            0 <= i < rest.len() && *(#[trigger] rest[i]).0 == key by {
            assert(entries.contains_key(key));
            let i = choose|i: int| 0 <= i < pairs.len() && *(#[trigger] pairs[i]).0 == key;
            assert(i < pairs.len() - 1);
            assert(rest[i] == pairs[i]);
        }
        assert forall|i: int| 0 <= i < rest.len() implies fewer.contains_key(
            *(#[trigger] rest[i]).0,
        ) && fewer[*rest[i].0] == *rest[i].1 by {
            assert(rest[i] == pairs[i]);
        }
        assert forall|i: int, j: int| 0 <= i < j < rest.len() implies *(#[trigger] rest[i]).0 != *(
        #[trigger] rest[j]).0 by {
            assert(rest[i] == pairs[i]);
            assert(rest[j] == pairs[j]);
        }
        lemma_listed_sum(rest, fewer);
        lemma_signed_sum_remove(entries, id);
    }
}

/// The signed sum of the transactions that a map keeps.
pub fn sum_entries(transactions: &HashMap<TransactionId, TransactionType>) -> (sum: i128)
    ensures
        sum == signed_sum(transactions@),
{
    broadcast use group_hash_axioms;
    let count = transactions.len();
    let mut sum: i128 = 0;
    for pair in it: transactions.iter()
        invariant
            it.seq() == spec_hash_map_iter(transactions).remaining(),
            it.seq().len() == count,
            sum == listed_sum(it.seq().take(it.index())),
            -(it.index() * 0x8000_0000_0000_0000) <= sum <= it.index() * 0x8000_0000_0000_0000,
    {
        let ghost done = it.seq().take(it.index());
        let ghost next = it.seq().take(it.index() + 1);
        proof {
            assert(next.drop_last() =~= done);
            assert(next.last() == pair);
            assert((it.index() + 1) * 0x8000_0000_0000_0000 == it.index() * 0x8000_0000_0000_0000
                + 0x8000_0000_0000_0000) by (nonlinear_arith);
            assert(count * 0x8000_0000_0000_0000 <= 0xffff_ffff_ffff_ffff * 0x8000_0000_0000_0000)
                by (nonlinear_arith)
                requires
                    count <= 0xffff_ffff_ffff_ffff,
            ;
            assert((it.index() + 1) * 0x8000_0000_0000_0000 <= count * 0x8000_0000_0000_0000)
                by (nonlinear_arith)
                requires
                    it.index() + 1 <= count,
            ;
        }
        match pair.1 {
            TransactionType::Deposit(amount) => {
                proof {
                    amount.lemma_range();
                }
                sum = sum + amount.value() as i128;
            },
            TransactionType::Withdrawal(amount) => {
                proof {
                    amount.lemma_range();
                }
                sum = sum - amount.value() as i128;
            },
            _ => {},
        }
    }
    proof {
        let pairs = spec_hash_map_iter(transactions).remaining();
        assert(pairs.take(pairs.len() as int) =~= pairs);
        assert forall|i: int, j: int| 0 <= i < j < pairs.len() implies *(#[trigger] pairs[i]).0 != *(
        #[trigger] pairs[j]).0 by {
            if *pairs[i].0 == *pairs[j].0 {
                assert(transactions@[*pairs[i].0] == *pairs[i].1);
                assert(transactions@[*pairs[j].0] == *pairs[j].1);
                assert(pairs[i] == pairs[j]);
            }
        }
        assert forall|id: TransactionId| #[trigger]
            transactions@.contains_key(id) implies exists|i: int|
            0 <= i < pairs.len() && *(#[trigger] pairs[i]).0 == id by {
            assert(pairs.contains((&id, &transactions@[id])));
            let i = choose|i: int| 0 <= i < pairs.len() && pairs[i] == (&id, &transactions@[id]);
            assert(*pairs[i].0 == id);
        }
        lemma_listed_sum(pairs, transactions@);
    }
    sum
}

} // verus!
