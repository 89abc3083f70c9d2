//! Transactions: the typed form of one input record.

use crate::amount::Amount;
use crate::decimal::chars_of;
use crate::decimal::decimal_text;
use crate::decimal::decimal_value;
use crate::decimal::natural_value;
use crate::decimal::parse_natural;
use crate::ClientId;
use crate::TransactionId;
use vstd::prelude::*;
use vstd::std_specs::convert::FromSpecImpl;
use vstd::string::*;

verus! {

/// What a transaction asks for.
///
/// Deposits and withdrawals carry an amount and are kept by the client they
/// belong to. Disputes, resolutions and chargebacks refer, by transaction
/// id, to a deposit or withdrawal made earlier.
#[derive(Debug, Clone, Copy, PartialEq, Eq, Structural)]
pub enum TransactionType {
    Deposit(Amount),
    Withdrawal(Amount),
    Dispute,
    Resolve,
    Chargeback,
}

/// One transaction of one client.
#[derive(Debug, Clone, Copy, PartialEq, Eq, Structural)]
pub struct Transaction {
    pub transaction_type: TransactionType,
    pub client: ClientId,
    pub transaction_id: TransactionId,
}

impl TransactionType {
    /// Whether the transaction is a deposit or a withdrawal, the two kinds
    /// that a client keeps.
    pub open spec fn is_entry(self) -> bool {
        self is Deposit || self is Withdrawal
    }

    /// What the transaction adds to a balance while it is counted in it:
    /// a deposit its amount, a withdrawal the negated amount, the other
    /// kinds nothing.
    pub open spec fn signed_value(self) -> int {
        match self {
            TransactionType::Deposit(amount) => amount@,
            TransactionType::Withdrawal(amount) => -amount@,
            _ => 0,
        }
    }
}

/// Why a record could not be read as a transaction.
#[derive(Debug, PartialEq)]
pub struct TransactionParseError(String);

impl View for TransactionParseError {
    type V = Seq<char>;

    /// The message.
    closed spec fn view(&self) -> Seq<char> {
        self.0@
    }
}

impl TransactionParseError {
    /// The error with the message `message`.
    pub fn new(message: String) -> (error: Self)
        ensures
            error@ == message@,
    {
        Self(message)
    }

    /// The message.
    pub fn value(&self) -> (message: String)
        ensures
            message@ == self@,
    {
        self.0.clone()
    }
}

impl From<String> for TransactionParseError {
    /// The error with the message `value`.
    fn from(value: String) -> (error: Self)
        ensures
            error@ == value@,
    {
        Self(value)
    }
}

impl FromSpecImpl<String> for TransactionParseError {
    open spec fn obeys_from_spec() -> bool {
        true
    }

    closed spec fn from_spec(value: String) -> Self {
        TransactionParseError(value)
    }
}

impl Clone for TransactionParseError {
    fn clone(&self) -> (copy: Self)
        ensures
            copy == *self,
    {
        Self(self.0.clone())
    }
}

/// The lower-case form of `c` where it is one of the letters `A` to `Z`,
/// and `c` itself where it is not.
pub open spec fn ascii_lower(c: char) -> char {
    if 65 <= c as u32 <= 90 {
        ((c as u32 + 32) as u8) as char
    } else {
        c
    }
}

/// `s` with the letters `A` to `Z` in lower case.
pub open spec fn lowered(s: Seq<char>) -> Seq<char> {
    Seq::new(s.len(), |i: int| ascii_lower(s[i]))
}

/// The kind of transaction that the name `name` and the amount `amount`
/// of a record make, if they make one. The name counts without regard to
/// case. A deposit and a withdrawal have an amount, and the other kinds
/// have none.
pub open spec fn typed(name: Seq<char>, amount: Option<Amount>) -> Option<TransactionType> {
    let kind = lowered(name);
    match amount {
        Some(amount) => if kind == "deposit"@ {
            Some(TransactionType::Deposit(amount))
        } else if kind == "withdrawal"@ {
            Some(TransactionType::Withdrawal(amount))
        } else {
            None
        },
        None => if kind == "dispute"@ {
            Some(TransactionType::Dispute)
        } else if kind == "resolve"@ {
            Some(TransactionType::Resolve)
        } else if kind == "chargeback"@ {
            Some(TransactionType::Chargeback)
        } else {
            None
        },
    }
}

/// What is said of a name and an amount that make no transaction.
pub open spec fn unknown_type_message(name: Seq<char>, amount: Option<Amount>) -> Seq<char> {
    "Unknown transaction type: "@ + name + ", amount: "@ + match amount {
        Some(amount) => "Some("@ + decimal_text(amount@) + ")"@,
        None => "None"@,
    }
}

/// Whether `c` in lower case is `k`.
fn lowers_to(c: char, k: char) -> (same: bool)
    ensures
        same == (ascii_lower(c) == k),
{
    let code: u32 = c as u32;
    let lower: u32 = if 65 <= code && code <= 90 {
        code + 32
    } else {
        code
    };
    let wanted: u32 = k as u32;
    lower == wanted
}

/// Whether `name` is `keyword` without regard to case.
fn is_keyword(name: &Vec<char>, keyword: &str) -> (same: bool)
    ensures
        same == (lowered(name@) == keyword@),
{
    let keyword_chars = chars_of(keyword);
    if name.len() != keyword_chars.len() {
        return false;
    }
    let mut i: usize = 0;
    while i < name.len()
        invariant
            i <= name.len(),
            name.len() == keyword_chars.len(),
            keyword_chars@ == keyword@,
            forall|j: int| 0 <= j < i ==> lowered(name@)[j] == keyword@[j],
        decreases name.len() - i,
    {
        if !lowers_to(name[i], keyword_chars[i]) {
            return false;
        }
        i = i + 1;
    }
    assert(lowered(name@) =~= keyword@);
    true
}

impl TransactionType {
    /// The kind of transaction that a record's name and amount make, or
    /// an error that names both where they make none.
    pub fn try_from(parts: (&str, Option<Amount>)) -> (result: Result<Self, TransactionParseError>)
        ensures
            match typed(parts.0@, parts.1) {
                Some(transaction_type) => result == Ok::<Self, TransactionParseError>(
                    transaction_type,
                ),
                None => result matches Err(error) && error@ == unknown_type_message(
                    parts.0@,
                    parts.1,
                ),
            },
    {
        let (transaction_type, amount) = parts;
        let name = chars_of(transaction_type);
        match amount {
            Some(amount) => {
                if is_keyword(&name, "deposit") {
                    return Ok(TransactionType::Deposit(amount));
                }
                if is_keyword(&name, "withdrawal") {
                    return Ok(TransactionType::Withdrawal(amount));
                }
            },
            None => {
                if is_keyword(&name, "dispute") {
                    return Ok(TransactionType::Dispute);
                }
                if is_keyword(&name, "resolve") {
                    return Ok(TransactionType::Resolve);
                }
                if is_keyword(&name, "chargeback") {
                    return Ok(TransactionType::Chargeback);
                }
            },
        }
        let mut message = String::from_str("Unknown transaction type: ");
        message.append(transaction_type);
        message.append(", amount: ");
        match amount {
            Some(amount) => {
                message.append("Some(");
                message.append(amount.to_decimal_string().as_str());
                message.append(")");
            },
            None => {
                message.append("None");
            },
        }
        Err(TransactionParseError::new(message))
    }
}

/// The text of each field of a record.
pub open spec fn texts(fields: Seq<String>) -> Seq<Seq<char>> {
    Seq::new(fields.len(), |i: int| fields[i]@)
}

/// The amount that a record states in its fourth field: none where the
/// field is missing or empty, and else the amount that the field writes
/// in decimal. There is no answer where the field writes no amount.
pub open spec fn amount_field(fields: Seq<Seq<char>>) -> Option<Option<Amount>> {
    if fields.len() < 4 || fields[3].len() == 0 {
        Some(None)
    } else {
        match decimal_value(fields[3]) {
            Some(v) => if i64::MIN <= v <= i64::MAX {
                Some(Some(Amount::from_value(v)))
            } else {
                None
            },
            None => None,
        }
    }
}

/// The transaction that a record makes: its fields are the type's name,
/// the client's id, the transaction's id and, for a deposit or a
/// withdrawal, the amount. Further fields do not count.
pub open spec fn record_transaction(fields: Seq<Seq<char>>) -> Option<Transaction> {
    if fields.len() < 3 {
        None
    } else {
        match (natural_value(fields[1]), natural_value(fields[2]), amount_field(fields)) {
            (Some(client), Some(transaction_id), Some(amount)) => if client <= u16::MAX
                && transaction_id <= u32::MAX {
                match typed(fields[0], amount) {
                    Some(transaction_type) => Some(
                        Transaction {
                            transaction_type,
                            client: client as u16,
                            transaction_id: transaction_id as u32,
                        },
                    ),
                    None => None,
                }
            } else {
                None
            },
            _ => None,
        }
    }
}

/// What is said of a record that makes no transaction: the first of its
/// faults, in the order of the fields, the type's name coming last.
pub open spec fn record_fault(fields: Seq<Seq<char>>) -> Seq<char> {
    if fields.len() < 3 {
        "record has fewer than three fields"@
    } else if !(natural_value(fields[1]) matches Some(client) && client <= u16::MAX) {
        "invalid client id: "@ + fields[1]
    } else if !(natural_value(fields[2]) matches Some(transaction_id) && transaction_id
        <= u32::MAX) {
        "invalid transaction id: "@ + fields[2]
    } else {
        match amount_field(fields) {
            Some(amount) => unknown_type_message(fields[0], amount),
            None => "invalid amount: "@ + fields[3],
        }
    }
}

impl Transaction {
    /// The transaction that the fields of a record make, or an error that
    /// says what is wrong with the record.
    pub fn from_fields(fields: &Vec<String>) -> (result: Result<Self, TransactionParseError>)
        ensures
            match record_transaction(texts(fields@)) {
                Some(transaction) => result == Ok::<Self, TransactionParseError>(transaction),
                None => result matches Err(error) && error@ == record_fault(texts(fields@)),
            },
    {
        if fields.len() < 3 {
            return Err(
                TransactionParseError::new(String::from_str("record has fewer than three fields")),
            );
        }
        let client = match parse_natural(fields[1].as_str(), 0xffff) {
            Some(client) => client as u16,
            None => {
                let mut message = String::from_str("invalid client id: ");
                message.append(fields[1].as_str());
                return Err(TransactionParseError::new(message));
            },
        };
        let transaction_id = match parse_natural(fields[2].as_str(), 0xffff_ffff) {
            Some(transaction_id) => transaction_id as u32,
            None => {
                let mut message = String::from_str("invalid transaction id: ");
                message.append(fields[2].as_str());
                return Err(TransactionParseError::new(message));
            },
        };
        let amount = if fields.len() < 4 || fields[3].as_str().is_empty() {
            None
        } else {
            match Amount::from_decimal_str(fields[3].as_str()) {
                Some(amount) => Some(amount),
                None => {
                    let mut message = String::from_str("invalid amount: ");
                    message.append(fields[3].as_str());
                    return Err(TransactionParseError::new(message));
                },
            }
        };
        match TransactionType::try_from((fields[0].as_str(), amount)) {
            Ok(transaction_type) => Ok(Transaction { transaction_type, client, transaction_id }),
            Err(error) => Err(error),
        }
    }
}

} // verus!
