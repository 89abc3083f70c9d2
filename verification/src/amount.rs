//! Monetary values held as a whole number of ten-thousandths.

use crate::decimal::decimal_text;
use crate::decimal::decimal_value;
use crate::decimal::format_decimal;
use crate::decimal::parse_decimal;
use std::cmp::Ordering;
use vstd::prelude::*;
use vstd::std_specs::cmp::PartialOrdSpecImpl;
use vstd::std_specs::ops::AddSpecImpl;
use vstd::std_specs::ops::SubSpecImpl;

verus! {

/// A monetary value with four decimal places, stored as the number of
/// ten-thousandths it holds.
#[derive(Debug, Clone, Copy, PartialEq, Eq, Structural, Ord, Hash)]
pub struct Amount(i64);

impl View for Amount {
    type V = int;

    /// The number of ten-thousandths.
    closed spec fn view(&self) -> int {
        self.0 as int
    }
}

impl Amount {
    /// The amount of `value` ten-thousandths, for a `value` in the range of
    /// a 64-bit signed integer.
    pub closed spec fn from_value(value: int) -> Amount {
        Amount(value as i64)
    }

    /// The amount from a number holds that number.
    pub proof fn lemma_from_value(value: int)
        requires
            i64::MIN <= value <= i64::MAX,
        ensures
            Amount::from_value(value)@ == value,
    {
    }

    /// An amount is the amount from the number it holds.
    pub proof fn lemma_from_own_value(self)
        ensures
            Amount::from_value(self@) == self,
    {
    }

    /// The amount of `amount` ten-thousandths.
    pub fn new(amount: i64) -> (r: Self)
        ensures
            r@ == amount,
            r == Amount::from_value(amount as int),
    {
        Self(amount)
    }

    /// The number of ten-thousandths held.
    pub fn value(&self) -> (v: i64)
        ensures
            v == self@,
    {
        self.0
    }

    /// The amount that `text` writes in decimal: an optional sign, digits,
    /// and optionally a point and more digits, as in `-12.5`. Digits past
    /// the fourth behind the point round half away from zero. There is no
    /// amount where `text` is not of that form, or writes a number that is
    /// out of range.
    pub fn from_decimal_str(text: &str) -> (amount: Option<Self>)
        ensures
            amount == match decimal_value(text@) {
                Some(v) => if i64::MIN <= v <= i64::MAX {
                    Some(Amount::from_value(v))
                } else {
                    None
                },
                None => None,
            },
            amount matches Some(a) ==> decimal_value(text@) == Some(a@),
    {
        match parse_decimal(text) {
            Some(value) => Some(Self(value)),
            None => None,
        }
    }

    /// The amount in decimal, with as many digits behind the point as it
    /// needs, at most four: `1.5` for 15000 ten-thousandths.
    pub fn to_decimal_string(&self) -> (text: String)
        ensures
            text@ == decimal_text(self@),
            decimal_value(text@) == Some(self@),
    {
        format_decimal(self.0 as i128)
    }

    /// Every amount lies in the range of a 64-bit signed integer.
    pub proof fn lemma_range(self)
        ensures
            i64::MIN <= self@ <= i64::MAX,
    {
    }

    /// Two amounts are equal exactly when they hold the same number of
    /// ten-thousandths.
    pub proof fn lemma_equal_iff_same_value(self, other: Amount)
        ensures
            self == other <==> self@ == other@,
    {
    }
}

impl PartialOrd for Amount {
    /// Amounts are ordered as the numbers they hold.
    fn partial_cmp(&self, other: &Amount) -> (order: Option<Ordering>) {
        if self.0 < other.0 {
            Some(Ordering::Less)
        } else if self.0 == other.0 {
            Some(Ordering::Equal)
        } else {
            Some(Ordering::Greater)
        }
    }
}

impl PartialOrdSpecImpl for Amount {
    open spec fn obeys_partial_cmp_spec() -> bool {
        true
    }

    open spec fn partial_cmp_spec(&self, other: &Amount) -> Option<Ordering> {
        if self@ < other@ {
            Some(Ordering::Less)
        } else if self@ == other@ {
            Some(Ordering::Equal)
        } else {
            Some(Ordering::Greater)
        }
    }
}

impl Default for Amount {
    fn default() -> (r: Self)
        ensures
            r@ == 0,
    {
        Self(0)
    }
}

impl std::ops::Add<Amount> for Amount {
    type Output = Amount;

    /// The sum of the two amounts.
    fn add(self, rhs: Amount) -> (r: Amount)
        ensures
            r@ == self@ + rhs@,
    {
        Amount(self.0 + rhs.0)
    }
}

impl AddSpecImpl<Amount> for Amount {
    open spec fn obeys_add_spec() -> bool {
        true
    }

    open spec fn add_req(self, rhs: Amount) -> bool {
        i64::MIN <= self@ + rhs@ <= i64::MAX
    }

    closed spec fn add_spec(self, rhs: Amount) -> Amount {
        Amount((self.0 + rhs.0) as i64)
    }
}

impl std::ops::Sub<Amount> for Amount {
    type Output = Amount;

    /// The difference of the two amounts.
    fn sub(self, rhs: Amount) -> (r: Amount)
        ensures
            r@ == self@ - rhs@,
    {
        Amount(self.0 - rhs.0)
    }
}

impl SubSpecImpl<Amount> for Amount {
    open spec fn obeys_sub_spec() -> bool {
        true
    }

    open spec fn sub_req(self, rhs: Amount) -> bool {
        i64::MIN <= self@ - rhs@ <= i64::MAX
    }

    closed spec fn sub_spec(self, rhs: Amount) -> Amount {
        Amount((self.0 - rhs.0) as i64)
    }
}

} // verus!
