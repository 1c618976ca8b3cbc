//! Money: an amount tagged with its currency.

use crate::domain::amount::checked_difference;
use crate::domain::amount::checked_sum;
use crate::domain::amount::Amount;
use crate::domain::amount::Dec;
use vstd::prelude::*;
use vstd::std_specs::cmp::PartialEqSpecImpl;
use vstd::std_specs::convert::FromSpecImpl;
use vstd::std_specs::ops::MulSpecImpl;

verus! {

#[derive(PartialEq, Eq, Clone, Copy, Debug, Structural)]
pub enum Currency {
    Bitcoin,
    Other { code: u64 },
}

impl Currency {
    /// No money at all, in this currency.
    pub fn zero(self) -> (m: Money)
        ensures
            m.currency == self,
            m.amount@ == crate::domain::amount::zero(),
    {
        Money { amount: Amount::zero(), currency: self }
    }
}

#[derive(Clone, Copy, Debug)]
pub struct Money {
    pub amount: Amount,
    pub currency: Currency,
}

#[derive(PartialEq, Eq, Clone, Copy, Debug, Structural)]
pub enum MoneyErrors {
    MismatchedCurrencies,
    Overflow,
    Underflow,
}

/// What adding `b` to `a` gives: the new amount, or the reason why there is
/// none. Money of different currencies is never added.
pub open spec fn sum_of(a: Money, b: Money) -> Result<Dec, MoneyErrors> {
    if a.currency != b.currency {
        Err(MoneyErrors::MismatchedCurrencies)
    } else {
        match checked_sum(a.amount@, b.amount@) {
            Some(d) => Ok(d),
            None => Err(MoneyErrors::Overflow),
        }
    }
}

/// What taking `b` from `a` gives: the new amount, or the reason why there is
/// none.
pub open spec fn difference_of(a: Money, b: Money) -> Result<Dec, MoneyErrors> {
    if a.currency != b.currency {
        Err(MoneyErrors::MismatchedCurrencies)
    } else {
        match checked_difference(a.amount@, b.amount@) {
            Some(d) => Ok(d),
            None => Err(MoneyErrors::Underflow),
        }
    }
}

impl Money {
    pub fn new(currency: Currency) -> (m: Money)
        ensures
            m.currency == currency,
            m.amount@ == crate::domain::amount::zero(),
    {
        Money { amount: Amount::zero(), currency }
    }

    pub fn is_zero(&self) -> (r: bool)
        ensures
            r == self.amount@.is_zero(),
    {
        self.amount.is_zero()
    }

    /// Whether the sign is positive; zero counts as positive.
    pub fn is_positive(&self) -> (r: bool)
        ensures
            r == (self.amount@.mantissa >= 0),
    {
        self.amount.is_sign_positive()
    }

    pub fn is_negative(&self) -> (r: bool)
        ensures
            r == (self.amount@.mantissa < 0),
    {
        self.amount.is_sign_negative()
    }

    pub fn checked_add(self, rhs: Money) -> (r: Result<Money, MoneyErrors>)
        ensures
            match r {
                Ok(m) => sum_of(self, rhs) == Ok::<Dec, MoneyErrors>(m.amount@) && m.currency
                    == self.currency,
                Err(e) => sum_of(self, rhs) == Err::<Dec, MoneyErrors>(e),
            },
    {
        if self.currency != rhs.currency {
            return Err(MoneyErrors::MismatchedCurrencies);
        }
        match self.amount.checked_add(rhs.amount) {
            Some(amount) => Ok(Money { amount, currency: self.currency }),
            None => Err(MoneyErrors::Overflow),
        }
    }

    pub fn checked_sub(self, rhs: Money) -> (r: Result<Money, MoneyErrors>)
        ensures
            match r {
                Ok(m) => difference_of(self, rhs) == Ok::<Dec, MoneyErrors>(m.amount@)
                    && m.currency == self.currency,
                Err(e) => difference_of(self, rhs) == Err::<Dec, MoneyErrors>(e),
            },
    {
        if self.currency != rhs.currency {
            return Err(MoneyErrors::MismatchedCurrencies);
        }
        match self.amount.checked_sub(rhs.amount) {
            Some(amount) => Ok(Money { amount, currency: self.currency }),
            None => Err(MoneyErrors::Underflow),
        }
    }

    /// Takes `rhs` from the amount. The difference must exist.
    pub fn sub_assign(&mut self, rhs: Amount)
        requires
            checked_difference(old(self).amount@, rhs@) is Some,
        ensures
            checked_difference(old(self).amount@, rhs@) == Some(final(self).amount@),
            final(self).currency == old(self).currency,
    {
        match self.amount.checked_sub(rhs) {
            Some(amount) => {
                self.amount = amount;
            },
            None => {},
        }
    }

    /// Takes `rhs` from the amount if the difference exists, and tells
    /// whether it did; otherwise the money stays as it is.
    pub fn checked_sub_assign(&mut self, rhs: Amount) -> (done: bool)
        ensures
            match checked_difference(old(self).amount@, rhs@) {
                Some(d) => done && final(self).amount@ == d && final(self).currency == old(
                    self,
                ).currency,
                None => !done && *final(self) == *old(self),
            },
    {
        match self.amount.checked_sub(rhs) {
            Some(_) => {
                self.sub_assign(rhs);
                true
            },
            None => false,
        }
    }

    pub fn as_decimal(&self) -> (a: Amount)
        ensures
            a == self.amount,
    {
        self.amount
    }
}

impl core::ops::Mul<Currency> for u64 {
    type Output = Money;

    /// `n * currency` is the whole number `n` of that currency.
    fn mul(self, rhs: Currency) -> (m: Money)
        ensures
            m.currency == rhs,
            m.amount@ == (Dec { mantissa: self as int, scale: 0 }),
    {
        let amount = Amount::from_u64(self);
        proof {
            let d = Dec { mantissa: self as int, scale: 0 };
            Amount::lemma_of_view(d);
            Amount::lemma_view_injective(amount, Amount::of(d));
        }
        Money { amount, currency: rhs }
    }
}

impl MulSpecImpl<Currency> for u64 {
    open spec fn obeys_mul_spec() -> bool {
        true
    }

    open spec fn mul_req(self, rhs: Currency) -> bool {
        true
    }

    open spec fn mul_spec(self, rhs: Currency) -> Money {
        Money { amount: Amount::of(Dec { mantissa: self as int, scale: 0 }), currency: rhs }
    }
}

impl core::ops::Mul<Currency> for Amount {
    type Output = Money;

    /// `amount * currency` is that amount of that currency.
    fn mul(self, rhs: Currency) -> (m: Money) {
        Money { amount: self, currency: rhs }
    }
}

impl MulSpecImpl<Currency> for Amount {
    open spec fn obeys_mul_spec() -> bool {
        true
    }

    open spec fn mul_req(self, rhs: Currency) -> bool {
        true
    }

    open spec fn mul_spec(self, rhs: Currency) -> Money {
        Money { amount: self, currency: rhs }
    }
}

impl From<Money> for Amount {
    fn from(money: Money) -> (a: Amount) {
        money.amount
    }
}

impl FromSpecImpl<Money> for Amount {
    open spec fn obeys_from_spec() -> bool {
        true
    }

    open spec fn from_spec(money: Money) -> Amount {
        money.amount
    }
}

impl PartialEq for Money {
    /// The same currency and the same number, whatever the scales.
    fn eq(&self, other: &Money) -> (r: bool) {
        self.currency == other.currency && self.amount == other.amount
    }
}

impl PartialEqSpecImpl for Money {
    open spec fn obeys_eq_spec() -> bool {
        true
    }

    open spec fn eq_spec(&self, other: &Money) -> bool {
        self.currency == other.currency && self.amount@.units() == other.amount@.units()
    }
}

impl PartialEq<u64> for Money {
    /// Whether the amount is the whole number `other`, whatever the currency.
    fn eq(&self, other: &u64) -> (r: bool) {
        self.amount == Amount::from_u64(*other)
    }
}

impl PartialEqSpecImpl<u64> for Money {
    open spec fn obeys_eq_spec() -> bool {
        true
    }

    open spec fn eq_spec(&self, other: &u64) -> bool {
        self.amount@.units() == (Dec { mantissa: *other as int, scale: 0 }).units()
    }
}

} // verus!
