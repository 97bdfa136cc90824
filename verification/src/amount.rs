//! Amounts of money, counted in the smallest unit of their currency.
use vstd::prelude::*;

verus! {

/// A non-negative amount of money in the smallest unit of its currency.
#[derive(Clone, Copy, Debug, PartialEq, Eq, Structural, Hash)]
pub struct Amount {
    /// The number of smallest units.
    pub units: u64,
}

impl View for Amount {
    type V = nat;

    open spec fn view(&self) -> nat {
        self.units as nat
    }
}

impl Amount {
    /// Two amounts with the same number of units are the same amount.
    pub proof fn lemma_view_eq(a: Self, b: Self)
        requires
            a@ == b@,
        ensures
            a == b,
    {
    }

    /// No money.
    pub fn zero() -> (r: Self)
        ensures
            r@ == 0,
    {
        Amount { units: 0 }
    }

    /// The amount of `units` smallest units.
    pub fn from_units(units: u64) -> (r: Self)
        ensures
            r@ == units,
    {
        Amount { units }
    }

    /// The number of smallest units.
    pub fn units(&self) -> (r: u64)
        ensures
            r == self@,
    {
        self.units
    }

    /// The sum, or `None` when it does not fit.
    pub fn checked_add(self, other: Self) -> (r: Option<Self>)
        ensures
            r is None <==> self@ + other@ > u64::MAX,
            r matches Some(s) ==> s@ == self@ + other@,
    {
        match self.units.checked_add(other.units) {
            Some(units) => Some(Amount { units }),
            None => None,
        }
    }

    /// The sum; the caller guarantees it fits.
    pub fn add(self, other: Self) -> (r: Self)
        requires
            self@ + other@ <= u64::MAX,
        ensures
            r@ == self@ + other@,
    {
        Amount { units: self.units + other.units }
    }

    /// The difference, or `None` when `other` is larger than `self`.
    pub fn checked_sub(self, other: Self) -> (r: Option<Self>)
        ensures
            r is None <==> other@ > self@,
            r matches Some(d) ==> d@ == self@ - other@,
    {
        if other.units > self.units {
            None
        } else {
            Some(Amount { units: self.units - other.units })
        }
    }
}

impl Default for Amount {
    /// No money.
    fn default() -> (r: Self)
        ensures
            r@ == 0,
    {
        Amount::zero()
    }
}

} // verus!
