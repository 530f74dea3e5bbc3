//! A strategy that only keeps a balance, to try the vault against.
use vstd::prelude::*;

use crate::math::fits;

verus! {

/// The storage of the mock strategy: its balance, zero until first set.
pub struct MockStrategy {
    pub balance: i128,
}

impl MockStrategy {
    /// A strategy that holds nothing.
    pub fn new() -> (r: MockStrategy)
        ensures
            r.balance == 0,
    {
        MockStrategy { balance: 0 }
    }

    /// The strategy's balance.
    pub fn balance(&self) -> (r: i128)
        ensures
            r == self.balance,
    {
        self.balance
    }

    /// Add `amount` to the balance.
    pub fn deposit(&mut self, amount: i128)
        requires
            fits(old(self).balance + amount),
        ensures
            final(self).balance == old(self).balance + amount,
    {
        self.balance = self.balance + amount;
    }

    /// Take `amount` from the balance.
    pub fn withdraw(&mut self, amount: i128)
        requires
            fits(old(self).balance - amount),
        ensures
            final(self).balance == old(self).balance - amount,
    {
        self.balance = self.balance - amount;
    }

    /// Set the balance to `new_balance`, as a change in the strategy's value would.
    pub fn simulate_price_drift(&mut self, new_balance: i128)
        ensures
            final(self).balance == new_balance,
    {
        self.balance = new_balance;
    }
}

} // verus!
