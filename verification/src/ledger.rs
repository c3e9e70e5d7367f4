//! A minimal currency ledger standing for the external balance system the
//! engine depends on: free balances per account and an existence-preserving
//! transfer. The engine only reads balances and moves amounts; accounts are
//! funded by the host.

use std::collections::HashMap;
use vstd::prelude::*;
use crate::types::{AccountId, Balance};

verus! {

broadcast use vstd::std_specs::hash::group_hash_axioms;

#[derive(Clone, Copy, PartialEq, Eq, Structural, Debug)]
pub enum LedgerError {
    /// The sender cannot spare the amount: it exceeds the free balance, or
    /// paying it would leave the sender below the minimum balance.
    InsufficientFunds,
    /// The receiver's balance cannot hold the amount.
    Overflow,
}

/// Mathematical model of the ledger: the recorded balances (absent
/// accounts hold zero) and the minimum balance an account must keep for
/// an existence-preserving transfer.
#[verifier::ext_equal]
pub ghost struct LedgerModel {
    pub balances: Map<AccountId, Balance>,
    pub minimum_balance: Balance,
}

impl LedgerModel {
    pub open spec fn free_balance_of(self, a: AccountId) -> Balance {
        if self.balances.contains_key(a) {
            self.balances[a]
        } else {
            0
        }
    }

    /// Exact condition under which an existence-preserving transfer goes
    /// through: the sender can spare the amount without dropping below
    /// the minimum balance, and the receiver's balance can hold it.
    pub open spec fn can_withdraw(self, from: AccountId, amount: Balance) -> bool {
        &&& self.free_balance_of(from) >= amount
        &&& self.free_balance_of(from) - amount >= self.minimum_balance
    }

    pub open spec fn can_deposit(self, from: AccountId, to: AccountId, amount: Balance) -> bool {
        from == to || self.free_balance_of(to) + amount <= Balance::MAX
    }

    pub open spec fn can_transfer(self, from: AccountId, to: AccountId, amount: Balance) -> bool {
        self.can_withdraw(from, amount) && self.can_deposit(from, to, amount)
    }

    /// The ledger after a successful transfer; a transfer to oneself
    /// changes nothing.
    pub open spec fn transferred(self, from: AccountId, to: AccountId, amount: Balance) -> LedgerModel {
        if from == to {
            self
        } else {
            LedgerModel {
                balances: self.balances.insert(
                    from,
                    (self.free_balance_of(from) - amount) as Balance,
                ).insert(to, (self.free_balance_of(to) + amount) as Balance),
                minimum_balance: self.minimum_balance,
            }
        }
    }
}

/// The ledger itself. All mutation goes through `set_balance` (host
/// funding) and `transfer`.
pub struct Ledger {
    balances: HashMap<AccountId, Balance>,
    minimum_balance: Balance,
}

impl View for Ledger {
    type V = LedgerModel;

    closed spec fn view(&self) -> LedgerModel {
        LedgerModel { balances: self.balances@, minimum_balance: self.minimum_balance }
    }
}

impl Ledger {
    pub fn new(minimum_balance: Balance) -> (l: Ledger)
        ensures
            l@.balances == Map::<AccountId, Balance>::empty(),
            l@.minimum_balance == minimum_balance,
    {
        Ledger { balances: HashMap::new(), minimum_balance }
    }

    /// Host funding: records an account's balance outright.
    pub fn set_balance(&mut self, account: AccountId, amount: Balance)
        ensures
            final(self)@.balances == old(self)@.balances.insert(account, amount),
            final(self)@.minimum_balance == old(self)@.minimum_balance,
    {
        self.balances.insert(account, amount);
    }

    pub fn free_balance(&self, account: AccountId) -> (r: Balance)
        ensures
            r == self@.free_balance_of(account),
    {
        match self.balances.get(&account) {
            Some(b) => *b,
            None => 0,
        }
    }

    /// Moves `amount` from `from` to `to`, preserving the sender's
    /// existence: the sender must keep at least the minimum balance.
    /// On failure the ledger is unchanged.
    pub fn transfer(&mut self, from: AccountId, to: AccountId, amount: Balance) -> (r: Result<
        (),
        LedgerError,
    >)
        ensures
            r matches Ok(()) <==> old(self)@.can_transfer(from, to, amount),
            r matches Ok(()) ==> final(self)@ == old(self)@.transferred(from, to, amount),
            r is Err ==> final(self)@ == old(self)@,
            r matches Err(e) && e == LedgerError::InsufficientFunds <==> !old(
                self,
            )@.can_withdraw(from, amount),
            r matches Err(e) && e == LedgerError::Overflow <==> (old(self)@.can_withdraw(
                from,
                amount,
            ) && !old(self)@.can_deposit(from, to, amount)),
    {
        let from_balance = self.free_balance(from);
        if from_balance < amount || from_balance - amount < self.minimum_balance {
            return Err(LedgerError::InsufficientFunds);
        }
        if from == to {
            return Ok(());
        }
        let to_balance = self.free_balance(to);
        if to_balance > Balance::MAX - amount {
            return Err(LedgerError::Overflow);
        }
        self.balances.insert(from, from_balance - amount);
        self.balances.insert(to, to_balance + amount);
        proof {
            assert(self@ =~= old(self)@.transferred(from, to, amount));
        }
        Ok(())
    }
}

} // verus!
