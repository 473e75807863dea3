//! The multi-currency balance ledger: free and reserved funds per
//! account and asset. Every operation states exactly how the two
//! buckets change and that every other balance is untouched.

use std::collections::BTreeMap;
use vstd::prelude::*;

use crate::types::{AccountId, AssetId, Balance, LedgerError};

verus! {

broadcast use vstd::laws_cmp::group_laws_cmp;

/// Free and reserved funds of one account in one asset.
#[verifier::ext_equal]
#[derive(Clone, Copy, Debug, PartialEq, Eq, Structural)]
pub struct AccountBalance {
    pub free: Balance,
    pub reserved: Balance,
}

/// Ledger of all balances, keyed by account and asset. Accounts without
/// an entry hold nothing.
pub struct Ledger {
    balances: BTreeMap<(AccountId, AssetId), AccountBalance>,
}

impl Ledger {
    /// The balance entry of `who` in `asset`; zero when absent.
    pub closed spec fn entry_of(&self, who: AccountId, asset: AssetId) -> AccountBalance {
        if self.balances@.contains_key((who, asset)) {
            self.balances@[(who, asset)]
        } else {
            AccountBalance { free: 0, reserved: 0 }
        }
    }

    pub open spec fn free_of(&self, who: AccountId, asset: AssetId) -> Balance {
        self.entry_of(who, asset).free
    }

    pub open spec fn reserved_of(&self, who: AccountId, asset: AssetId) -> Balance {
        self.entry_of(who, asset).reserved
    }

    /// Both ledgers hold the same balances everywhere.
    pub open spec fn agrees(&self, other: &Ledger) -> bool {
        forall|w: AccountId, a: AssetId| #[trigger] self.entry_of(w, a) == other.entry_of(w, a)
    }

    /// All balances other than the entry of `who` in `asset` agree with `other`.
    pub open spec fn unchanged_except(
        &self,
        other: &Ledger,
        who: AccountId,
        asset: AssetId,
    ) -> bool {
        forall|w: AccountId, a: AssetId|
            !(w == who && a == asset) ==> #[trigger] self.entry_of(w, a) == other.entry_of(w, a)
    }

    /// All balances other than the entries of `who1`/`who2` in `asset` agree.
    pub open spec fn unchanged_except_two(
        &self,
        other: &Ledger,
        who1: AccountId,
        who2: AccountId,
        asset: AssetId,
    ) -> bool {
        forall|w: AccountId, a: AssetId|
            !((w == who1 || w == who2) && a == asset) ==> #[trigger] self.entry_of(w, a)
                == other.entry_of(w, a)
    }

    pub fn new() -> (r: Ledger)
        ensures
            forall|w: AccountId, a: AssetId| #[trigger] r.entry_of(w, a) == (AccountBalance {
                free: 0,
                reserved: 0,
            }),
    {
        Ledger { balances: BTreeMap::new() }
    }

    /// An identical, independent copy of the ledger, used to roll back
    /// a failed multi-step operation.
    pub fn snapshot(&self) -> (r: Ledger)
        ensures
            forall|w: AccountId, a: AssetId| #[trigger] r.entry_of(w, a) == self.entry_of(w, a),
    {
        Ledger { balances: self.balances.clone() }
    }

    pub fn free_balance(&self, asset: AssetId, who: AccountId) -> (r: Balance)
        ensures
            r == self.free_of(who, asset),
    {
        match self.balances.get(&(who, asset)) {
            Some(b) => b.free,
            None => 0,
        }
    }

    pub fn reserved_balance(&self, asset: AssetId, who: AccountId) -> (r: Balance)
        ensures
            r == self.reserved_of(who, asset),
    {
        match self.balances.get(&(who, asset)) {
            Some(b) => b.reserved,
            None => 0,
        }
    }

    fn put(&mut self, who: AccountId, asset: AssetId, entry: AccountBalance)
        ensures
            final(self).entry_of(who, asset) == entry,
            final(self).unchanged_except(old(self), who, asset),
    {
        self.balances.insert((who, asset), entry);
    }

    /// Mint `amount` into the free balance of `who`.
    pub fn deposit(&mut self, asset: AssetId, who: AccountId, amount: Balance) -> (r: Result<
        (),
        LedgerError,
    >)
        ensures
            match r {
                Ok(()) => {
                    &&& final(self).free_of(who, asset) == old(self).free_of(who, asset) + amount
                    &&& final(self).reserved_of(who, asset) == old(self).reserved_of(who, asset)
                    &&& final(self).unchanged_except(old(self), who, asset)
                },
                Err(e) => {
                    &&& e == LedgerError::Overflow
                    &&& old(self).free_of(who, asset) + amount > Balance::MAX
                    &&& *final(self) == *old(self)
                },
            },
    {
        let entry = self.get_entry(who, asset);
        match entry.free.checked_add(amount) {
            Some(f) => {
                self.put(who, asset, AccountBalance { free: f, reserved: entry.reserved });
                Ok(())
            },
            None => Err(LedgerError::Overflow),
        }
    }

    /// Burn `amount` from the free balance of `who`.
    pub fn withdraw(&mut self, asset: AssetId, who: AccountId, amount: Balance) -> (r: Result<
        (),
        LedgerError,
    >)
        ensures
            match r {
                Ok(()) => {
                    &&& old(self).free_of(who, asset) >= amount
                    &&& final(self).free_of(who, asset) == old(self).free_of(who, asset) - amount
                    &&& final(self).reserved_of(who, asset) == old(self).reserved_of(who, asset)
                    &&& final(self).unchanged_except(old(self), who, asset)
                },
                Err(e) => {
                    &&& e == LedgerError::InsufficientBalance
                    &&& old(self).free_of(who, asset) < amount
                    &&& *final(self) == *old(self)
                },
            },
    {
        let entry = self.get_entry(who, asset);
        if entry.free < amount {
            Err(LedgerError::InsufficientBalance)
        } else {
            self.put(
                who,
                asset,
                AccountBalance { free: entry.free - amount, reserved: entry.reserved },
            );
            Ok(())
        }
    }

    /// Move `amount` of free balance from `from` to `to`.
    pub fn transfer(
        &mut self,
        asset: AssetId,
        from: AccountId,
        to: AccountId,
        amount: Balance,
    ) -> (r: Result<(), LedgerError>)
        ensures
            match r {
                Ok(()) => {
                    &&& old(self).free_of(from, asset) >= amount
                    &&& if from == to {
                        final(self).entry_of(from, asset) == old(self).entry_of(from, asset)
                    } else {
                        &&& final(self).free_of(from, asset) == old(self).free_of(from, asset)
                            - amount
                        &&& final(self).free_of(to, asset) == old(self).free_of(to, asset)
                            + amount
                        &&& final(self).reserved_of(from, asset) == old(self).reserved_of(
                            from,
                            asset,
                        )
                        &&& final(self).reserved_of(to, asset) == old(self).reserved_of(to, asset)
                    }
                    &&& final(self).unchanged_except_two(old(self), from, to, asset)
                },
                Err(e) => {
                    &&& *final(self) == *old(self)
                    &&& (e == LedgerError::InsufficientBalance || e == LedgerError::Overflow)
                    &&& (from == to ==> old(self).free_of(from, asset) < amount)
                    &&& (e == LedgerError::InsufficientBalance ==> old(self).free_of(from, asset)
                        < amount)
                    &&& (e == LedgerError::Overflow ==> old(self).free_of(to, asset) + amount
                        > Balance::MAX)
                },
            },
    {
        let src = self.get_entry(from, asset);
        if src.free < amount {
            return Err(LedgerError::InsufficientBalance);
        }
        if from == to {
            return Ok(());
        }
        let dst = self.get_entry(to, asset);
        match dst.free.checked_add(amount) {
            Some(f) => {
                self.put(from, asset, AccountBalance { free: src.free - amount, reserved: src.reserved });
                self.put(to, asset, AccountBalance { free: f, reserved: dst.reserved });
                Ok(())
            },
            None => Err(LedgerError::Overflow),
        }
    }

    /// Move `amount` from the free to the reserved bucket of `who`.
    pub fn reserve(&mut self, asset: AssetId, who: AccountId, amount: Balance) -> (r: Result<
        (),
        LedgerError,
    >)
        ensures
            match r {
                Ok(()) => {
                    &&& old(self).free_of(who, asset) >= amount
                    &&& final(self).free_of(who, asset) == old(self).free_of(who, asset) - amount
                    &&& final(self).reserved_of(who, asset) == old(self).reserved_of(who, asset)
                        + amount
                    &&& final(self).unchanged_except(old(self), who, asset)
                },
                Err(e) => {
                    &&& *final(self) == *old(self)
                    &&& (e == LedgerError::InsufficientBalance ==> old(self).free_of(who, asset)
                        < amount)
                    &&& (e == LedgerError::Overflow ==> old(self).reserved_of(who, asset) + amount
                        > Balance::MAX)
                    &&& (e == LedgerError::InsufficientBalance || e == LedgerError::Overflow)
                },
            },
    {
        let entry = self.get_entry(who, asset);
        if entry.free < amount {
            return Err(LedgerError::InsufficientBalance);
        }
        match entry.reserved.checked_add(amount) {
            Some(res) => {
                self.put(who, asset, AccountBalance { free: entry.free - amount, reserved: res });
                Ok(())
            },
            None => Err(LedgerError::Overflow),
        }
    }

    /// Move up to `amount` back from the reserved to the free bucket of
    /// `who`; returns how much could not be unreserved for want of a
    /// reservation.
    pub fn unreserve(&mut self, asset: AssetId, who: AccountId, amount: Balance) -> (r: Result<
        Balance,
        LedgerError,
    >)
        ensures
            match r {
                Ok(leftover) => {
                    let moved = if amount <= old(self).reserved_of(who, asset) {
                        amount
                    } else {
                        old(self).reserved_of(who, asset)
                    };
                    &&& leftover == amount - moved
                    &&& final(self).reserved_of(who, asset) == old(self).reserved_of(who, asset)
                        - moved
                    &&& final(self).free_of(who, asset) == old(self).free_of(who, asset) + moved
                    &&& final(self).unchanged_except(old(self), who, asset)
                },
                Err(e) => {
                    let moved = if amount <= old(self).reserved_of(who, asset) {
                        amount
                    } else {
                        old(self).reserved_of(who, asset)
                    };
                    &&& e == LedgerError::Overflow
                    &&& old(self).free_of(who, asset) + moved > Balance::MAX
                    &&& *final(self) == *old(self)
                },
            },
    {
        let entry = self.get_entry(who, asset);
        let moved = if amount <= entry.reserved {
            amount
        } else {
            entry.reserved
        };
        match entry.free.checked_add(moved) {
            Some(f) => {
                self.put(
                    who,
                    asset,
                    AccountBalance { free: f, reserved: entry.reserved - moved },
                );
                Ok(amount - moved)
            },
            None => Err(LedgerError::Overflow),
        }
    }

    fn get_entry(&self, who: AccountId, asset: AssetId) -> (r: AccountBalance)
        ensures
            r == self.entry_of(who, asset),
    {
        match self.balances.get(&(who, asset)) {
            Some(b) => *b,
            None => AccountBalance { free: 0, reserved: 0 },
        }
    }
}

} // verus!
