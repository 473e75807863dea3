//! The circuit breaker: per-asset, per-block caps on traded volume and
//! on liquidity added or removed. Counters live only for the current
//! block; the limit for an asset is fixed from its reserve when the
//! asset is first touched within the block, and the whole table is
//! wiped when a new block begins.

use std::collections::BTreeMap;
use vstd::prelude::*;

use crate::math::{permill_mul_floor, permill_of, PERMILL_ONE};
use crate::types::{AmmError, AssetId, Balance};

verus! {

broadcast use vstd::laws_cmp::group_laws_cmp;

/// What one asset may still do in the current block: the cap computed
/// from the reserve at first touch, and what has been consumed since.
#[derive(Clone, Copy, Debug, PartialEq, Eq, Structural)]
pub struct LimitEntry {
    pub limit: Balance,
    pub consumed: Balance,
}

/// Per-block trade-volume and liquidity caps, as a fraction of each
/// asset's reserve.
pub struct CircuitBreaker {
    trade_fraction: u32,
    liquidity_fraction: u32,
    trade_entries: BTreeMap<AssetId, LimitEntry>,
    liquidity_entries: BTreeMap<AssetId, LimitEntry>,
}

/// `floor(current_reserve * fraction)`: the most an asset with the given
/// reserve may move within one block under a per-million `fraction`.
pub fn calculate_limit(current_reserve: Balance, fraction: u32) -> (r: Balance)
    requires
        fraction <= PERMILL_ONE,
    ensures
        r == permill_of(current_reserve, fraction),
        r <= current_reserve,
{
    permill_mul_floor(current_reserve, fraction)
}

impl CircuitBreaker {
    pub closed spec fn spec_trade_fraction(&self) -> u32 {
        self.trade_fraction
    }

    pub closed spec fn spec_liquidity_fraction(&self) -> u32 {
        self.liquidity_fraction
    }

    /// The trade-volume entry the breaker holds for `asset` this block.
    pub closed spec fn trade_entry_of(&self, asset: AssetId) -> Option<LimitEntry> {
        if self.trade_entries@.contains_key(asset) {
            Some(self.trade_entries@[asset])
        } else {
            None
        }
    }

    /// The liquidity entry the breaker holds for `asset` this block.
    pub closed spec fn liquidity_entry_of(&self, asset: AssetId) -> Option<LimitEntry> {
        if self.liquidity_entries@.contains_key(asset) {
            Some(self.liquidity_entries@[asset])
        } else {
            None
        }
    }

    /// The cap that applies to a trade in `asset` when the asset's
    /// reserve is `reserve`: the stored cap if the asset was already
    /// touched this block, else the cap its reserve gives now.
    pub open spec fn effective_trade_limit(&self, asset: AssetId, reserve: Balance) -> int {
        match self.trade_entry_of(asset) {
            Some(e) => e.limit as int,
            None => permill_of(reserve, self.spec_trade_fraction()),
        }
    }

    pub open spec fn trade_consumed(&self, asset: AssetId) -> Balance {
        match self.trade_entry_of(asset) {
            Some(e) => e.consumed,
            None => 0,
        }
    }

    pub open spec fn effective_liquidity_limit(&self, asset: AssetId, reserve: Balance) -> int {
        match self.liquidity_entry_of(asset) {
            Some(e) => e.limit as int,
            None => permill_of(reserve, self.spec_liquidity_fraction()),
        }
    }

    pub open spec fn liquidity_consumed(&self, asset: AssetId) -> Balance {
        match self.liquidity_entry_of(asset) {
            Some(e) => e.consumed,
            None => 0,
        }
    }

    pub open spec fn wf(&self) -> bool {
        &&& self.spec_trade_fraction() <= PERMILL_ONE
        &&& self.spec_liquidity_fraction() <= PERMILL_ONE
    }

    /// Both breakers hold the same caps and counters.
    pub open spec fn agrees(&self, other: &CircuitBreaker) -> bool {
        &&& self.spec_trade_fraction() == other.spec_trade_fraction()
        &&& self.spec_liquidity_fraction() == other.spec_liquidity_fraction()
        &&& forall|a: AssetId| #[trigger] self.trade_entry_of(a) == other.trade_entry_of(a)
        &&& forall|a: AssetId| #[trigger] self.liquidity_entry_of(a) == other.liquidity_entry_of(a)
    }

    /// An identical, independent copy, used to roll back a failed
    /// multi-step operation.
    pub fn snapshot(&self) -> (r: CircuitBreaker)
        ensures
            r.agrees(self),
            r.wf() == self.wf(),
    {
        CircuitBreaker {
            trade_fraction: self.trade_fraction,
            liquidity_fraction: self.liquidity_fraction,
            trade_entries: self.trade_entries.clone(),
            liquidity_entries: self.liquidity_entries.clone(),
        }
    }

    /// A breaker with the given per-million caps and no consumption yet.
    pub fn new(trade_fraction: u32, liquidity_fraction: u32) -> (r: CircuitBreaker)
        requires
            trade_fraction <= PERMILL_ONE,
            liquidity_fraction <= PERMILL_ONE,
        ensures
            r.wf(),
            r.spec_trade_fraction() == trade_fraction,
            r.spec_liquidity_fraction() == liquidity_fraction,
            forall|a: AssetId| #[trigger] r.trade_entry_of(a) is None,
            forall|a: AssetId| #[trigger] r.liquidity_entry_of(a) is None,
    {
        CircuitBreaker {
            trade_fraction,
            liquidity_fraction,
            trade_entries: BTreeMap::new(),
            liquidity_entries: BTreeMap::new(),
        }
    }

    /// The per-million fraction of an asset's reserve tradable per block.
    pub fn trade_volume_limit_per_asset(&self) -> (r: u32)
        ensures
            r == self.spec_trade_fraction(),
    {
        self.trade_fraction
    }

    /// The per-million fraction of an asset's reserve that liquidity
    /// operations may move per block.
    pub fn liquidity_limit_per_asset(&self) -> (r: u32)
        ensures
            r == self.spec_liquidity_fraction(),
    {
        self.liquidity_fraction
    }

    /// Wipe all per-block counters; called when a new block begins.
    pub fn on_block_start(&mut self)
        ensures
            final(self).spec_trade_fraction() == old(self).spec_trade_fraction(),
            final(self).spec_liquidity_fraction() == old(self).spec_liquidity_fraction(),
            forall|a: AssetId| #[trigger] final(self).trade_entry_of(a) is None,
            forall|a: AssetId| #[trigger] final(self).liquidity_entry_of(a) is None,
            old(self).wf() ==> final(self).wf(),
    {
        self.trade_entries = BTreeMap::new();
        self.liquidity_entries = BTreeMap::new();
    }

    /// Account a trade of `amount` in `asset` whose pool reserve is
    /// `current_reserve`. Fails, changing nothing, when the block's cap
    /// for the asset would be exceeded.
    pub fn ensure_and_update_trade_volume_limit(
        &mut self,
        asset: AssetId,
        amount: Balance,
        current_reserve: Balance,
    ) -> (r: Result<(), AmmError>)
        requires
            old(self).wf(),
        ensures
            final(self).wf(),
            final(self).spec_trade_fraction() == old(self).spec_trade_fraction(),
            final(self).spec_liquidity_fraction() == old(self).spec_liquidity_fraction(),
            forall|a: AssetId| #[trigger] final(self).liquidity_entry_of(a) == old(
                self,
            ).liquidity_entry_of(a),
            forall|a: AssetId|
                a != asset ==> #[trigger] final(self).trade_entry_of(a) == old(
                    self,
                ).trade_entry_of(a),
            match r {
                Ok(()) => {
                    &&& old(self).trade_consumed(asset) + amount <= old(
                        self,
                    ).effective_trade_limit(asset, current_reserve)
                    &&& final(self).trade_consumed(asset) == old(self).trade_consumed(asset)
                        + amount
                    &&& final(self).effective_trade_limit(asset, current_reserve) == old(
                        self,
                    ).effective_trade_limit(asset, current_reserve)
                },
                Err(e) => {
                    &&& e == AmmError::MaxTradeVolumePerBlockReached
                    &&& old(self).trade_consumed(asset) + amount > old(self).effective_trade_limit(
                        asset,
                        current_reserve,
                    )
                    &&& *final(self) == *old(self)
                },
            },
    {
        let entry = match self.trade_entries.get(&asset) {
            Some(e) => *e,
            None => LimitEntry {
                limit: calculate_limit(current_reserve, self.trade_fraction),
                consumed: 0,
            },
        };
        match entry.consumed.checked_add(amount) {
            Some(consumed) => {
                if consumed > entry.limit {
                    Err(AmmError::MaxTradeVolumePerBlockReached)
                } else {
                    self.trade_entries.insert(asset, LimitEntry { limit: entry.limit, consumed });
                    Ok(())
                }
            },
            None => Err(AmmError::MaxTradeVolumePerBlockReached),
        }
    }

    /// Account a liquidity change of `amount` in `asset` whose pool
    /// reserve is `current_reserve`. Fails, changing nothing, when the
    /// block's cap for the asset would be exceeded.
    pub fn ensure_and_update_liquidity_limit(
        &mut self,
        asset: AssetId,
        amount: Balance,
        current_reserve: Balance,
    ) -> (r: Result<(), AmmError>)
        requires
            old(self).wf(),
        ensures
            final(self).wf(),
            final(self).spec_trade_fraction() == old(self).spec_trade_fraction(),
            final(self).spec_liquidity_fraction() == old(self).spec_liquidity_fraction(),
            forall|a: AssetId| #[trigger] final(self).trade_entry_of(a) == old(
                self,
            ).trade_entry_of(a),
            forall|a: AssetId|
                a != asset ==> #[trigger] final(self).liquidity_entry_of(a) == old(
                    self,
                ).liquidity_entry_of(a),
            match r {
                Ok(()) => {
                    &&& old(self).liquidity_consumed(asset) + amount <= old(
                        self,
                    ).effective_liquidity_limit(asset, current_reserve)
                    &&& final(self).liquidity_consumed(asset) == old(self).liquidity_consumed(
                        asset,
                    ) + amount
                    &&& final(self).effective_liquidity_limit(asset, current_reserve) == old(
                        self,
                    ).effective_liquidity_limit(asset, current_reserve)
                },
                Err(e) => {
                    &&& e == AmmError::MaxLiquidityLimitPerBlockReached
                    &&& old(self).liquidity_consumed(asset) + amount > old(
                        self,
                    ).effective_liquidity_limit(asset, current_reserve)
                    &&& *final(self) == *old(self)
                },
            },
    {
        let entry = match self.liquidity_entries.get(&asset) {
            Some(e) => *e,
            None => LimitEntry {
                limit: calculate_limit(current_reserve, self.liquidity_fraction),
                consumed: 0,
            },
        };
        match entry.consumed.checked_add(amount) {
            Some(consumed) => {
                if consumed > entry.limit {
                    Err(AmmError::MaxLiquidityLimitPerBlockReached)
                } else {
                    self.liquidity_entries.insert(
                        asset,
                        LimitEntry { limit: entry.limit, consumed },
                    );
                    Ok(())
                }
            },
            None => Err(AmmError::MaxLiquidityLimitPerBlockReached),
        }
    }
}

} // verus!
