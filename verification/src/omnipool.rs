//! An omnipool-style pool implementing the trade-execution interface.
//!
//! Every listed asset has a positive rational price against the hub
//! unit; a sell converts the input to hub value and the hub value to the
//! output asset, rounding down, and a buy runs the same chain backwards,
//! rounding up. Reserves are the pool account's free balances in the
//! ledger, so `get_liquidity_depth` before and after a trade reflects
//! exactly the transferred amounts. Executions consult the circuit
//! breaker before moving any funds and leave no trace when they fail.

use std::collections::BTreeMap;
use vstd::prelude::*;

use crate::breaker::CircuitBreaker;
use crate::ledger::Ledger;
use crate::math::{checked_mul_div, checked_mul_div_ceil};
use crate::types::{
    lift_amm, AccountId, AmmError, AssetId, Balance, ExecutorError, PoolType,
};

verus! {

broadcast use vstd::laws_cmp::group_laws_cmp;

/// Price of one pool asset in hub units, as a positive rational.
#[derive(Clone, Copy, Debug, PartialEq, Eq, Structural)]
pub struct AssetPrice {
    pub num: Balance,
    pub den: Balance,
}

/// The omnipool: a single pool account trading every listed asset
/// against every other.
pub struct Omnipool {
    pool_account: AccountId,
    min_trade_amount: Balance,
    assets: BTreeMap<AssetId, AssetPrice>,
}

impl Omnipool {
    pub closed spec fn spec_pool_account(&self) -> AccountId {
        self.pool_account
    }

    pub closed spec fn spec_min_trade_amount(&self) -> Balance {
        self.min_trade_amount
    }

    pub closed spec fn price_of(&self, asset: AssetId) -> Option<AssetPrice> {
        if self.assets@.contains_key(asset) {
            Some(self.assets@[asset])
        } else {
            None
        }
    }

    pub open spec fn has_asset(&self, asset: AssetId) -> bool {
        self.price_of(asset) is Some
    }

    /// Every listed price is a positive rational.
    pub open spec fn wf(&self) -> bool {
        forall|a: AssetId|
            #[trigger] self.price_of(a) is Some ==> self.price_of(a).unwrap().num > 0
                && self.price_of(a).unwrap().den > 0
    }

    pub fn new(pool_account: AccountId, min_trade_amount: Balance) -> (r: Omnipool)
        ensures
            r.wf(),
            r.spec_pool_account() == pool_account,
            r.spec_min_trade_amount() == min_trade_amount,
            forall|a: AssetId| !#[trigger] r.has_asset(a),
    {
        Omnipool { pool_account, min_trade_amount, assets: BTreeMap::new() }
    }

    /// The account holding the pool's reserves.
    pub fn protocol_account(&self) -> (r: AccountId)
        ensures
            r == self.spec_pool_account(),
    {
        self.pool_account
    }

    /// List `asset` at the given positive hub price. Fails when the
    /// asset is already listed or the price is not positive.
    pub fn add_token(&mut self, asset: AssetId, num: Balance, den: Balance) -> (r: Result<
        (),
        AmmError,
    >)
        requires
            old(self).wf(),
        ensures
            final(self).wf(),
            final(self).spec_pool_account() == old(self).spec_pool_account(),
            final(self).spec_min_trade_amount() == old(self).spec_min_trade_amount(),
            match r {
                Ok(()) => {
                    &&& !old(self).has_asset(asset)
                    &&& num > 0 && den > 0
                    &&& final(self).price_of(asset) == Some(AssetPrice { num, den })
                    &&& forall|a: AssetId|
                        a != asset ==> #[trigger] final(self).price_of(a) == old(self).price_of(a)
                },
                Err(e) => {
                    &&& *final(self) == *old(self)
                    &&& (e == AmmError::NotAllowed ==> old(self).has_asset(asset))
                    &&& (e == AmmError::ZeroPrice ==> num == 0 || den == 0)
                    &&& (e == AmmError::NotAllowed || e == AmmError::ZeroPrice)
                },
            },
    {
        if num == 0 || den == 0 {
            return Err(AmmError::ZeroPrice);
        }
        if self.assets.contains_key(&asset) {
            return Err(AmmError::NotAllowed);
        }
        self.assets.insert(asset, AssetPrice { num, den });
        proof {
            assert forall|a: AssetId| #[trigger] self.price_of(a) is Some implies self.price_of(
                a,
            ).unwrap().num > 0 && self.price_of(a).unwrap().den > 0 by {
                if a != asset {
                    assert(self.price_of(a) == old(self).price_of(a));
                }
            }
        }
        Ok(())
    }

    /// What a sell of `amount_in` returns: input converted to hub value
    /// and on to the output asset, both conversions rounding down.
    pub open spec fn spec_calculate_sell(
        &self,
        asset_in: AssetId,
        asset_out: AssetId,
        amount_in: Balance,
    ) -> Result<Balance, AmmError> {
        if asset_in == asset_out {
            Err(AmmError::NotAllowed)
        } else if !(self.has_asset(asset_in) && self.has_asset(asset_out)) {
            Err(AmmError::AssetNotInPool)
        } else if amount_in < self.spec_min_trade_amount() {
            Err(AmmError::MinTradeAmountNotReached)
        } else {
            let pin = self.price_of(asset_in).unwrap();
            let pout = self.price_of(asset_out).unwrap();
            if amount_in * pin.num > Balance::MAX {
                Err(AmmError::Overflow)
            } else {
                let value = amount_in * pin.num / (pin.den as int);
                if value * pout.den > Balance::MAX {
                    Err(AmmError::Overflow)
                } else {
                    Ok((value * pout.den / (pout.num as int)) as Balance)
                }
            }
        }
    }

    /// What a buy of `amount_out` costs: output converted to hub value
    /// and on to the input asset, both conversions rounding up.
    pub open spec fn spec_calculate_buy(
        &self,
        asset_in: AssetId,
        asset_out: AssetId,
        amount_out: Balance,
    ) -> Result<Balance, AmmError> {
        if asset_in == asset_out {
            Err(AmmError::NotAllowed)
        } else if !(self.has_asset(asset_in) && self.has_asset(asset_out)) {
            Err(AmmError::AssetNotInPool)
        } else if amount_out < self.spec_min_trade_amount() {
            Err(AmmError::MinTradeAmountNotReached)
        } else {
            let pin = self.price_of(asset_in).unwrap();
            let pout = self.price_of(asset_out).unwrap();
            if amount_out * pout.num > Balance::MAX {
                Err(AmmError::Overflow)
            } else {
                let value = (amount_out * pout.num + pout.den - 1) / (pout.den as int);
                if value * pin.den > Balance::MAX {
                    Err(AmmError::Overflow)
                } else {
                    Ok(((value * pin.den + pin.num - 1) / (pin.num as int)) as Balance)
                }
            }
        }
    }

    /// The spot price of `asset_a` in `asset_b`, as a rational:
    /// `amount_b = amount_a * num / den` before rounding.
    pub open spec fn spec_spot_price(&self, asset_a: AssetId, asset_b: AssetId) -> Result<
        (Balance, Balance),
        AmmError,
    > {
        if asset_a == asset_b {
            Err(AmmError::NotAllowed)
        } else if !(self.has_asset(asset_a) && self.has_asset(asset_b)) {
            Err(AmmError::AssetNotInPool)
        } else {
            let pa = self.price_of(asset_a).unwrap();
            let pb = self.price_of(asset_b).unwrap();
            if pa.num * pb.den > Balance::MAX || pa.den * pb.num > Balance::MAX {
                Err(AmmError::Overflow)
            } else {
                Ok(((pa.num * pb.den) as Balance, (pa.den * pb.num) as Balance))
            }
        }
    }

    /// `calculate_sell` of the trade-execution interface: pure; answers
    /// `NotSupported` for every pool type but the omnipool.
    pub fn calculate_sell(
        &self,
        pool_type: PoolType,
        asset_in: AssetId,
        asset_out: AssetId,
        amount_in: Balance,
    ) -> (r: Result<Balance, ExecutorError>)
        requires
            self.wf(),
        ensures
            pool_type != PoolType::Omnipool ==> r == Err::<Balance, ExecutorError>(
                ExecutorError::NotSupported,
            ),
            pool_type == PoolType::Omnipool ==> r == lift_amm(
                self.spec_calculate_sell(asset_in, asset_out, amount_in),
            ),
    {
        if !matches!(pool_type, PoolType::Omnipool) {
            return Err(ExecutorError::NotSupported);
        }
        match self.calc_sell(asset_in, asset_out, amount_in) {
            Ok(v) => Ok(v),
            Err(e) => Err(ExecutorError::Error(e)),
        }
    }

    /// `calculate_buy` of the trade-execution interface.
    pub fn calculate_buy(
        &self,
        pool_type: PoolType,
        asset_in: AssetId,
        asset_out: AssetId,
        amount_out: Balance,
    ) -> (r: Result<Balance, ExecutorError>)
        requires
            self.wf(),
        ensures
            pool_type != PoolType::Omnipool ==> r == Err::<Balance, ExecutorError>(
                ExecutorError::NotSupported,
            ),
            pool_type == PoolType::Omnipool ==> r == lift_amm(
                self.spec_calculate_buy(asset_in, asset_out, amount_out),
            ),
    {
        if !matches!(pool_type, PoolType::Omnipool) {
            return Err(ExecutorError::NotSupported);
        }
        match self.calc_buy(asset_in, asset_out, amount_out) {
            Ok(v) => Ok(v),
            Err(e) => Err(ExecutorError::Error(e)),
        }
    }

    fn calc_sell(&self, asset_in: AssetId, asset_out: AssetId, amount_in: Balance) -> (r: Result<
        Balance,
        AmmError,
    >)
        requires
            self.wf(),
        ensures
            r == self.spec_calculate_sell(asset_in, asset_out, amount_in),
    {
        if asset_in == asset_out {
            return Err(AmmError::NotAllowed);
        }
        let (pin, pout) = match (self.get_price(asset_in), self.get_price(asset_out)) {
            (Some(pin), Some(pout)) => (pin, pout),
            _ => {
                return Err(AmmError::AssetNotInPool);
            },
        };
        if amount_in < self.min_trade_amount {
            return Err(AmmError::MinTradeAmountNotReached);
        }
        let value = match checked_mul_div(amount_in, pin.num, pin.den) {
            Some(v) => v,
            None => {
                return Err(AmmError::Overflow);
            },
        };
        match checked_mul_div(value, pout.den, pout.num) {
            Some(v) => Ok(v),
            None => Err(AmmError::Overflow),
        }
    }

    fn calc_buy(&self, asset_in: AssetId, asset_out: AssetId, amount_out: Balance) -> (r: Result<
        Balance,
        AmmError,
    >)
        requires
            self.wf(),
        ensures
            r == self.spec_calculate_buy(asset_in, asset_out, amount_out),
    {
        if asset_in == asset_out {
            return Err(AmmError::NotAllowed);
        }
        let (pin, pout) = match (self.get_price(asset_in), self.get_price(asset_out)) {
            (Some(pin), Some(pout)) => (pin, pout),
            _ => {
                return Err(AmmError::AssetNotInPool);
            },
        };
        if amount_out < self.min_trade_amount {
            return Err(AmmError::MinTradeAmountNotReached);
        }
        let value = match checked_mul_div_ceil(amount_out, pout.num, pout.den) {
            Some(v) => v,
            None => {
                return Err(AmmError::Overflow);
            },
        };
        match checked_mul_div_ceil(value, pin.den, pin.num) {
            Some(v) => Ok(v),
            None => Err(AmmError::Overflow),
        }
    }

    fn get_price(&self, asset: AssetId) -> (r: Option<AssetPrice>)
        ensures
            r == self.price_of(asset),
    {
        match self.assets.get(&asset) {
            Some(p) => Some(*p),
            None => None,
        }
    }

    /// `calculate_spot_price` of the trade-execution interface.
    pub fn calculate_spot_price(
        &self,
        pool_type: PoolType,
        asset_a: AssetId,
        asset_b: AssetId,
    ) -> (r: Result<(Balance, Balance), ExecutorError>)
        requires
            self.wf(),
        ensures
            pool_type != PoolType::Omnipool ==> r == Err::<(Balance, Balance), ExecutorError>(
                ExecutorError::NotSupported,
            ),
            pool_type == PoolType::Omnipool ==> r == lift_amm(
                self.spec_spot_price(asset_a, asset_b),
            ),
            r matches Ok(p) ==> p.0 > 0 && p.1 > 0,
    {
        if !matches!(pool_type, PoolType::Omnipool) {
            return Err(ExecutorError::NotSupported);
        }
        if asset_a == asset_b {
            return Err(ExecutorError::Error(AmmError::NotAllowed));
        }
        let (pa, pb) = match (self.get_price(asset_a), self.get_price(asset_b)) {
            (Some(pa), Some(pb)) => (pa, pb),
            _ => {
                return Err(ExecutorError::Error(AmmError::AssetNotInPool));
            },
        };
        let num = match pa.num.checked_mul(pb.den) {
            Some(v) => v,
            None => {
                return Err(ExecutorError::Error(AmmError::Overflow));
            },
        };
        let den = match pa.den.checked_mul(pb.num) {
            Some(v) => v,
            None => {
                return Err(ExecutorError::Error(AmmError::Overflow));
            },
        };
        proof {
            vstd::arithmetic::mul::lemma_mul_strictly_positive(pa.num as int, pb.den as int);
            vstd::arithmetic::mul::lemma_mul_strictly_positive(pa.den as int, pb.num as int);
        }
        Ok((num, den))
    }

    /// `get_liquidity_depth` of the trade-execution interface: the pool
    /// account's free balance in `asset_a`.
    pub fn get_liquidity_depth(
        &self,
        pool_type: PoolType,
        asset_a: AssetId,
        ledger: &Ledger,
    ) -> (r: Result<Balance, ExecutorError>)
        ensures
            pool_type != PoolType::Omnipool ==> r == Err::<Balance, ExecutorError>(
                ExecutorError::NotSupported,
            ),
            pool_type == PoolType::Omnipool ==> r == Ok::<Balance, ExecutorError>(
                ledger.free_of(self.spec_pool_account(), asset_a),
            ),
    {
        if !matches!(pool_type, PoolType::Omnipool) {
            return Err(ExecutorError::NotSupported);
        }
        Ok(ledger.free_balance(asset_a, self.pool_account))
    }

    /// The exact outcome of `execute_sell` on the given state: the
    /// amount bought, or the first failing check.
    pub open spec fn spec_execute_sell(
        &self,
        ledger: &Ledger,
        breaker: &CircuitBreaker,
        who: AccountId,
        asset_in: AssetId,
        asset_out: AssetId,
        amount_in: Balance,
        min_limit: Balance,
    ) -> Result<Balance, AmmError> {
        match self.spec_calculate_sell(asset_in, asset_out, amount_in) {
            Err(e) => Err(e),
            Ok(amount_out) => {
                let pool = self.spec_pool_account();
                let reserve_in = ledger.free_of(pool, asset_in);
                let reserve_out = ledger.free_of(pool, asset_out);
                if amount_out < min_limit {
                    Err(AmmError::TradeLimitExceeded)
                } else if who == pool {
                    Err(AmmError::NotAllowed)
                } else if breaker.trade_consumed(asset_in) + amount_in
                    > breaker.effective_trade_limit(asset_in, reserve_in) {
                    Err(AmmError::MaxTradeVolumePerBlockReached)
                } else if breaker.trade_consumed(asset_out) + amount_out
                    > breaker.effective_trade_limit(asset_out, reserve_out) {
                    Err(AmmError::MaxTradeVolumePerBlockReached)
                } else if reserve_out < amount_out {
                    Err(AmmError::InsufficientLiquidity)
                } else if ledger.free_of(who, asset_in) < amount_in {
                    Err(AmmError::InsufficientBalance)
                } else if reserve_in + amount_in > Balance::MAX || ledger.free_of(who, asset_out)
                    + amount_out > Balance::MAX {
                    Err(AmmError::Overflow)
                } else {
                    Ok(amount_out)
                }
            },
        }
    }

    /// `execute_sell` of the trade-execution interface: trades exactly
    /// `amount_in` of `asset_in` for the calculated output, moving both
    /// legs between `who` and the pool account, or fails with no effect.
    pub fn execute_sell(
        &self,
        who: AccountId,
        pool_type: PoolType,
        asset_in: AssetId,
        asset_out: AssetId,
        amount_in: Balance,
        min_limit: Balance,
        ledger: &mut Ledger,
        breaker: &mut CircuitBreaker,
    ) -> (r: Result<(), ExecutorError>)
        requires
            self.wf(),
            old(breaker).wf(),
        ensures
            final(breaker).wf(),
            pool_type != PoolType::Omnipool ==> r == Err::<(), ExecutorError>(
                ExecutorError::NotSupported,
            ),
            pool_type == PoolType::Omnipool ==> match self.spec_execute_sell(
                old(ledger),
                old(breaker),
                who,
                asset_in,
                asset_out,
                amount_in,
                min_limit,
            ) {
                Ok(amount_out) => {
                    let pool = self.spec_pool_account();
                    &&& r == Ok::<(), ExecutorError>(())
                    &&& final(ledger).free_of(who, asset_in) == old(ledger).free_of(who, asset_in)
                        - amount_in
                    &&& final(ledger).free_of(who, asset_out) == old(ledger).free_of(
                        who,
                        asset_out,
                    ) + amount_out
                    &&& final(ledger).free_of(pool, asset_in) == old(ledger).free_of(
                        pool,
                        asset_in,
                    ) + amount_in
                    &&& final(ledger).free_of(pool, asset_out) == old(ledger).free_of(
                        pool,
                        asset_out,
                    ) - amount_out
                    &&& final(ledger).reserved_of(who, asset_in) == old(ledger).reserved_of(
                        who,
                        asset_in,
                    )
                    &&& final(ledger).reserved_of(who, asset_out) == old(ledger).reserved_of(
                        who,
                        asset_out,
                    )
                    &&& final(ledger).reserved_of(pool, asset_in) == old(ledger).reserved_of(
                        pool,
                        asset_in,
                    )
                    &&& final(ledger).reserved_of(pool, asset_out) == old(ledger).reserved_of(
                        pool,
                        asset_out,
                    )
                    &&& forall|w: AccountId, a: AssetId|
                        !((w == who || w == self.spec_pool_account()) && (a == asset_in || a
                            == asset_out)) ==> #[trigger] final(ledger).entry_of(w, a) == old(
                            ledger,
                        ).entry_of(w, a)
                    &&& final(breaker).trade_consumed(asset_in) == old(breaker).trade_consumed(
                        asset_in,
                    ) + amount_in
                    &&& final(breaker).trade_consumed(asset_out) == old(breaker).trade_consumed(
                        asset_out,
                    ) + amount_out
                    &&& forall|a: AssetId|
                        a != asset_in && a != asset_out
                            ==> #[trigger] final(breaker).trade_entry_of(a)
                            == old(breaker).trade_entry_of(a)
                    &&& forall|a: AssetId|
                        #[trigger] final(breaker).liquidity_entry_of(a)
                            == old(breaker).liquidity_entry_of(a)
                },
                Err(e) => {
                    &&& r == Err::<(), ExecutorError>(ExecutorError::Error(e))
                    &&& final(ledger).agrees(old(ledger))
                    &&& final(breaker).agrees(old(breaker))
                },
            },
            pool_type != PoolType::Omnipool
                ==> final(ledger).agrees(old(ledger)) && final(breaker).agrees(old(breaker)),
    {
        if !matches!(pool_type, PoolType::Omnipool) {
            return Err(ExecutorError::NotSupported);
        }
        let amount_out = match self.calc_sell(asset_in, asset_out, amount_in) {
            Ok(v) => v,
            Err(e) => {
                return Err(ExecutorError::Error(e));
            },
        };
        if amount_out < min_limit {
            return Err(ExecutorError::Error(AmmError::TradeLimitExceeded));
        }
        if who == self.pool_account {
            return Err(ExecutorError::Error(AmmError::NotAllowed));
        }
        let reserve_in = ledger.free_balance(asset_in, self.pool_account);
        let reserve_out = ledger.free_balance(asset_out, self.pool_account);
        let saved = breaker.snapshot();
        if let Err(e) = breaker.ensure_and_update_trade_volume_limit(asset_in, amount_in, reserve_in)
        {
            return Err(ExecutorError::Error(e));
        }
        if let Err(e) = breaker.ensure_and_update_trade_volume_limit(
            asset_out,
            amount_out,
            reserve_out,
        ) {
            *breaker = saved;
            return Err(ExecutorError::Error(e));
        }
        if reserve_out < amount_out {
            *breaker = saved;
            return Err(ExecutorError::Error(AmmError::InsufficientLiquidity));
        }
        if ledger.free_balance(asset_in, who) < amount_in {
            *breaker = saved;
            return Err(ExecutorError::Error(AmmError::InsufficientBalance));
        }
        if reserve_in > Balance::MAX - amount_in || ledger.free_balance(asset_out, who)
            > Balance::MAX - amount_out {
            *breaker = saved;
            return Err(ExecutorError::Error(AmmError::Overflow));
        }
        match ledger.transfer(asset_in, who, self.pool_account, amount_in) {
            Ok(()) => (),
            Err(_) => {
                proof {
                    assert(false);
                }
            },
        }
        match ledger.transfer(asset_out, self.pool_account, who, amount_out) {
            Ok(()) => (),
            Err(_) => {
                proof {
                    assert(false);
                }
            },
        }
        Ok(())
    }

    /// The exact outcome of `execute_buy` on the given state: the amount
    /// paid, or the first failing check.
    pub open spec fn spec_execute_buy(
        &self,
        ledger: &Ledger,
        breaker: &CircuitBreaker,
        who: AccountId,
        asset_in: AssetId,
        asset_out: AssetId,
        amount_out: Balance,
        max_limit: Balance,
    ) -> Result<Balance, AmmError> {
        match self.spec_calculate_buy(asset_in, asset_out, amount_out) {
            Err(e) => Err(e),
            Ok(amount_in) => {
                let pool = self.spec_pool_account();
                let reserve_in = ledger.free_of(pool, asset_in);
                let reserve_out = ledger.free_of(pool, asset_out);
                if amount_in > max_limit {
                    Err(AmmError::TradeLimitExceeded)
                } else if who == pool {
                    Err(AmmError::NotAllowed)
                } else if breaker.trade_consumed(asset_in) + amount_in
                    > breaker.effective_trade_limit(asset_in, reserve_in) {
                    Err(AmmError::MaxTradeVolumePerBlockReached)
                } else if breaker.trade_consumed(asset_out) + amount_out
                    > breaker.effective_trade_limit(asset_out, reserve_out) {
                    Err(AmmError::MaxTradeVolumePerBlockReached)
                } else if reserve_out < amount_out {
                    Err(AmmError::InsufficientLiquidity)
                } else if ledger.free_of(who, asset_in) < amount_in {
                    Err(AmmError::InsufficientBalance)
                } else if reserve_in + amount_in > Balance::MAX || ledger.free_of(who, asset_out)
                    + amount_out > Balance::MAX {
                    Err(AmmError::Overflow)
                } else {
                    Ok(amount_in)
                }
            },
        }
    }

    /// `execute_buy` of the trade-execution interface: buys exactly
    /// `amount_out` of `asset_out` for the calculated input, moving both
    /// legs between `who` and the pool account, or fails with no effect.
    pub fn execute_buy(
        &self,
        who: AccountId,
        pool_type: PoolType,
        asset_in: AssetId,
        asset_out: AssetId,
        amount_out: Balance,
        max_limit: Balance,
        ledger: &mut Ledger,
        breaker: &mut CircuitBreaker,
    ) -> (r: Result<(), ExecutorError>)
        requires
            self.wf(),
            old(breaker).wf(),
        ensures
            final(breaker).wf(),
            pool_type != PoolType::Omnipool ==> r == Err::<(), ExecutorError>(
                ExecutorError::NotSupported,
            ),
            pool_type == PoolType::Omnipool ==> match self.spec_execute_buy(
                old(ledger),
                old(breaker),
                who,
                asset_in,
                asset_out,
                amount_out,
                max_limit,
            ) {
                Ok(amount_in) => {
                    let pool = self.spec_pool_account();
                    &&& r == Ok::<(), ExecutorError>(())
                    &&& final(ledger).free_of(who, asset_in) == old(ledger).free_of(who, asset_in)
                        - amount_in
                    &&& final(ledger).free_of(who, asset_out) == old(ledger).free_of(
                        who,
                        asset_out,
                    ) + amount_out
                    &&& final(ledger).free_of(pool, asset_in) == old(ledger).free_of(
                        pool,
                        asset_in,
                    ) + amount_in
                    &&& final(ledger).free_of(pool, asset_out) == old(ledger).free_of(
                        pool,
                        asset_out,
                    ) - amount_out
                    &&& final(ledger).reserved_of(who, asset_in) == old(ledger).reserved_of(
                        who,
                        asset_in,
                    )
                    &&& final(ledger).reserved_of(who, asset_out) == old(ledger).reserved_of(
                        who,
                        asset_out,
                    )
                    &&& final(ledger).reserved_of(pool, asset_in) == old(ledger).reserved_of(
                        pool,
                        asset_in,
                    )
                    &&& final(ledger).reserved_of(pool, asset_out) == old(ledger).reserved_of(
                        pool,
                        asset_out,
                    )
                    &&& forall|w: AccountId, a: AssetId|
                        !((w == who || w == self.spec_pool_account()) && (a == asset_in || a
                            == asset_out)) ==> #[trigger] final(ledger).entry_of(w, a) == old(
                            ledger,
                        ).entry_of(w, a)
                    &&& final(breaker).trade_consumed(asset_in) == old(breaker).trade_consumed(
                        asset_in,
                    ) + amount_in
                    &&& final(breaker).trade_consumed(asset_out) == old(breaker).trade_consumed(
                        asset_out,
                    ) + amount_out
                    &&& forall|a: AssetId|
                        a != asset_in && a != asset_out
                            ==> #[trigger] final(breaker).trade_entry_of(a)
                            == old(breaker).trade_entry_of(a)
                    &&& forall|a: AssetId|
                        #[trigger] final(breaker).liquidity_entry_of(a)
                            == old(breaker).liquidity_entry_of(a)
                },
                Err(e) => {
                    &&& r == Err::<(), ExecutorError>(ExecutorError::Error(e))
                    &&& final(ledger).agrees(old(ledger))
                    &&& final(breaker).agrees(old(breaker))
                },
            },
            pool_type != PoolType::Omnipool
                ==> final(ledger).agrees(old(ledger)) && final(breaker).agrees(old(breaker)),
    {
        if !matches!(pool_type, PoolType::Omnipool) {
            return Err(ExecutorError::NotSupported);
        }
        let amount_in = match self.calc_buy(asset_in, asset_out, amount_out) {
            Ok(v) => v,
            Err(e) => {
                return Err(ExecutorError::Error(e));
            },
        };
        if amount_in > max_limit {
            return Err(ExecutorError::Error(AmmError::TradeLimitExceeded));
        }
        if who == self.pool_account {
            return Err(ExecutorError::Error(AmmError::NotAllowed));
        }
        let reserve_in = ledger.free_balance(asset_in, self.pool_account);
        let reserve_out = ledger.free_balance(asset_out, self.pool_account);
        let saved = breaker.snapshot();
        if let Err(e) = breaker.ensure_and_update_trade_volume_limit(asset_in, amount_in, reserve_in)
        {
            return Err(ExecutorError::Error(e));
        }
        if let Err(e) = breaker.ensure_and_update_trade_volume_limit(
            asset_out,
            amount_out,
            reserve_out,
        ) {
            *breaker = saved;
            return Err(ExecutorError::Error(e));
        }
        if reserve_out < amount_out {
            *breaker = saved;
            return Err(ExecutorError::Error(AmmError::InsufficientLiquidity));
        }
        if ledger.free_balance(asset_in, who) < amount_in {
            *breaker = saved;
            return Err(ExecutorError::Error(AmmError::InsufficientBalance));
        }
        if reserve_in > Balance::MAX - amount_in || ledger.free_balance(asset_out, who)
            > Balance::MAX - amount_out {
            *breaker = saved;
            return Err(ExecutorError::Error(AmmError::Overflow));
        }
        match ledger.transfer(asset_in, who, self.pool_account, amount_in) {
            Ok(()) => (),
            Err(_) => {
                proof {
                    assert(false);
                }
            },
        }
        match ledger.transfer(asset_out, self.pool_account, who, amount_out) {
            Ok(()) => (),
            Err(_) => {
                proof {
                    assert(false);
                }
            },
        }
        Ok(())
    }

    /// The exact outcome of `add_liquidity` on the given state.
    pub open spec fn spec_add_liquidity(
        &self,
        ledger: &Ledger,
        breaker: &CircuitBreaker,
        who: AccountId,
        asset: AssetId,
        amount: Balance,
    ) -> Result<(), AmmError> {
        let pool = self.spec_pool_account();
        let reserve = ledger.free_of(pool, asset);
        if !self.has_asset(asset) {
            Err(AmmError::AssetNotInPool)
        } else if who == pool {
            Err(AmmError::NotAllowed)
        } else if breaker.liquidity_consumed(asset) + amount > breaker.effective_liquidity_limit(
            asset,
            reserve,
        ) {
            Err(AmmError::MaxLiquidityLimitPerBlockReached)
        } else if ledger.free_of(who, asset) < amount {
            Err(AmmError::InsufficientBalance)
        } else if reserve + amount > Balance::MAX {
            Err(AmmError::Overflow)
        } else {
            Ok(())
        }
    }

    /// Add `amount` of `asset` to the pool's reserve from `who`'s free
    /// balance, bounded per block by the circuit breaker's liquidity cap.
    pub fn add_liquidity(
        &self,
        who: AccountId,
        asset: AssetId,
        amount: Balance,
        ledger: &mut Ledger,
        breaker: &mut CircuitBreaker,
    ) -> (r: Result<(), AmmError>)
        requires
            self.wf(),
            old(breaker).wf(),
        ensures
            final(breaker).wf(),
            r == self.spec_add_liquidity(old(ledger), old(breaker), who, asset, amount),
            match r {
                Ok(()) => {
                    let pool = self.spec_pool_account();
                    &&& final(ledger).free_of(who, asset) == old(ledger).free_of(who, asset)
                        - amount
                    &&& final(ledger).free_of(pool, asset) == old(ledger).free_of(pool, asset)
                        + amount
                    &&& final(ledger).reserved_of(who, asset) == old(ledger).reserved_of(
                        who,
                        asset,
                    )
                    &&& final(ledger).reserved_of(pool, asset) == old(ledger).reserved_of(
                        pool,
                        asset,
                    )
                    &&& forall|w: AccountId, a: AssetId|
                        !((w == who || w == self.spec_pool_account()) && a == asset)
                            ==> #[trigger] final(ledger).entry_of(w, a) == old(ledger).entry_of(
                            w,
                            a,
                        )
                    &&& final(breaker).liquidity_consumed(asset) == old(
                        breaker,
                    ).liquidity_consumed(asset) + amount
                    &&& forall|a: AssetId|
                        a != asset ==> #[trigger] final(breaker).liquidity_entry_of(a) == old(
                            breaker,
                        ).liquidity_entry_of(a)
                    &&& forall|a: AssetId|
                        #[trigger] final(breaker).trade_entry_of(a) == old(
                            breaker,
                        ).trade_entry_of(a)
                },
                Err(_) => {
                    &&& final(ledger).agrees(old(ledger))
                    &&& final(breaker).agrees(old(breaker))
                },
            },
    {
        if self.get_price(asset).is_none() {
            return Err(AmmError::AssetNotInPool);
        }
        if who == self.pool_account {
            return Err(AmmError::NotAllowed);
        }
        let reserve = ledger.free_balance(asset, self.pool_account);
        let saved = breaker.snapshot();
        if let Err(e) = breaker.ensure_and_update_liquidity_limit(asset, amount, reserve) {
            return Err(e);
        }
        if ledger.free_balance(asset, who) < amount {
            *breaker = saved;
            return Err(AmmError::InsufficientBalance);
        }
        if reserve > Balance::MAX - amount {
            *breaker = saved;
            return Err(AmmError::Overflow);
        }
        match ledger.transfer(asset, who, self.pool_account, amount) {
            Ok(()) => (),
            Err(_) => {
                proof {
                    assert(false);
                }
            },
        }
        Ok(())
    }

    /// The exact outcome of `remove_liquidity` on the given state.
    pub open spec fn spec_remove_liquidity(
        &self,
        ledger: &Ledger,
        breaker: &CircuitBreaker,
        who: AccountId,
        asset: AssetId,
        amount: Balance,
    ) -> Result<(), AmmError> {
        let pool = self.spec_pool_account();
        let reserve = ledger.free_of(pool, asset);
        if !self.has_asset(asset) {
            Err(AmmError::AssetNotInPool)
        } else if who == pool {
            Err(AmmError::NotAllowed)
        } else if breaker.liquidity_consumed(asset) + amount > breaker.effective_liquidity_limit(
            asset,
            reserve,
        ) {
            Err(AmmError::MaxLiquidityLimitPerBlockReached)
        } else if reserve < amount {
            Err(AmmError::InsufficientLiquidity)
        } else if ledger.free_of(who, asset) + amount > Balance::MAX {
            Err(AmmError::Overflow)
        } else {
            Ok(())
        }
    }

    /// Remove `amount` of `asset` from the pool's reserve to `who`'s free
    /// balance, bounded per block by the circuit breaker's liquidity cap.
    pub fn remove_liquidity(
        &self,
        who: AccountId,
        asset: AssetId,
        amount: Balance,
        ledger: &mut Ledger,
        breaker: &mut CircuitBreaker,
    ) -> (r: Result<(), AmmError>)
        requires
            self.wf(),
            old(breaker).wf(),
        ensures
            final(breaker).wf(),
            r == self.spec_remove_liquidity(old(ledger), old(breaker), who, asset, amount),
            match r {
                Ok(()) => {
                    let pool = self.spec_pool_account();
                    &&& final(ledger).free_of(who, asset) == old(ledger).free_of(who, asset)
                        + amount
                    &&& final(ledger).free_of(pool, asset) == old(ledger).free_of(pool, asset)
                        - amount
                    &&& final(ledger).reserved_of(who, asset) == old(ledger).reserved_of(
                        who,
                        asset,
                    )
                    &&& final(ledger).reserved_of(pool, asset) == old(ledger).reserved_of(
                        pool,
                        asset,
                    )
                    &&& forall|w: AccountId, a: AssetId|
                        !((w == who || w == self.spec_pool_account()) && a == asset)
                            ==> #[trigger] final(ledger).entry_of(w, a) == old(ledger).entry_of(
                            w,
                            a,
                        )
                    &&& final(breaker).liquidity_consumed(asset) == old(
                        breaker,
                    ).liquidity_consumed(asset) + amount
                    &&& forall|a: AssetId|
                        a != asset ==> #[trigger] final(breaker).liquidity_entry_of(a) == old(
                            breaker,
                        ).liquidity_entry_of(a)
                    &&& forall|a: AssetId|
                        #[trigger] final(breaker).trade_entry_of(a) == old(
                            breaker,
                        ).trade_entry_of(a)
                },
                Err(_) => {
                    &&& final(ledger).agrees(old(ledger))
                    &&& final(breaker).agrees(old(breaker))
                },
            },
    {
        if self.get_price(asset).is_none() {
            return Err(AmmError::AssetNotInPool);
        }
        if who == self.pool_account {
            return Err(AmmError::NotAllowed);
        }
        let reserve = ledger.free_balance(asset, self.pool_account);
        let saved = breaker.snapshot();
        if let Err(e) = breaker.ensure_and_update_liquidity_limit(asset, amount, reserve) {
            return Err(e);
        }
        if reserve < amount {
            *breaker = saved;
            return Err(AmmError::InsufficientLiquidity);
        }
        if ledger.free_balance(asset, who) > Balance::MAX - amount {
            *breaker = saved;
            return Err(AmmError::Overflow);
        }
        match ledger.transfer(asset, self.pool_account, who, amount) {
            Ok(()) => (),
            Err(_) => {
                proof {
                    assert(false);
                }
            },
        }
        Ok(())
    }
}

} // verus!
