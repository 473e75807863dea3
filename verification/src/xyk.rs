//! A constant-product pool implementing the trade-execution interface.
//!
//! The pricing formulas live in an outside mathematics crate, but they
//! are short enough to state exactly, so every trusted call here carries
//! the formula itself as its contract. The module answers
//! `NotSupported` for every pool type but its own.

use std::collections::BTreeMap;
use vstd::prelude::*;

use crate::breaker::CircuitBreaker;
use crate::ledger::Ledger;
use crate::types::{AccountId, AmmError, AssetId, Balance, ExecutorError, PoolType};

verus! {

broadcast use vstd::laws_cmp::group_laws_cmp;

/// `floor(out_reserve * amount_in / (in_reserve + amount_in))`: what a
/// constant-product sell returns; never more than the output reserve.
pub open spec fn xyk_out_given_in(
    in_reserve: Balance,
    out_reserve: Balance,
    amount_in: Balance,
) -> Balance {
    if amount_in == 0 {
        0
    } else {
        ((out_reserve * amount_in) / (in_reserve + amount_in)) as Balance
    }
}

/// Whether a constant-product buy of `amount_out` can be priced: the
/// output reserve must strictly cover it and the rounded-up charge must
/// fit the balance type.
pub open spec fn xyk_in_given_out_fits(
    out_reserve: Balance,
    in_reserve: Balance,
    amount_out: Balance,
) -> bool {
    amount_out == 0 || (amount_out < out_reserve && (in_reserve * amount_out) / (out_reserve
        - amount_out) + 1 <= Balance::MAX)
}

/// `floor(in_reserve * amount_out / (out_reserve - amount_out)) + 1`:
/// what a constant-product buy charges, rounded up by one unit.
pub open spec fn xyk_in_given_out(
    out_reserve: Balance,
    in_reserve: Balance,
    amount_out: Balance,
) -> Balance {
    if amount_out == 0 {
        0
    } else {
        ((in_reserve * amount_out) / (out_reserve - amount_out) + 1) as Balance
    }
}

/// Relies on hydra_dx_math::xyk::calculate_out_given_in: the constant-
/// product sale formula, computed in double-width arithmetic, whose
/// quotient never exceeds the output reserve and so always fits.
#[verifier::external_body]
fn math_out_given_in(in_reserve: Balance, out_reserve: Balance, amount_in: Balance) -> (r: Option<
    Balance,
>)
    ensures
        r == Some(xyk_out_given_in(in_reserve, out_reserve, amount_in)),
{
    hydra_dx_math::xyk::calculate_out_given_in(in_reserve, out_reserve, amount_in).ok()
}

/// Relies on hydra_dx_math::xyk::calculate_in_given_out: the constant-
/// product purchase formula, rounded up by one unit; it fails when the
/// output reserve does not strictly cover the purchase or the charge
/// overflows the balance type.
#[verifier::external_body]
fn math_in_given_out(out_reserve: Balance, in_reserve: Balance, amount_out: Balance) -> (r: Option<
    Balance,
>)
    ensures
        r == if xyk_in_given_out_fits(out_reserve, in_reserve, amount_out) {
            Some(xyk_in_given_out(out_reserve, in_reserve, amount_out))
        } else {
            None::<Balance>
        },
{
    hydra_dx_math::xyk::calculate_in_given_out(out_reserve, in_reserve, amount_out).ok()
}

/// One constant-product pool: its reserve account and its asset pair,
/// stored under the pair in ascending order.
#[derive(Clone, Copy, Debug, PartialEq, Eq, Structural)]
pub struct XykPool {
    pub account: AccountId,
    pub asset_a: AssetId,
    pub asset_b: AssetId,
}

/// The constant-product pools, keyed by unordered asset pair.
pub struct Xyk {
    pools: BTreeMap<(AssetId, AssetId), XykPool>,
}

/// The pair in ascending order.
pub open spec fn ordered_pair(asset_a: AssetId, asset_b: AssetId) -> (AssetId, AssetId) {
    if asset_a <= asset_b {
        (asset_a, asset_b)
    } else {
        (asset_b, asset_a)
    }
}

impl Xyk {
    /// The pool trading the pair, whichever way round it is named.
    pub closed spec fn pool_of(&self, asset_a: AssetId, asset_b: AssetId) -> Option<XykPool> {
        if self.pools@.contains_key(ordered_pair(asset_a, asset_b)) {
            Some(self.pools@[ordered_pair(asset_a, asset_b)])
        } else {
            None
        }
    }

    pub fn new() -> (r: Xyk)
        ensures
            forall|a: AssetId, b: AssetId| #[trigger] r.pool_of(a, b) is None,
    {
        Xyk { pools: BTreeMap::new() }
    }

    /// Open a pool for a pair of distinct assets.
    pub fn create_pool(
        &mut self,
        asset_a: AssetId,
        asset_b: AssetId,
        account: AccountId,
    ) -> (r: Result<(), AmmError>)
        ensures
            r is Err <==> asset_a == asset_b || old(self).pool_of(asset_a, asset_b) is Some,
            match r {
                Ok(()) => {
                    &&& final(self).pool_of(asset_a, asset_b) matches Some(p) && p.account
                        == account
                    &&& forall|a: AssetId, b: AssetId|
                        ordered_pair(a, b) != ordered_pair(asset_a, asset_b)
                            ==> #[trigger] final(self).pool_of(a, b) == old(self).pool_of(a, b)
                },
                Err(e) => {
                    &&& e == AmmError::NotAllowed
                    &&& *final(self) == *old(self)
                },
            },
    {
        if asset_a == asset_b {
            return Err(AmmError::NotAllowed);
        }
        let key = if asset_a <= asset_b {
            (asset_a, asset_b)
        } else {
            (asset_b, asset_a)
        };
        if self.pools.contains_key(&key) {
            return Err(AmmError::NotAllowed);
        }
        self.pools.insert(key, XykPool { account, asset_a: key.0, asset_b: key.1 });
        Ok(())
    }

    /// What `calculate_sell` returns: the constant-product sale formula
    /// over the pool's current reserves.
    pub open spec fn spec_calculate_sell(
        &self,
        ledger: &Ledger,
        asset_in: AssetId,
        asset_out: AssetId,
        amount_in: Balance,
    ) -> Result<Balance, AmmError> {
        if asset_in == asset_out {
            Err(AmmError::NotAllowed)
        } else {
            match self.pool_of(asset_in, asset_out) {
                None => Err(AmmError::PoolNotFound),
                Some(pool) => Ok(
                    xyk_out_given_in(
                        ledger.free_of(pool.account, asset_in),
                        ledger.free_of(pool.account, asset_out),
                        amount_in,
                    ),
                ),
            }
        }
    }

    /// What `calculate_buy` returns: the constant-product purchase
    /// formula over the pool's current reserves.
    pub open spec fn spec_calculate_buy(
        &self,
        ledger: &Ledger,
        asset_in: AssetId,
        asset_out: AssetId,
        amount_out: Balance,
    ) -> Result<Balance, AmmError> {
        if asset_in == asset_out {
            Err(AmmError::NotAllowed)
        } else {
            match self.pool_of(asset_in, asset_out) {
                None => Err(AmmError::PoolNotFound),
                Some(pool) => {
                    let out_reserve = ledger.free_of(pool.account, asset_out);
                    let in_reserve = ledger.free_of(pool.account, asset_in);
                    if xyk_in_given_out_fits(out_reserve, in_reserve, amount_out) {
                        Ok(xyk_in_given_out(out_reserve, in_reserve, amount_out))
                    } else {
                        Err(AmmError::InsufficientLiquidity)
                    }
                },
            }
        }
    }

    /// `calculate_sell` of the trade-execution interface: pure, and
    /// `NotSupported` for every pool type but the constant-product one.
    pub fn calculate_sell(
        &self,
        pool_type: PoolType,
        asset_in: AssetId,
        asset_out: AssetId,
        amount_in: Balance,
        ledger: &Ledger,
    ) -> (r: Result<Balance, ExecutorError>)
        ensures
            pool_type != PoolType::Xyk ==> r == Err::<Balance, ExecutorError>(
                ExecutorError::NotSupported,
            ),
            pool_type == PoolType::Xyk ==> r == crate::types::lift_amm(
                self.spec_calculate_sell(ledger, asset_in, asset_out, amount_in),
            ),
    {
        if !matches!(pool_type, PoolType::Xyk) {
            return Err(ExecutorError::NotSupported);
        }
        if asset_in == asset_out {
            return Err(ExecutorError::Error(AmmError::NotAllowed));
        }
        let pool = match self.get_pool(asset_in, asset_out) {
            Some(p) => p,
            None => {
                return Err(ExecutorError::Error(AmmError::PoolNotFound));
            },
        };
        let in_reserve = ledger.free_balance(asset_in, pool.account);
        let out_reserve = ledger.free_balance(asset_out, pool.account);
        match math_out_given_in(in_reserve, out_reserve, amount_in) {
            Some(v) => Ok(v),
            None => {
                proof {
                    assert(false);
                }
                Err(ExecutorError::Error(AmmError::Overflow))
            },
        }
    }

    /// `calculate_buy` of the trade-execution interface.
    pub fn calculate_buy(
        &self,
        pool_type: PoolType,
        asset_in: AssetId,
        asset_out: AssetId,
        amount_out: Balance,
        ledger: &Ledger,
    ) -> (r: Result<Balance, ExecutorError>)
        ensures
            pool_type != PoolType::Xyk ==> r == Err::<Balance, ExecutorError>(
                ExecutorError::NotSupported,
            ),
            pool_type == PoolType::Xyk ==> r == crate::types::lift_amm(
                self.spec_calculate_buy(ledger, asset_in, asset_out, amount_out),
            ),
    {
        if !matches!(pool_type, PoolType::Xyk) {
            return Err(ExecutorError::NotSupported);
        }
        if asset_in == asset_out {
            return Err(ExecutorError::Error(AmmError::NotAllowed));
        }
        let pool = match self.get_pool(asset_in, asset_out) {
            Some(p) => p,
            None => {
                return Err(ExecutorError::Error(AmmError::PoolNotFound));
            },
        };
        let in_reserve = ledger.free_balance(asset_in, pool.account);
        let out_reserve = ledger.free_balance(asset_out, pool.account);
        match math_in_given_out(out_reserve, in_reserve, amount_out) {
            Some(v) => Ok(v),
            None => Err(ExecutorError::Error(AmmError::InsufficientLiquidity)),
        }
    }

    fn get_pool(&self, asset_a: AssetId, asset_b: AssetId) -> (r: Option<XykPool>)
        ensures
            r == self.pool_of(asset_a, asset_b),
    {
        let key = if asset_a <= asset_b {
            (asset_a, asset_b)
        } else {
            (asset_b, asset_a)
        };
        match self.pools.get(&key) {
            Some(p) => Some(*p),
            None => None,
        }
    }

    /// `get_liquidity_depth` of the trade-execution interface: the pool
    /// account's free balance in `asset_a`.
    pub fn get_liquidity_depth(
        &self,
        pool_type: PoolType,
        asset_a: AssetId,
        asset_b: AssetId,
        ledger: &Ledger,
    ) -> (r: Result<Balance, ExecutorError>)
        ensures
            pool_type != PoolType::Xyk ==> r == Err::<Balance, ExecutorError>(
                ExecutorError::NotSupported,
            ),
            pool_type == PoolType::Xyk ==> match self.pool_of(asset_a, asset_b) {
                Some(pool) => r == Ok::<Balance, ExecutorError>(
                    ledger.free_of(pool.account, asset_a),
                ),
                None => r == Err::<Balance, ExecutorError>(
                    ExecutorError::Error(AmmError::PoolNotFound),
                ),
            },
    {
        if !matches!(pool_type, PoolType::Xyk) {
            return Err(ExecutorError::NotSupported);
        }
        match self.get_pool(asset_a, asset_b) {
            Some(p) => Ok(ledger.free_balance(asset_a, p.account)),
            None => Err(ExecutorError::Error(AmmError::PoolNotFound)),
        }
    }

    /// The exact outcome of `execute_sell` on the given state: the
    /// amount bought, or the first failing check. The circuit breaker's
    /// trade-volume caps are consulted on both legs.
    pub open spec fn spec_execute_sell(
        &self,
        ledger: &Ledger,
        breaker: &CircuitBreaker,
        who: AccountId,
        asset_in: AssetId,
        asset_out: AssetId,
        amount_in: Balance,
        min_limit: Balance,
    ) -> Result<Balance, AmmError> {
        match self.spec_calculate_sell(ledger, asset_in, asset_out, amount_in) {
            Err(e) => Err(e),
            Ok(out) => {
                let pool = self.pool_of(asset_in, asset_out).unwrap();
                let reserve_in = ledger.free_of(pool.account, asset_in);
                let reserve_out = ledger.free_of(pool.account, asset_out);
                if out < min_limit {
                    Err(AmmError::TradeLimitExceeded)
                } else if who == pool.account {
                    Err(AmmError::NotAllowed)
                } else if reserve_out < out {
                    Err(AmmError::InsufficientLiquidity)
                } else if ledger.free_of(who, asset_in) < amount_in {
                    Err(AmmError::InsufficientBalance)
                } else if reserve_in + amount_in > Balance::MAX || ledger.free_of(who, asset_out)
                    + out > Balance::MAX {
                    Err(AmmError::Overflow)
                } else if breaker.trade_consumed(asset_in) + amount_in
                    > breaker.effective_trade_limit(asset_in, reserve_in) {
                    Err(AmmError::MaxTradeVolumePerBlockReached)
                } else if breaker.trade_consumed(asset_out) + out > breaker.effective_trade_limit(
                    asset_out,
                    reserve_out,
                ) {
                    Err(AmmError::MaxTradeVolumePerBlockReached)
                } else {
                    Ok(out)
                }
            },
        }
    }

    /// `execute_sell` of the trade-execution interface: moves both legs
    /// between `who` and the pool account, or fails with no effect.
    pub fn execute_sell(
        &self,
        who: AccountId,
        pool_type: PoolType,
        asset_in: AssetId,
        asset_out: AssetId,
        amount_in: Balance,
        min_limit: Balance,
        ledger: &mut Ledger,
        breaker: &mut CircuitBreaker,
    ) -> (r: Result<(), ExecutorError>)
        requires
            old(breaker).wf(),
        ensures
            final(breaker).wf(),
            pool_type != PoolType::Xyk ==> r == Err::<(), ExecutorError>(
                ExecutorError::NotSupported,
            ),
            r is Err ==> final(ledger).agrees(old(ledger)) && final(breaker).agrees(old(breaker)),
            pool_type == PoolType::Xyk ==> match self.spec_execute_sell(
                old(ledger),
                old(breaker),
                who,
                asset_in,
                asset_out,
                amount_in,
                min_limit,
            ) {
                Err(e) => r == Err::<(), ExecutorError>(ExecutorError::Error(e)),
                Ok(out) => {
                    let pool = self.pool_of(asset_in, asset_out).unwrap();
                    &&& r == Ok::<(), ExecutorError>(())
                    &&& final(ledger).free_of(who, asset_in) == old(ledger).free_of(who, asset_in)
                        - amount_in
                    &&& final(ledger).free_of(who, asset_out) == old(ledger).free_of(
                        who,
                        asset_out,
                    ) + out
                    &&& final(ledger).free_of(pool.account, asset_in) == old(ledger).free_of(
                        pool.account,
                        asset_in,
                    ) + amount_in
                    &&& final(ledger).free_of(pool.account, asset_out) == old(ledger).free_of(
                        pool.account,
                        asset_out,
                    ) - out
                    &&& forall|w: AccountId, a: AssetId|
                        !((w == who || w == pool.account) && (a == asset_in || a == asset_out))
                            ==> #[trigger] final(ledger).entry_of(w, a) == old(ledger).entry_of(
                            w,
                            a,
                        )
                    &&& final(breaker).trade_consumed(asset_in) == old(breaker).trade_consumed(
                        asset_in,
                    ) + amount_in
                    &&& final(breaker).trade_consumed(asset_out) == old(breaker).trade_consumed(
                        asset_out,
                    ) + out
                    &&& forall|a: AssetId|
                        a != asset_in && a != asset_out
                            ==> #[trigger] final(breaker).trade_entry_of(a)
                            == old(breaker).trade_entry_of(a)
                    &&& forall|a: AssetId|
                        #[trigger] final(breaker).liquidity_entry_of(a)
                            == old(breaker).liquidity_entry_of(a)
                    &&& forall|w: AccountId, a: AssetId|
                        #[trigger] final(ledger).reserved_of(w, a) == old(ledger).reserved_of(
                            w,
                            a,
                        )
                },
            },
    {
        let out = match self.calculate_sell(pool_type, asset_in, asset_out, amount_in, ledger) {
            Ok(v) => v,
            Err(e) => {
                return Err(e);
            },
        };
        if out < min_limit {
            return Err(ExecutorError::Error(AmmError::TradeLimitExceeded));
        }
        let pool = match self.get_pool(asset_in, asset_out) {
            Some(p) => p,
            None => {
                proof {
                    assert(false);
                }
                return Err(ExecutorError::Error(AmmError::PoolNotFound));
            },
        };
        if who == pool.account {
            return Err(ExecutorError::Error(AmmError::NotAllowed));
        }
        if ledger.free_balance(asset_out, pool.account) < out {
            return Err(ExecutorError::Error(AmmError::InsufficientLiquidity));
        }
        if ledger.free_balance(asset_in, who) < amount_in {
            return Err(ExecutorError::Error(AmmError::InsufficientBalance));
        }
        if ledger.free_balance(asset_in, pool.account) > Balance::MAX - amount_in
            || ledger.free_balance(asset_out, who) > Balance::MAX - out {
            return Err(ExecutorError::Error(AmmError::Overflow));
        }
        let reserve_in = ledger.free_balance(asset_in, pool.account);
        let reserve_out = ledger.free_balance(asset_out, pool.account);
        let saved = breaker.snapshot();
        if let Err(e) = breaker.ensure_and_update_trade_volume_limit(asset_in, amount_in, reserve_in)
        {
            return Err(ExecutorError::Error(e));
        }
        if let Err(e) = breaker.ensure_and_update_trade_volume_limit(asset_out, out, reserve_out) {
            *breaker = saved;
            return Err(ExecutorError::Error(e));
        }
        match ledger.transfer(asset_in, who, pool.account, amount_in) {
            Ok(()) => (),
            Err(_) => {
                proof {
                    assert(false);
                }
            },
        }
        match ledger.transfer(asset_out, pool.account, who, out) {
            Ok(()) => (),
            Err(_) => {
                proof {
                    assert(false);
                }
            },
        }
        Ok(())
    }

    /// The exact outcome of `execute_buy` on the given state: the
    /// amount paid, or the first failing check. The circuit breaker's
    /// trade-volume caps are consulted on both legs.
    pub open spec fn spec_execute_buy(
        &self,
        ledger: &Ledger,
        breaker: &CircuitBreaker,
        who: AccountId,
        asset_in: AssetId,
        asset_out: AssetId,
        amount_out: Balance,
        max_limit: Balance,
    ) -> Result<Balance, AmmError> {
        match self.spec_calculate_buy(ledger, asset_in, asset_out, amount_out) {
            Err(e) => Err(e),
            Ok(amount_in) => {
                let pool = self.pool_of(asset_in, asset_out).unwrap();
                let reserve_in = ledger.free_of(pool.account, asset_in);
                let reserve_out = ledger.free_of(pool.account, asset_out);
                if amount_in > max_limit {
                    Err(AmmError::TradeLimitExceeded)
                } else if who == pool.account {
                    Err(AmmError::NotAllowed)
                } else if reserve_out < amount_out {
                    Err(AmmError::InsufficientLiquidity)
                } else if ledger.free_of(who, asset_in) < amount_in {
                    Err(AmmError::InsufficientBalance)
                } else if reserve_in + amount_in > Balance::MAX || ledger.free_of(who, asset_out)
                    + amount_out > Balance::MAX {
                    Err(AmmError::Overflow)
                } else if breaker.trade_consumed(asset_in) + amount_in
                    > breaker.effective_trade_limit(asset_in, reserve_in) {
                    Err(AmmError::MaxTradeVolumePerBlockReached)
                } else if breaker.trade_consumed(asset_out) + amount_out
                    > breaker.effective_trade_limit(asset_out, reserve_out) {
                    Err(AmmError::MaxTradeVolumePerBlockReached)
                } else {
                    Ok(amount_in)
                }
            },
        }
    }

    /// `execute_buy` of the trade-execution interface: buys exactly
    /// `amount_out`, or fails with no effect.
    pub fn execute_buy(
        &self,
        who: AccountId,
        pool_type: PoolType,
        asset_in: AssetId,
        asset_out: AssetId,
        amount_out: Balance,
        max_limit: Balance,
        ledger: &mut Ledger,
        breaker: &mut CircuitBreaker,
    ) -> (r: Result<(), ExecutorError>)
        requires
            old(breaker).wf(),
        ensures
            final(breaker).wf(),
            pool_type != PoolType::Xyk ==> r == Err::<(), ExecutorError>(
                ExecutorError::NotSupported,
            ),
            r is Err ==> final(ledger).agrees(old(ledger)) && final(breaker).agrees(old(breaker)),
            pool_type == PoolType::Xyk ==> match self.spec_execute_buy(
                old(ledger),
                old(breaker),
                who,
                asset_in,
                asset_out,
                amount_out,
                max_limit,
            ) {
                Err(e) => r == Err::<(), ExecutorError>(ExecutorError::Error(e)),
                Ok(amount_in) => {
                    let pool = self.pool_of(asset_in, asset_out).unwrap();
                    &&& r == Ok::<(), ExecutorError>(())
                    &&& final(ledger).free_of(who, asset_in) == old(ledger).free_of(who, asset_in)
                        - amount_in
                    &&& final(ledger).free_of(who, asset_out) == old(ledger).free_of(
                        who,
                        asset_out,
                    ) + amount_out
                    &&& final(ledger).free_of(pool.account, asset_in) == old(ledger).free_of(
                        pool.account,
                        asset_in,
                    ) + amount_in
                    &&& final(ledger).free_of(pool.account, asset_out) == old(ledger).free_of(
                        pool.account,
                        asset_out,
                    ) - amount_out
                    &&& forall|w: AccountId, a: AssetId|
                        !((w == who || w == pool.account) && (a == asset_in || a == asset_out))
                            ==> #[trigger] final(ledger).entry_of(w, a) == old(ledger).entry_of(
                            w,
                            a,
                        )
                    &&& final(breaker).trade_consumed(asset_in) == old(breaker).trade_consumed(
                        asset_in,
                    ) + amount_in
                    &&& final(breaker).trade_consumed(asset_out) == old(breaker).trade_consumed(
                        asset_out,
                    ) + amount_out
                    &&& forall|a: AssetId|
                        a != asset_in && a != asset_out
                            ==> #[trigger] final(breaker).trade_entry_of(a)
                            == old(breaker).trade_entry_of(a)
                    &&& forall|a: AssetId|
                        #[trigger] final(breaker).liquidity_entry_of(a)
                            == old(breaker).liquidity_entry_of(a)
                    &&& forall|w: AccountId, a: AssetId|
                        #[trigger] final(ledger).reserved_of(w, a) == old(ledger).reserved_of(
                            w,
                            a,
                        )
                },
            },
    {
        let amount_in = match self.calculate_buy(pool_type, asset_in, asset_out, amount_out, ledger)
        {
            Ok(v) => v,
            Err(e) => {
                return Err(e);
            },
        };
        if amount_in > max_limit {
            return Err(ExecutorError::Error(AmmError::TradeLimitExceeded));
        }
        let pool = match self.get_pool(asset_in, asset_out) {
            Some(p) => p,
            None => {
                proof {
                    assert(false);
                }
                return Err(ExecutorError::Error(AmmError::PoolNotFound));
            },
        };
        if who == pool.account {
            return Err(ExecutorError::Error(AmmError::NotAllowed));
        }
        if ledger.free_balance(asset_out, pool.account) < amount_out {
            return Err(ExecutorError::Error(AmmError::InsufficientLiquidity));
        }
        if ledger.free_balance(asset_in, who) < amount_in {
            return Err(ExecutorError::Error(AmmError::InsufficientBalance));
        }
        if ledger.free_balance(asset_in, pool.account) > Balance::MAX - amount_in
            || ledger.free_balance(asset_out, who) > Balance::MAX - amount_out {
            return Err(ExecutorError::Error(AmmError::Overflow));
        }
        let reserve_in = ledger.free_balance(asset_in, pool.account);
        let reserve_out = ledger.free_balance(asset_out, pool.account);
        let saved = breaker.snapshot();
        if let Err(e) = breaker.ensure_and_update_trade_volume_limit(asset_in, amount_in, reserve_in)
        {
            return Err(ExecutorError::Error(e));
        }
        if let Err(e) = breaker.ensure_and_update_trade_volume_limit(
            asset_out,
            amount_out,
            reserve_out,
        ) {
            *breaker = saved;
            return Err(ExecutorError::Error(e));
        }
        match ledger.transfer(asset_in, who, pool.account, amount_in) {
            Ok(()) => (),
            Err(_) => {
                proof {
                    assert(false);
                }
            },
        }
        match ledger.transfer(asset_out, pool.account, who, amount_out) {
            Ok(()) => (),
            Err(_) => {
                proof {
                    assert(false);
                }
            },
        }
        Ok(())
    }
}

} // verus!
