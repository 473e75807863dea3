//! The route executor: validates a route of up to `MAX_NUMBER_OF_TRADES`
//! hops, computes the amount chain hop by hop through the pools'
//! calculate functions, and executes the hops in order as one atomic
//! operation — when any hop fails, every effect of the earlier hops is
//! rolled back and the caller sees an unchanged state. It also stores a
//! default route per unordered asset pair, used when a trade names none.
//!
//! Hops dispatch over the closed set of pool implementations — the
//! omnipool, the constant-product pools and the stableswap pools — so a
//! route may mix them; the exact balance bookkeeping is stated for
//! routes that stay within the omnipool's single reserve account.

use std::collections::BTreeMap;
use vstd::prelude::*;

use crate::breaker::CircuitBreaker;
use crate::ledger::Ledger;
use crate::omnipool::Omnipool;
use crate::stableswap::Stableswap;
use crate::xyk::Xyk;
use crate::types::{
    AccountId, AmmError, AssetId, Balance, ExecutorError, PoolType, RouterError, Trade,
    MAX_NUMBER_OF_TRADES,
};

verus! {

broadcast use vstd::laws_cmp::group_laws_cmp;

/// The pool implementations a route may dispatch into, as one closed
/// set: the pool set is fixed, so hops are matched on their pool type
/// rather than dispatched through open-ended runtime polymorphism.
pub struct Amms {
    pub omnipool: Omnipool,
    pub stableswap: Stableswap,
    pub xyk: Xyk,
}

impl Amms {
    pub open spec fn wf(&self) -> bool {
        &&& self.omnipool.wf()
        &&& self.stableswap.wf()
    }
}

/// Whether every hop of the route runs through the omnipool; only then
/// do all hops share one reserve account, which is what the executor's
/// exact balance bookkeeping is stated over.
pub open spec fn all_omnipool_route(route: Seq<Trade>) -> bool {
    forall|i: int| 0 <= i < route.len() ==> (#[trigger] route[i]).pool == PoolType::Omnipool
}

/// The assets a route touches, in order: the input of the first hop,
/// then every hop's output.
pub open spec fn route_assets(route: Seq<Trade>) -> Seq<AssetId> {
    if route.len() == 0 {
        Seq::empty()
    } else {
        Seq::new(route.len() + 1, |i: int| if i == 0 {
            route[0].asset_in
        } else {
            route[i - 1].asset_out
        })
    }
}

/// No asset appears twice along the route.
pub open spec fn distinct_route_assets(route: Seq<Trade>) -> bool {
    forall|i: int, j: int|
        0 <= i < j < route_assets(route).len() ==> route_assets(route)[i] != route_assets(
            route,
        )[j]
}

/// A route is valid for a pair when it is non-empty, within the hop
/// bound, starts at `asset_in`, ends at `asset_out`, and each hop's
/// output is the next hop's input.
pub open spec fn valid_route(route: Seq<Trade>, asset_in: AssetId, asset_out: AssetId) -> bool {
    &&& 1 <= route.len() <= MAX_NUMBER_OF_TRADES
    &&& route[0].asset_in == asset_in
    &&& route[route.len() - 1].asset_out == asset_out
    &&& forall|i: int| 0 < i < route.len() ==> route[i].asset_in == #[trigger] route[i - 1].asset_out
}

/// A route with each hop's direction turned around and the hop order
/// reversed: the same path walked backwards.
pub open spec fn spec_inverse_route(route: Seq<Trade>) -> Seq<Trade> {
    Seq::new(route.len(), |i: int| {
        let t = route[route.len() - 1 - i];
        Trade { pool: t.pool, asset_in: t.asset_out, asset_out: t.asset_in }
    })
}

/// What one sell hop yields. A stableswap hop is a plain swap: routed
/// hops never trade a pool's own share asset.
pub open spec fn spec_calc_sell_hop(
    amms: &Amms,
    ledger: &Ledger,
    hop: Trade,
    amount_in: Balance,
) -> Result<Balance, RouterError> {
    match hop.pool {
        PoolType::Omnipool => match amms.omnipool.spec_calculate_sell(
            hop.asset_in,
            hop.asset_out,
            amount_in,
        ) {
            Ok(v) => Ok(v),
            Err(e) => Err(RouterError::Trade(e)),
        },
        PoolType::Xyk => match amms.xyk.spec_calculate_sell(
            ledger,
            hop.asset_in,
            hop.asset_out,
            amount_in,
        ) {
            Ok(v) => Ok(v),
            Err(e) => Err(RouterError::Trade(e)),
        },
        PoolType::Stableswap(pool_id) => if hop.asset_in == pool_id || hop.asset_out == pool_id {
            Err(RouterError::Trade(AmmError::NotAllowed))
        } else {
            match amms.stableswap.spec_calculate_sell(
                ledger,
                pool_id,
                hop.asset_in,
                hop.asset_out,
                amount_in,
            ) {
                Ok(v) => Ok(v),
                Err(ExecutorError::Error(e)) => Err(RouterError::Trade(e)),
                Err(ExecutorError::NotSupported) => Err(RouterError::PoolNotSupported),
            }
        },
        PoolType::Lbp => Err(RouterError::PoolNotSupported),
    }
}

/// What one buy hop costs.
pub open spec fn spec_calc_buy_hop(
    amms: &Amms,
    ledger: &Ledger,
    hop: Trade,
    amount_out: Balance,
) -> Result<Balance, RouterError> {
    match hop.pool {
        PoolType::Omnipool => match amms.omnipool.spec_calculate_buy(
            hop.asset_in,
            hop.asset_out,
            amount_out,
        ) {
            Ok(v) => Ok(v),
            Err(e) => Err(RouterError::Trade(e)),
        },
        PoolType::Xyk => match amms.xyk.spec_calculate_buy(
            ledger,
            hop.asset_in,
            hop.asset_out,
            amount_out,
        ) {
            Ok(v) => Ok(v),
            Err(e) => Err(RouterError::Trade(e)),
        },
        PoolType::Stableswap(pool_id) => match amms.stableswap.spec_calculate_buy(
            ledger,
            pool_id,
            hop.asset_in,
            hop.asset_out,
            amount_out,
        ) {
            Ok(v) => Ok(v),
            Err(ExecutorError::Error(e)) => Err(RouterError::Trade(e)),
            Err(ExecutorError::NotSupported) => Err(RouterError::PoolNotSupported),
        },
        PoolType::Lbp => Err(RouterError::PoolNotSupported),
    }
}

/// The forward amount chain of a sell: element `i` is what hop `i`
/// yields, each hop fed the previous hop's output.
pub open spec fn spec_sell_amounts(amms: &Amms, ledger: &Ledger, route: Seq<Trade>, amount_in: Balance) -> Result<
    Seq<Balance>,
    RouterError,
>
    decreases route.len(),
{
    if route.len() == 0 {
        Ok(Seq::empty())
    } else {
        match spec_sell_amounts(amms, ledger, route.drop_last(), amount_in) {
            Err(e) => Err(e),
            Ok(pre) => {
                let cur = if route.len() == 1 {
                    amount_in
                } else {
                    pre[pre.len() - 1]
                };
                match spec_calc_sell_hop(amms, ledger, route.last(), cur) {
                    Err(e) => Err(e),
                    Ok(out) => Ok(pre.push(out)),
                }
            },
        }
    }
}

/// The backward amount chain of a buy: element `i` is what hop `i`
/// must be fed, computed from the final output backwards.
pub open spec fn spec_buy_amounts(amms: &Amms, ledger: &Ledger, route: Seq<Trade>, amount_out: Balance) -> Result<
    Seq<Balance>,
    RouterError,
>
    decreases route.len(),
{
    if route.len() == 0 {
        Ok(Seq::empty())
    } else {
        match spec_buy_amounts(amms, ledger, route.skip(1), amount_out) {
            Err(e) => Err(e),
            Ok(rest) => {
                let need = if route.len() == 1 {
                    amount_out
                } else {
                    rest[0]
                };
                match spec_calc_buy_hop(amms, ledger, route[0], need) {
                    Err(e) => Err(e),
                    Ok(amount_in) => Ok(seq![amount_in] + rest),
                }
            },
        }
    }
}

/// Default routes per asset pair, stored once per unordered pair in the
/// direction of the smaller asset identifier.
pub struct Router {
    routes: BTreeMap<(AssetId, AssetId), Vec<Trade>>,
}

impl Router {
    /// The stored default route from `asset_in` to `asset_out`, walked
    /// backwards when the pair is stored in the other direction.
    pub closed spec fn route_for(&self, asset_in: AssetId, asset_out: AssetId) -> Option<
        Seq<Trade>,
    > {
        if asset_in <= asset_out {
            if self.routes@.contains_key((asset_in, asset_out)) {
                Some(self.routes@[(asset_in, asset_out)]@)
            } else {
                None
            }
        } else {
            if self.routes@.contains_key((asset_out, asset_in)) {
                Some(spec_inverse_route(self.routes@[(asset_out, asset_in)]@))
            } else {
                None
            }
        }
    }

    pub fn new() -> (r: Router)
        ensures
            forall|a: AssetId, b: AssetId| #[trigger] r.route_for(a, b) is None,
    {
        Router { routes: BTreeMap::new() }
    }

    /// The stored default route for the pair, if any.
    pub fn get_route(&self, asset_in: AssetId, asset_out: AssetId) -> (r: Option<Vec<Trade>>)
        ensures
            match r {
                Some(v) => self.route_for(asset_in, asset_out) == Some(v@),
                None => self.route_for(asset_in, asset_out) is None,
            },
    {
        if asset_in <= asset_out {
            match self.routes.get(&(asset_in, asset_out)) {
                Some(v) => Some(v.clone()),
                None => None,
            }
        } else {
            match self.routes.get(&(asset_out, asset_in)) {
                Some(v) => Some(inverse_route(v)),
                None => None,
            }
        }
    }

    /// Whether `new_route` trades at least as well as the stored default
    /// for the pair: the probe amount's sell output over the new route
    /// must reach the output over the stored one (a stored route whose
    /// calculation fails no longer counts).
    pub open spec fn spec_route_is_better(
        &self,
        amms: &Amms,
        ledger: &Ledger,
        asset_in: AssetId,
        asset_out: AssetId,
        new_route: Seq<Trade>,
        probe: Balance,
    ) -> bool {
        match spec_sell_amounts(amms, ledger, new_route, probe) {
            Err(_) => false,
            Ok(new_amounts) => match self.route_for(asset_in, asset_out) {
                None => true,
                Some(old_route) => match spec_sell_amounts(amms, ledger, old_route, probe) {
                    Err(_) => true,
                    Ok(old_amounts) => old_amounts.len() == 0 || new_amounts[new_amounts.len()
                        - 1] >= old_amounts[old_amounts.len() - 1],
                },
            },
        }
    }

    /// Store `route` as the pair's default, but only when a probe trade
    /// over it yields at least as much as over the route it replaces —
    /// an inferior replacement is rejected.
    pub fn set_route(
        &mut self,
        amms: &Amms,
        ledger: &Ledger,
        asset_in: AssetId,
        asset_out: AssetId,
        route: Vec<Trade>,
        probe: Balance,
    ) -> (r: Result<(), RouterError>)
        requires
            amms.wf(),
        ensures
            match r {
                Ok(()) => {
                    &&& asset_in != asset_out
                    &&& valid_route(route@, asset_in, asset_out)
                    &&& old(self).spec_route_is_better(amms, ledger, asset_in, asset_out, route@, probe)
                    &&& final(self).route_for(asset_in, asset_out) == Some(route@)
                    &&& forall|a: AssetId, b: AssetId|
                        !((a == asset_in && b == asset_out) || (a == asset_out && b == asset_in))
                            ==> #[trigger] final(self).route_for(a, b) == old(self).route_for(a, b)
                },
                Err(e) => {
                    &&& *final(self) == *old(self)
                    &&& (e == RouterError::InvalidRoute ==> asset_in == asset_out || !valid_route(
                        route@,
                        asset_in,
                        asset_out,
                    ))
                    &&& (e == RouterError::RouteNotBetter ==> !old(self).spec_route_is_better(
                        amms,
                        ledger,
                        asset_in,
                        asset_out,
                        route@,
                        probe,
                    ))
                    &&& (e == RouterError::InvalidRoute || e == RouterError::RouteNotBetter)
                },
            },
    {
        if asset_in == asset_out {
            return Err(RouterError::InvalidRoute);
        }
        if !validate_route(&route, asset_in, asset_out) {
            return Err(RouterError::InvalidRoute);
        }
        let new_amounts = match calculate_sell_route(amms, ledger, &route, probe) {
            Ok(v) => v,
            Err(_) => {
                return Err(RouterError::RouteNotBetter);
            },
        };
        let new_out = new_amounts[new_amounts.len() - 1];
        match self.get_route(asset_in, asset_out) {
            None => (),
            Some(old_route) => {
                match calculate_sell_route(amms, ledger, &old_route, probe) {
                    Err(_) => (),
                    Ok(old_amounts) => {
                        if old_amounts.len() > 0 {
                            let old_out = old_amounts[old_amounts.len() - 1];
                            if new_out < old_out {
                                return Err(RouterError::RouteNotBetter);
                            }
                        }
                    },
                }
            },
        }
        self.store_route(asset_in, asset_out, route);
        Ok(())
    }

    /// Store `route` as the pair's default, with no quality check;
    /// reserved to a privileged origin by the caller.
    pub fn force_insert_route(
        &mut self,
        asset_in: AssetId,
        asset_out: AssetId,
        route: Vec<Trade>,
    ) -> (r: Result<(), RouterError>)
        ensures
            match r {
                Ok(()) => {
                    &&& asset_in != asset_out
                    &&& valid_route(route@, asset_in, asset_out)
                    &&& final(self).route_for(asset_in, asset_out) == Some(route@)
                    &&& forall|a: AssetId, b: AssetId|
                        !((a == asset_in && b == asset_out) || (a == asset_out && b == asset_in))
                            ==> #[trigger] final(self).route_for(a, b) == old(self).route_for(a, b)
                },
                Err(e) => {
                    &&& e == RouterError::InvalidRoute
                    &&& *final(self) == *old(self)
                    &&& (asset_in == asset_out || !valid_route(route@, asset_in, asset_out))
                },
            },
    {
        if asset_in == asset_out {
            return Err(RouterError::InvalidRoute);
        }
        if !validate_route(&route, asset_in, asset_out) {
            return Err(RouterError::InvalidRoute);
        }
        self.store_route(asset_in, asset_out, route);
        Ok(())
    }

    fn store_route(&mut self, asset_in: AssetId, asset_out: AssetId, route: Vec<Trade>)
        requires
            asset_in != asset_out,
        ensures
            final(self).route_for(asset_in, asset_out) == Some(route@),
            forall|a: AssetId, b: AssetId|
                !((a == asset_in && b == asset_out) || (a == asset_out && b == asset_in))
                    ==> #[trigger] final(self).route_for(a, b) == old(self).route_for(a, b),
    {
        if asset_in <= asset_out {
            self.routes.insert((asset_in, asset_out), route);
        } else {
            let inv = inverse_route(&route);
            proof {
                lemma_inverse_involution(route@);
            }
            self.routes.insert((asset_out, asset_in), inv);
        }
    }
}

impl Router {
    /// The route a trade will run over: the explicit one when given,
    /// else the stored default for the pair.
    pub open spec fn spec_used_route(
        &self,
        route: Seq<Trade>,
        asset_in: AssetId,
        asset_out: AssetId,
    ) -> Option<Seq<Trade>> {
        if route.len() > 0 {
            Some(route)
        } else {
            self.route_for(asset_in, asset_out)
        }
    }

    /// Sell `amount_in` of `asset_in` for `asset_out` over `route` (or
    /// the stored default when `route` is empty), as one atomic
    /// operation: either every hop executes and the final output — at
    /// least `min_limit` — is returned, or no balance and no breaker
    /// counter changes at all.
    #[verifier::loop_isolation(false)]
    #[verifier::rlimit(80)]
    pub fn sell(
        &self,
        amms: &Amms,
        ledger: &mut Ledger,
        breaker: &mut CircuitBreaker,
        who: AccountId,
        asset_in: AssetId,
        asset_out: AssetId,
        amount_in: Balance,
        min_limit: Balance,
        route: &Vec<Trade>,
    ) -> (r: Result<Balance, RouterError>)
        requires
            amms.wf(),
            old(breaker).wf(),
        ensures
            final(breaker).wf(),
            self.spec_used_route(route@, asset_in, asset_out) is None ==> r == Err::<
                Balance,
                RouterError,
            >(RouterError::RouteNotFound) && final(ledger).agrees(old(ledger))
                && final(breaker).agrees(old(breaker)),
            match self.spec_used_route(route@, asset_in, asset_out) {
                None => true,
                Some(u) => {
                    if !valid_route(u, asset_in, asset_out) {
                        &&& r == Err::<Balance, RouterError>(RouterError::InvalidRoute)
                        &&& final(ledger).agrees(old(ledger))
                        &&& final(breaker).agrees(old(breaker))
                    } else {
                        match spec_sell_amounts(amms, old(ledger), u, amount_in) {
                            Err(e) => {
                                &&& r == Err::<Balance, RouterError>(e)
                                &&& final(ledger).agrees(old(ledger))
                                &&& final(breaker).agrees(old(breaker))
                            },
                            Ok(am) => {
                                let out = am[am.len() - 1];
                                &&& (out < min_limit ==> r == Err::<Balance, RouterError>(
                                    RouterError::TradeLimitReached,
                                ) && final(ledger).agrees(old(ledger)) && final(breaker).agrees(
                                    old(breaker),
                                ))
                                // for a single omnipool hop, executing is
                                // owed exactly when the execution outcome
                                // over the entry state succeeds
                                &&& (out >= min_limit && u.len() == 1 && u[0].pool
                                    == PoolType::Omnipool ==> (r is Ok
                                    <==> amms.omnipool.spec_execute_sell(
                                    old(ledger),
                                    old(breaker),
                                    who,
                                    asset_in,
                                    asset_out,
                                    amount_in,
                                    am[0],
                                ) is Ok))
                                &&& (out >= min_limit ==> match r {
                                    Ok(v) => {
                                        let pool = amms.omnipool.spec_pool_account();
                                        &&& v == out
                                        &&& forall|w: AccountId, a: AssetId|
                                            #[trigger] final(ledger).reserved_of(w, a) == old(
                                                ledger,
                                            ).reserved_of(w, a)
                                        &&& (distinct_route_assets(u) && all_omnipool_route(u) ==> {
                                            &&& who != pool
                                            &&& final(ledger).free_of(who, asset_in) == old(
                                                ledger,
                                            ).free_of(who, asset_in) - amount_in
                                            &&& final(ledger).free_of(who, asset_out) == old(
                                                ledger,
                                            ).free_of(who, asset_out) + out
                                            &&& final(ledger).free_of(pool, asset_in) == old(
                                                ledger,
                                            ).free_of(pool, asset_in) + amount_in
                                            &&& final(ledger).free_of(pool, asset_out) == old(
                                                ledger,
                                            ).free_of(pool, asset_out) - out
                                            &&& final(ledger).reserved_of(who, asset_in) == old(
                                                ledger,
                                            ).reserved_of(who, asset_in)
                                            &&& final(ledger).reserved_of(who, asset_out) == old(
                                                ledger,
                                            ).reserved_of(who, asset_out)
                                            &&& forall|w: AccountId, a: AssetId|
                                                !((w == who || w
                                                    == amms.omnipool.spec_pool_account()) && (a
                                                    == asset_in || a == asset_out))
                                                    ==> #[trigger] final(ledger).entry_of(w, a)
                                                    == old(ledger).entry_of(w, a)
                                        })
                                    },
                                    Err(_) => final(ledger).agrees(old(ledger))
                                        && final(breaker).agrees(old(breaker)),
                                })
                            },
                        }
                    }
                },
            },
    {
        let used: Vec<Trade> = if route.len() > 0 {
            route.clone()
        } else {
            match self.get_route(asset_in, asset_out) {
                Some(v) => v,
                None => {
                    return Err(RouterError::RouteNotFound);
                },
            }
        };
        if !validate_route(&used, asset_in, asset_out) {
            return Err(RouterError::InvalidRoute);
        }
        let amounts = match calculate_sell_route(amms, ledger, &used, amount_in) {
            Ok(v) => v,
            Err(e) => {
                return Err(e);
            },
        };
        let n = used.len();
        let final_out = amounts[n - 1];
        if final_out < min_limit {
            return Err(RouterError::TradeLimitReached);
        }
        let ghost l0 = *ledger;
        let ghost b0 = *breaker;
        let ghost s = route_assets(used@);
        let saved_ledger = ledger.snapshot();
        let saved_breaker = breaker.snapshot();
        let mut cur = amount_in;
        let mut i: usize = 0;
        while i < n
            invariant
                i <= n,
                breaker.wf(),
                i == 0 ==> *ledger == l0 && *breaker == b0,
                i == 1 && n == 1 && used@[0].pool == PoolType::Omnipool
                    ==> amms.omnipool.spec_execute_sell(
                    &l0,
                    &b0,
                    who,
                    asset_in,
                    asset_out,
                    amount_in,
                    amounts@[0],
                ) is Ok,
                forall|w: AccountId, a: AssetId| #[trigger]
                    ledger.reserved_of(w, a) == l0.reserved_of(w, a),
                cur == if i == 0 {
                    amount_in
                } else {
                    amounts@[i - 1]
                },
                distinct_route_assets(used@) && all_omnipool_route(used@) ==> if i == 0 {
                    ledger.agrees(&l0)
                } else {
                    let pool = amms.omnipool.spec_pool_account();
                    &&& who != pool
                    &&& ledger.free_of(who, s[0]) == l0.free_of(who, s[0]) - amount_in
                    &&& ledger.free_of(who, s[i as int]) == l0.free_of(who, s[i as int])
                        + amounts@[i - 1]
                    &&& ledger.free_of(pool, s[0]) == l0.free_of(pool, s[0]) + amount_in
                    &&& ledger.free_of(pool, s[i as int]) == l0.free_of(pool, s[i as int])
                        - amounts@[i - 1]
                    &&& ledger.reserved_of(who, s[0]) == l0.reserved_of(who, s[0])
                    &&& ledger.reserved_of(who, s[i as int]) == l0.reserved_of(who, s[i as int])
                    &&& ledger.reserved_of(pool, s[0]) == l0.reserved_of(pool, s[0])
                    &&& ledger.reserved_of(pool, s[i as int]) == l0.reserved_of(pool, s[i as int])
                    &&& forall|w: AccountId, a: AssetId|
                        !((w == who || w == amms.omnipool.spec_pool_account()) && (a == s[0] || a
                            == s[i as int])) ==> #[trigger] ledger.entry_of(w, a) == l0.entry_of(
                            w,
                            a,
                        )
                },
            decreases n - i,
        {
            let hop = used[i];
            let expect = amounts[i];
            proof {
                lemma_sell_chain_hop(amms, &l0, used@, amount_in, amounts@, i as int);
            }
            let ghost pre = *ledger;
            let res = match hop.pool {
                PoolType::Omnipool => amms.omnipool.execute_sell(
                    who,
                    PoolType::Omnipool,
                    hop.asset_in,
                    hop.asset_out,
                    cur,
                    expect,
                    ledger,
                    breaker,
                ),
                PoolType::Xyk => amms.xyk.execute_sell(
                    who,
                    PoolType::Xyk,
                    hop.asset_in,
                    hop.asset_out,
                    cur,
                    expect,
                    ledger,
                    breaker,
                ),
                PoolType::Stableswap(pool_id) => amms.stableswap.execute_swap_sell(
                    who,
                    pool_id,
                    hop.asset_in,
                    hop.asset_out,
                    cur,
                    expect,
                    ledger,
                    breaker,
                ),
                PoolType::Lbp => {
                    proof {
                        assert(false);
                    }
                    Err(ExecutorError::NotSupported)
                },
            };
            match res {
                Ok(()) => {
                    proof {
                        let pool = amms.omnipool.spec_pool_account();
                        assert(hop.asset_in == s[i as int]);
                        assert(hop.asset_out == s[i + 1]);
                        if i == 0 && n == 1 && hop.pool == PoolType::Omnipool {
                            assert(amms.omnipool.spec_execute_sell(
                                &l0,
                                &b0,
                                who,
                                hop.asset_in,
                                hop.asset_out,
                                cur,
                                expect,
                            ) is Ok);
                        }
                        assert forall|w: AccountId, a: AssetId| #[trigger]
                            ledger.reserved_of(w, a) == l0.reserved_of(w, a) by {
                            match hop.pool {
                                PoolType::Omnipool => {
                                    if (w == who || w == pool) && (a == hop.asset_in || a
                                        == hop.asset_out) {
                                        assert(ledger.reserved_of(w, a) == pre.reserved_of(w, a));
                                    } else {
                                        assert(ledger.entry_of(w, a) == pre.entry_of(w, a));
                                    }
                                },
                                _ => {
                                    assert(ledger.reserved_of(w, a) == pre.reserved_of(w, a));
                                },
                            }
                            assert(pre.reserved_of(w, a) == l0.reserved_of(w, a));
                        }
                        if distinct_route_assets(used@) && all_omnipool_route(used@) {
                            assert(route_assets(used@)[0] != route_assets(used@)[i + 1]);
                            if i > 0 {
                                assert(route_assets(used@)[0] != route_assets(used@)[i as int]);
                                assert(route_assets(used@)[i as int] != route_assets(
                                    used@,
                                )[i + 1]);
                            }
                            // The hop moved `cur` of s[i] from `who` to the
                            // pool and `expect` of s[i+1] back; everything
                            // else kept its pre-hop value.
                            assert(pre.entry_of(who, s[0]) == if i == 0 {
                                l0.entry_of(who, s[0])
                            } else {
                                pre.entry_of(who, s[0])
                            });
                            assert forall|w: AccountId, a: AssetId|
                                !((w == who || w == pool) && (a == s[0] || a == s[i + 1]))
                                    implies #[trigger] ledger.entry_of(w, a) == l0.entry_of(
                                w,
                                a,
                            ) by {
                                if (w == who || w == pool) && i > 0 && a == s[i as int] {
                                    assert(ledger.free_of(w, a) == l0.free_of(w, a));
                                    assert(ledger.reserved_of(w, a) == l0.reserved_of(w, a));
                                    assert(ledger.entry_of(w, a) =~= l0.entry_of(w, a));
                                } else {
                                    assert(ledger.entry_of(w, a) == pre.entry_of(w, a));
                                    assert(pre.entry_of(w, a) == l0.entry_of(w, a));
                                }
                            }
                        }
                    }
                },
                Err(ExecutorError::Error(e)) => {
                    proof {
                        if i == 0 && n == 1 && hop.pool == PoolType::Omnipool {
                            assert(!(amms.omnipool.spec_execute_sell(
                                &l0,
                                &b0,
                                who,
                                hop.asset_in,
                                hop.asset_out,
                                cur,
                                expect,
                            ) is Ok));
                        }
                    }
                    *ledger = saved_ledger;
                    *breaker = saved_breaker;
                    return Err(RouterError::Trade(e));
                },
                Err(ExecutorError::NotSupported) => {
                    proof {
                        if i == 0 && n == 1 && hop.pool == PoolType::Omnipool {
                            assert(!(amms.omnipool.spec_execute_sell(
                                &l0,
                                &b0,
                                who,
                                hop.asset_in,
                                hop.asset_out,
                                cur,
                                expect,
                            ) is Ok));
                        }
                    }
                    *ledger = saved_ledger;
                    *breaker = saved_breaker;
                    return Err(RouterError::PoolNotSupported);
                },
            }
            cur = expect;
            i += 1;
        }
        proof {
            assert(s[0] == asset_in);
            assert(s[n as int] == asset_out);
        }
        Ok(final_out)
    }

    /// Buy `amount_out` of `asset_out` with `asset_in` over `route` (or
    /// the stored default when `route` is empty), as one atomic
    /// operation: either every hop executes and the amount spent — at
    /// most `max_limit` — is returned, or no balance and no breaker
    /// counter changes at all.
    #[verifier::loop_isolation(false)]
    #[verifier::rlimit(80)]
    pub fn buy(
        &self,
        amms: &Amms,
        ledger: &mut Ledger,
        breaker: &mut CircuitBreaker,
        who: AccountId,
        asset_in: AssetId,
        asset_out: AssetId,
        amount_out: Balance,
        max_limit: Balance,
        route: &Vec<Trade>,
    ) -> (r: Result<Balance, RouterError>)
        requires
            amms.wf(),
            old(breaker).wf(),
        ensures
            final(breaker).wf(),
            self.spec_used_route(route@, asset_in, asset_out) is None ==> r == Err::<
                Balance,
                RouterError,
            >(RouterError::RouteNotFound) && final(ledger).agrees(old(ledger))
                && final(breaker).agrees(old(breaker)),
            match self.spec_used_route(route@, asset_in, asset_out) {
                None => true,
                Some(u) => {
                    if !valid_route(u, asset_in, asset_out) {
                        &&& r == Err::<Balance, RouterError>(RouterError::InvalidRoute)
                        &&& final(ledger).agrees(old(ledger))
                        &&& final(breaker).agrees(old(breaker))
                    } else {
                        match spec_buy_amounts(amms, old(ledger), u, amount_out) {
                            Err(e) => {
                                &&& r == Err::<Balance, RouterError>(e)
                                &&& final(ledger).agrees(old(ledger))
                                &&& final(breaker).agrees(old(breaker))
                            },
                            Ok(am) => {
                                let spent = am[0];
                                &&& (spent > max_limit ==> r == Err::<Balance, RouterError>(
                                    RouterError::TradeLimitReached,
                                ) && final(ledger).agrees(old(ledger)) && final(breaker).agrees(
                                    old(breaker),
                                ))
                                // for a single omnipool hop, executing is
                                // owed exactly when the execution outcome
                                // over the entry state succeeds
                                &&& (spent <= max_limit && u.len() == 1 && u[0].pool
                                    == PoolType::Omnipool ==> (r is Ok
                                    <==> amms.omnipool.spec_execute_buy(
                                    old(ledger),
                                    old(breaker),
                                    who,
                                    asset_in,
                                    asset_out,
                                    amount_out,
                                    am[0],
                                ) is Ok))
                                &&& (spent <= max_limit ==> match r {
                                    Ok(v) => {
                                        let pool = amms.omnipool.spec_pool_account();
                                        &&& v == spent
                                        &&& forall|w: AccountId, a: AssetId|
                                            #[trigger] final(ledger).reserved_of(w, a) == old(
                                                ledger,
                                            ).reserved_of(w, a)
                                        &&& (distinct_route_assets(u) && all_omnipool_route(u) ==> {
                                            &&& who != pool
                                            &&& final(ledger).free_of(who, asset_in) == old(
                                                ledger,
                                            ).free_of(who, asset_in) - spent
                                            &&& final(ledger).free_of(who, asset_out) == old(
                                                ledger,
                                            ).free_of(who, asset_out) + amount_out
                                            &&& final(ledger).free_of(pool, asset_in) == old(
                                                ledger,
                                            ).free_of(pool, asset_in) + spent
                                            &&& final(ledger).free_of(pool, asset_out) == old(
                                                ledger,
                                            ).free_of(pool, asset_out) - amount_out
                                            &&& final(ledger).reserved_of(who, asset_in) == old(
                                                ledger,
                                            ).reserved_of(who, asset_in)
                                            &&& final(ledger).reserved_of(who, asset_out) == old(
                                                ledger,
                                            ).reserved_of(who, asset_out)
                                            &&& forall|w: AccountId, a: AssetId|
                                                !((w == who || w
                                                    == amms.omnipool.spec_pool_account()) && (a
                                                    == asset_in || a == asset_out))
                                                    ==> #[trigger] final(ledger).entry_of(w, a)
                                                    == old(ledger).entry_of(w, a)
                                        })
                                    },
                                    Err(_) => final(ledger).agrees(old(ledger))
                                        && final(breaker).agrees(old(breaker)),
                                })
                            },
                        }
                    }
                },
            },
    {
        let used: Vec<Trade> = if route.len() > 0 {
            route.clone()
        } else {
            match self.get_route(asset_in, asset_out) {
                Some(v) => v,
                None => {
                    return Err(RouterError::RouteNotFound);
                },
            }
        };
        if !validate_route(&used, asset_in, asset_out) {
            return Err(RouterError::InvalidRoute);
        }
        let amounts = match calculate_buy_route(amms, ledger, &used, amount_out) {
            Ok(v) => v,
            Err(e) => {
                return Err(e);
            },
        };
        let n = used.len();
        let spent = amounts[0];
        if spent > max_limit {
            return Err(RouterError::TradeLimitReached);
        }
        let ghost l0 = *ledger;
        let ghost b0 = *breaker;
        let ghost s = route_assets(used@);
        let saved_ledger = ledger.snapshot();
        let saved_breaker = breaker.snapshot();
        let mut i: usize = 0;
        while i < n
            invariant
                i <= n,
                breaker.wf(),
                i == 0 ==> *ledger == l0 && *breaker == b0,
                i == 1 && n == 1 && used@[0].pool == PoolType::Omnipool
                    ==> amms.omnipool.spec_execute_buy(
                    &l0,
                    &b0,
                    who,
                    asset_in,
                    asset_out,
                    amount_out,
                    amounts@[0],
                ) is Ok,
                forall|w: AccountId, a: AssetId| #[trigger]
                    ledger.reserved_of(w, a) == l0.reserved_of(w, a),
                distinct_route_assets(used@) && all_omnipool_route(used@) ==> if i == 0 {
                    ledger.agrees(&l0)
                } else {
                    let pool = amms.omnipool.spec_pool_account();
                    let got = if i == n {
                        amount_out
                    } else {
                        amounts@[i as int]
                    };
                    &&& who != pool
                    &&& ledger.free_of(who, s[0]) == l0.free_of(who, s[0]) - amounts@[0]
                    &&& ledger.free_of(who, s[i as int]) == l0.free_of(who, s[i as int]) + got
                    &&& ledger.free_of(pool, s[0]) == l0.free_of(pool, s[0]) + amounts@[0]
                    &&& ledger.free_of(pool, s[i as int]) == l0.free_of(pool, s[i as int]) - got
                    &&& ledger.reserved_of(who, s[0]) == l0.reserved_of(who, s[0])
                    &&& ledger.reserved_of(who, s[i as int]) == l0.reserved_of(who, s[i as int])
                    &&& ledger.reserved_of(pool, s[0]) == l0.reserved_of(pool, s[0])
                    &&& ledger.reserved_of(pool, s[i as int]) == l0.reserved_of(pool, s[i as int])
                    &&& forall|w: AccountId, a: AssetId|
                        !((w == who || w == amms.omnipool.spec_pool_account()) && (a == s[0] || a
                            == s[i as int])) ==> #[trigger] ledger.entry_of(w, a) == l0.entry_of(
                            w,
                            a,
                        )
                },
            decreases n - i,
        {
            let hop = used[i];
            let maxl = amounts[i];
            let outp = if i == n - 1 {
                amount_out
            } else {
                amounts[i + 1]
            };
            proof {
                lemma_buy_chain_hop(amms, &l0, used@, amount_out, amounts@, i as int);
            }
            let ghost pre = *ledger;
            let res = match hop.pool {
                PoolType::Omnipool => amms.omnipool.execute_buy(
                    who,
                    PoolType::Omnipool,
                    hop.asset_in,
                    hop.asset_out,
                    outp,
                    maxl,
                    ledger,
                    breaker,
                ),
                PoolType::Xyk => amms.xyk.execute_buy(
                    who,
                    PoolType::Xyk,
                    hop.asset_in,
                    hop.asset_out,
                    outp,
                    maxl,
                    ledger,
                    breaker,
                ),
                PoolType::Stableswap(pool_id) => amms.stableswap.execute_buy(
                    who,
                    PoolType::Stableswap(pool_id),
                    hop.asset_in,
                    hop.asset_out,
                    outp,
                    maxl,
                    ledger,
                    breaker,
                ),
                PoolType::Lbp => {
                    proof {
                        assert(false);
                    }
                    Err(ExecutorError::NotSupported)
                },
            };
            match res {
                Ok(()) => {
                    proof {
                        let pool = amms.omnipool.spec_pool_account();
                        assert(hop.asset_in == s[i as int]);
                        assert(hop.asset_out == s[i + 1]);
                        if i == 0 && n == 1 && hop.pool == PoolType::Omnipool {
                            assert(amms.omnipool.spec_execute_buy(
                                &l0,
                                &b0,
                                who,
                                hop.asset_in,
                                hop.asset_out,
                                outp,
                                maxl,
                            ) is Ok);
                        }
                        assert forall|w: AccountId, a: AssetId| #[trigger]
                            ledger.reserved_of(w, a) == l0.reserved_of(w, a) by {
                            match hop.pool {
                                PoolType::Omnipool => {
                                    if (w == who || w == pool) && (a == hop.asset_in || a
                                        == hop.asset_out) {
                                        assert(ledger.reserved_of(w, a) == pre.reserved_of(w, a));
                                    } else {
                                        assert(ledger.entry_of(w, a) == pre.entry_of(w, a));
                                    }
                                },
                                _ => {
                                    assert(ledger.reserved_of(w, a) == pre.reserved_of(w, a));
                                },
                            }
                            assert(pre.reserved_of(w, a) == l0.reserved_of(w, a));
                        }
                        if distinct_route_assets(used@) && all_omnipool_route(used@) {
                            assert(route_assets(used@)[0] != route_assets(used@)[i + 1]);
                            if i > 0 {
                                assert(route_assets(used@)[0] != route_assets(used@)[i as int]);
                                assert(route_assets(used@)[i as int] != route_assets(
                                    used@,
                                )[i + 1]);
                            }
                            assert forall|w: AccountId, a: AssetId|
                                !((w == who || w == pool) && (a == s[0] || a == s[i + 1]))
                                    implies #[trigger] ledger.entry_of(w, a) == l0.entry_of(
                                w,
                                a,
                            ) by {
                                if (w == who || w == pool) && i > 0 && a == s[i as int] {
                                    assert(ledger.free_of(w, a) == l0.free_of(w, a));
                                    assert(ledger.reserved_of(w, a) == l0.reserved_of(w, a));
                                    assert(ledger.entry_of(w, a) =~= l0.entry_of(w, a));
                                } else {
                                    assert(ledger.entry_of(w, a) == pre.entry_of(w, a));
                                    assert(pre.entry_of(w, a) == l0.entry_of(w, a));
                                }
                            }
                        }
                    }
                },
                Err(ExecutorError::Error(e)) => {
                    proof {
                        if i == 0 && n == 1 && hop.pool == PoolType::Omnipool {
                            assert(!(amms.omnipool.spec_execute_buy(
                                &l0,
                                &b0,
                                who,
                                hop.asset_in,
                                hop.asset_out,
                                outp,
                                maxl,
                            ) is Ok));
                        }
                    }
                    *ledger = saved_ledger;
                    *breaker = saved_breaker;
                    return Err(RouterError::Trade(e));
                },
                Err(ExecutorError::NotSupported) => {
                    proof {
                        if i == 0 && n == 1 && hop.pool == PoolType::Omnipool {
                            assert(!(amms.omnipool.spec_execute_buy(
                                &l0,
                                &b0,
                                who,
                                hop.asset_in,
                                hop.asset_out,
                                outp,
                                maxl,
                            ) is Ok));
                        }
                    }
                    *ledger = saved_ledger;
                    *breaker = saved_breaker;
                    return Err(RouterError::PoolNotSupported);
                },
            }
            i += 1;
        }
        proof {
            assert(s[0] == asset_in);
            assert(s[n as int] == asset_out);
        }
        Ok(spent)
    }
}

/// Walking a route backwards twice gives the route back.
proof fn lemma_inverse_involution(route: Seq<Trade>)
    ensures
        spec_inverse_route(spec_inverse_route(route)) == route,
{
    assert(spec_inverse_route(spec_inverse_route(route)) =~= route);
}

/// The route with hop order and hop directions reversed.
pub fn inverse_route(route: &Vec<Trade>) -> (r: Vec<Trade>)
    ensures
        r@ == spec_inverse_route(route@),
{
    let mut r: Vec<Trade> = Vec::new();
    let n = route.len();
    let mut i: usize = 0;
    while i < n
        invariant
            n == route.len(),
            i <= n,
            r@.len() == i,
            forall|k: int| 0 <= k < i ==> r@[k] == spec_inverse_route(route@)[k],
        decreases n - i,
    {
        let t = route[n - 1 - i];
        r.push(Trade { pool: t.pool, asset_in: t.asset_out, asset_out: t.asset_in });
        i += 1;
    }
    proof {
        assert(r@ =~= spec_inverse_route(route@));
    }
    r
}

fn calc_sell_hop(
    amms: &Amms,
    ledger: &Ledger,
    hop: Trade,
    amount_in: Balance,
) -> (r: Result<Balance, RouterError>)
    requires
        amms.wf(),
    ensures
        r == spec_calc_sell_hop(amms, ledger, hop, amount_in),
{
    match hop.pool {
        PoolType::Omnipool => {
            match amms.omnipool.calculate_sell(
                PoolType::Omnipool,
                hop.asset_in,
                hop.asset_out,
                amount_in,
            ) {
                Ok(v) => Ok(v),
                Err(ExecutorError::Error(e)) => Err(RouterError::Trade(e)),
                Err(ExecutorError::NotSupported) => Err(RouterError::PoolNotSupported),
            }
        },
        PoolType::Xyk => {
            match amms.xyk.calculate_sell(
                PoolType::Xyk,
                hop.asset_in,
                hop.asset_out,
                amount_in,
                ledger,
            ) {
                Ok(v) => Ok(v),
                Err(ExecutorError::Error(e)) => Err(RouterError::Trade(e)),
                Err(ExecutorError::NotSupported) => Err(RouterError::PoolNotSupported),
            }
        },
        PoolType::Stableswap(pool_id) => {
            if hop.asset_in == pool_id || hop.asset_out == pool_id {
                return Err(RouterError::Trade(AmmError::NotAllowed));
            }
            match amms.stableswap.calculate_sell(
                PoolType::Stableswap(pool_id),
                hop.asset_in,
                hop.asset_out,
                amount_in,
                ledger,
            ) {
                Ok(v) => Ok(v),
                Err(ExecutorError::Error(e)) => Err(RouterError::Trade(e)),
                Err(ExecutorError::NotSupported) => Err(RouterError::PoolNotSupported),
            }
        },
        PoolType::Lbp => Err(RouterError::PoolNotSupported),
    }
}

fn calc_buy_hop(
    amms: &Amms,
    ledger: &Ledger,
    hop: Trade,
    amount_out: Balance,
) -> (r: Result<Balance, RouterError>)
    requires
        amms.wf(),
    ensures
        r == spec_calc_buy_hop(amms, ledger, hop, amount_out),
{
    match hop.pool {
        PoolType::Omnipool => {
            match amms.omnipool.calculate_buy(
                PoolType::Omnipool,
                hop.asset_in,
                hop.asset_out,
                amount_out,
            ) {
                Ok(v) => Ok(v),
                Err(ExecutorError::Error(e)) => Err(RouterError::Trade(e)),
                Err(ExecutorError::NotSupported) => Err(RouterError::PoolNotSupported),
            }
        },
        PoolType::Xyk => {
            match amms.xyk.calculate_buy(
                PoolType::Xyk,
                hop.asset_in,
                hop.asset_out,
                amount_out,
                ledger,
            ) {
                Ok(v) => Ok(v),
                Err(ExecutorError::Error(e)) => Err(RouterError::Trade(e)),
                Err(ExecutorError::NotSupported) => Err(RouterError::PoolNotSupported),
            }
        },
        PoolType::Stableswap(pool_id) => {
            match amms.stableswap.calculate_buy(
                PoolType::Stableswap(pool_id),
                hop.asset_in,
                hop.asset_out,
                amount_out,
                ledger,
            ) {
                Ok(v) => Ok(v),
                Err(ExecutorError::Error(e)) => Err(RouterError::Trade(e)),
                Err(ExecutorError::NotSupported) => Err(RouterError::PoolNotSupported),
            }
        },
        PoolType::Lbp => Err(RouterError::PoolNotSupported),
    }
}

/// A failing prefix fails the whole sell chain with the same error.
proof fn lemma_sell_err_propagates(
    amms: &Amms,
    ledger: &Ledger,
    route: Seq<Trade>,
    amount_in: Balance,
    e: RouterError,
    i: int,
)
    requires
        0 <= i <= route.len(),
        spec_sell_amounts(amms, ledger, route.take(i), amount_in) == Err::<Seq<Balance>, RouterError>(e),
    ensures
        spec_sell_amounts(amms, ledger, route, amount_in) == Err::<Seq<Balance>, RouterError>(e),
    decreases route.len() - i,
{
    if i < route.len() {
        assert(route.take(i + 1).drop_last() =~= route.take(i));
        lemma_sell_err_propagates(amms, ledger, route, amount_in, e, i + 1);
    } else {
        assert(route.take(i) =~= route);
    }
}

/// A failing suffix fails the whole buy chain with the same error.
proof fn lemma_buy_err_propagates(
    amms: &Amms,
    ledger: &Ledger,
    route: Seq<Trade>,
    amount_out: Balance,
    e: RouterError,
    i: int,
)
    requires
        0 <= i <= route.len(),
        spec_buy_amounts(amms, ledger, route.skip(i), amount_out) == Err::<Seq<Balance>, RouterError>(e),
    ensures
        spec_buy_amounts(amms, ledger, route, amount_out) == Err::<Seq<Balance>, RouterError>(e),
    decreases i,
{
    if i > 0 {
        assert(route.skip(i - 1).skip(1) =~= route.skip(i));
        lemma_buy_err_propagates(amms, ledger, route, amount_out, e, i - 1);
    } else {
        assert(route.skip(0) =~= route);
    }
}

/// A successful sell chain yields one amount per hop.
pub proof fn lemma_sell_chain_len(
    amms: &Amms,
    ledger: &Ledger,
    route: Seq<Trade>,
    amount_in: Balance,
    amounts: Seq<Balance>,
)
    requires
        spec_sell_amounts(amms, ledger, route, amount_in) == Ok::<Seq<Balance>, RouterError>(amounts),
    ensures
        amounts.len() == route.len(),
    decreases route.len(),
{
    if route.len() > 0 {
        match spec_sell_amounts(amms, ledger, route.drop_last(), amount_in) {
            Ok(pre) => {
                lemma_sell_chain_len(amms, ledger, route.drop_last(), amount_in, pre);
            },
            Err(_) => {},
        }
    }
}

/// A successful sell chain pins down what every single hop yields.
pub proof fn lemma_sell_chain_hop(
    amms: &Amms,
    ledger: &Ledger,
    route: Seq<Trade>,
    amount_in: Balance,
    amounts: Seq<Balance>,
    i: int,
)
    requires
        spec_sell_amounts(amms, ledger, route, amount_in) == Ok::<Seq<Balance>, RouterError>(amounts),
        0 <= i < route.len(),
    ensures
        amounts.len() == route.len(),
        spec_calc_sell_hop(
            amms,
            ledger,
            route[i],
            if i == 0 {
                amount_in
            } else {
                amounts[i - 1]
            },
        ) == Ok::<Balance, RouterError>(amounts[i]),
    decreases route.len(),
{
    lemma_sell_chain_len(amms, ledger, route, amount_in, amounts);
    match spec_sell_amounts(amms, ledger, route.drop_last(), amount_in) {
        Ok(pre) => {
            lemma_sell_chain_len(amms, ledger, route.drop_last(), amount_in, pre);
            let cur = if route.len() == 1 {
                amount_in
            } else {
                pre[pre.len() - 1]
            };
            match spec_calc_sell_hop(amms, ledger, route.last(), cur) {
                Ok(out) => {
                    assert(amounts == pre.push(out));
                    assert(pre =~= amounts.drop_last());
                    if i < route.len() - 1 {
                        lemma_sell_chain_hop(amms, ledger, route.drop_last(), amount_in, pre, i);
                        assert(route.drop_last()[i] == route[i]);
                    }
                },
                Err(_) => {
                    assert(false);
                },
            }
        },
        Err(_) => {
            assert(false);
        },
    }
}

/// A successful buy chain costs one amount per hop.
pub proof fn lemma_buy_chain_len(
    amms: &Amms,
    ledger: &Ledger,
    route: Seq<Trade>,
    amount_out: Balance,
    amounts: Seq<Balance>,
)
    requires
        spec_buy_amounts(amms, ledger, route, amount_out) == Ok::<Seq<Balance>, RouterError>(amounts),
    ensures
        amounts.len() == route.len(),
    decreases route.len(),
{
    if route.len() > 0 {
        match spec_buy_amounts(amms, ledger, route.skip(1), amount_out) {
            Ok(rest) => {
                lemma_buy_chain_len(amms, ledger, route.skip(1), amount_out, rest);
            },
            Err(_) => {},
        }
    }
}

/// A successful buy chain pins down what every single hop costs.
pub proof fn lemma_buy_chain_hop(
    amms: &Amms,
    ledger: &Ledger,
    route: Seq<Trade>,
    amount_out: Balance,
    amounts: Seq<Balance>,
    i: int,
)
    requires
        spec_buy_amounts(amms, ledger, route, amount_out) == Ok::<Seq<Balance>, RouterError>(amounts),
        0 <= i < route.len(),
    ensures
        amounts.len() == route.len(),
        spec_calc_buy_hop(
            amms,
            ledger,
            route[i],
            if i == route.len() - 1 {
                amount_out
            } else {
                amounts[i + 1]
            },
        ) == Ok::<Balance, RouterError>(amounts[i]),
    decreases route.len(),
{
    lemma_buy_chain_len(amms, ledger, route, amount_out, amounts);
    match spec_buy_amounts(amms, ledger, route.skip(1), amount_out) {
        Ok(rest) => {
            lemma_buy_chain_len(amms, ledger, route.skip(1), amount_out, rest);
            let need = if route.len() == 1 {
                amount_out
            } else {
                rest[0]
            };
            match spec_calc_buy_hop(amms, ledger, route[0], need) {
                Ok(amount_in) => {
                    assert(amounts == seq![amount_in] + rest);
                    assert(rest =~= amounts.skip(1));
                    if i > 0 {
                        lemma_buy_chain_hop(amms, ledger, route.skip(1), amount_out, rest, i - 1);
                        assert(route.skip(1)[i - 1] == route[i]);
                    }
                },
                Err(_) => {
                    assert(false);
                },
            }
        },
        Err(_) => {
            assert(false);
        },
    }
}

/// The amount each hop of a sell yields, computed in hop order. Pure:
/// two calls on the same state and inputs return the same chain.
pub fn calculate_sell_route(
    amms: &Amms,
    ledger: &Ledger,
    route: &Vec<Trade>,
    amount_in: Balance,
) -> (r: Result<
    Vec<Balance>,
    RouterError,
>)
    requires
        amms.wf(),
    ensures
        match r {
            Ok(v) => spec_sell_amounts(amms, ledger, route@, amount_in) == Ok::<Seq<Balance>, RouterError>(
                v@,
            ) && v@.len() == route@.len(),
            Err(e) => spec_sell_amounts(amms, ledger, route@, amount_in) == Err::<
                Seq<Balance>,
                RouterError,
            >(e),
        },
{
    let mut amounts: Vec<Balance> = Vec::new();
    let mut cur = amount_in;
    let n = route.len();
    let mut i: usize = 0;
    while i < n
        invariant
            amms.wf(),
            n == route.len(),
            i <= n,
            amounts@.len() == i,
            spec_sell_amounts(amms, ledger, route@.take(i as int), amount_in) == Ok::<
                Seq<Balance>,
                RouterError,
            >(amounts@),
            cur == if i == 0 {
                amount_in
            } else {
                amounts@[i - 1]
            },
        decreases n - i,
    {
        proof {
            assert(route@.take(i + 1).drop_last() =~= route@.take(i as int));
        }
        match calc_sell_hop(amms, ledger, route[i], cur) {
            Ok(out) => {
                amounts.push(out);
                cur = out;
            },
            Err(e) => {
                proof {
                    lemma_sell_err_propagates(amms, ledger, route@, amount_in, e, i + 1);
                }
                return Err(e);
            },
        }
        i += 1;
    }
    proof {
        assert(route@.take(n as int) =~= route@);
    }
    Ok(amounts)
}

/// The amount each hop of a buy must be fed, computed from the final
/// output backwards. Pure: two calls on the same state and inputs
/// return the same chain.
pub fn calculate_buy_route(
    amms: &Amms,
    ledger: &Ledger,
    route: &Vec<Trade>,
    amount_out: Balance,
) -> (r: Result<
    Vec<Balance>,
    RouterError,
>)
    requires
        amms.wf(),
    ensures
        match r {
            Ok(v) => spec_buy_amounts(amms, ledger, route@, amount_out) == Ok::<Seq<Balance>, RouterError>(
                v@,
            ) && v@.len() == route@.len(),
            Err(e) => spec_buy_amounts(amms, ledger, route@, amount_out) == Err::<
                Seq<Balance>,
                RouterError,
            >(e),
        },
{
    let mut amounts: Vec<Balance> = Vec::new();
    let n = route.len();
    let mut i: usize = n;
    while i > 0
        invariant
            amms.wf(),
            n == route.len(),
            i <= n,
            amounts@.len() == n - i,
            spec_buy_amounts(amms, ledger, route@.skip(i as int), amount_out) == Ok::<
                Seq<Balance>,
                RouterError,
            >(amounts@),
        decreases i,
    {
        proof {
            assert(route@.skip(i - 1).skip(1) =~= route@.skip(i as int));
        }
        let need = if amounts.len() == 0 {
            amount_out
        } else {
            amounts[0]
        };
        match calc_buy_hop(amms, ledger, route[i - 1], need) {
            Ok(v) => {
                let ghost prev = amounts@;
                amounts.insert(0, v);
                proof {
                    assert(amounts@ =~= seq![v] + prev);
                    assert(route@.skip(i - 1)[0] == route@[i - 1]);
                }
            },
            Err(e) => {
                proof {
                    lemma_buy_err_propagates(amms, ledger, route@, amount_out, e, i - 1);
                }
                return Err(e);
            },
        }
        i -= 1;
    }
    proof {
        assert(route@.skip(0) =~= route@);
    }
    Ok(amounts)
}

/// Whether `route` is a valid route from `asset_in` to `asset_out`.
pub fn validate_route(route: &Vec<Trade>, asset_in: AssetId, asset_out: AssetId) -> (b: bool)
    ensures
        b == valid_route(route@, asset_in, asset_out),
{
    let n = route.len();
    if n == 0 || n > MAX_NUMBER_OF_TRADES {
        return false;
    }
    if route[0].asset_in != asset_in {
        return false;
    }
    if route[n - 1].asset_out != asset_out {
        return false;
    }
    let mut i: usize = 1;
    while i < n
        invariant
            n == route.len(),
            1 <= i <= n,
            forall|k: int| 0 < k < i ==> route@[k].asset_in == #[trigger] route@[k - 1].asset_out,
        decreases n - i,
    {
        if route[i].asset_in != route[i - 1].asset_out {
            return false;
        }
        i += 1;
    }
    true
}

} // verus!
