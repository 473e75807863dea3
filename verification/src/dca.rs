//! The dollar-cost-averaging scheduler: recurring orders with a reserved
//! budget, executed on due blocks through the route executor, with
//! slippage-derived limits, an up-front execution fee, retry with
//! exponential backoff, suspension after repeated failures, and bounded
//! per-block capacity with a probing search for a free block.

use std::collections::BTreeMap;
use vstd::prelude::*;

use crate::breaker::CircuitBreaker;
use crate::ledger::Ledger;
use crate::math::{checked_mul_div, permill_mul_floor, PERMILL_ONE};
use crate::omnipool::AssetPrice;
use crate::router::{
    all_omnipool_route, distinct_route_assets, spec_buy_amounts, spec_calc_buy_hop,
    spec_calc_sell_hop, spec_sell_amounts, valid_route, validate_route, Amms, Router,
};
use crate::types::RouterError;
use crate::types::{
    AccountId, AssetId, Balance, BlockNumber, DcaError, DcaEvent, Order, PoolType, Schedule,
    ScheduleId, Trade,
};

verus! {

broadcast use vstd::laws_cmp::group_laws_cmp;

/// How many blocks the free-slot search may probe: offsets
/// `2^k - 1` for `k` up to this bound.
pub const RETRY_TO_SEARCH_FOR_FREE_BLOCK: u32 = 10;

/// `2^k` over naturals.
pub open spec fn two_pow(k: nat) -> nat
    decreases k,
{
    if k == 0 {
        1
    } else {
        2 * two_pow((k - 1) as nat)
    }
}

pub proof fn lemma_two_pow_pos(k: nat)
    ensures
        two_pow(k) >= 1,
    decreases k,
{
    if k > 0 {
        lemma_two_pow_pos((k - 1) as nat);
    }
}

proof fn lemma_two_pow_bound(k: nat)
    requires
        k <= 11,
    ensures
        two_pow(k) <= 2048,
    decreases 11 - k,
{
    if k < 11 {
        lemma_two_pow_bound(k + 1);
        assert(two_pow(k + 1) == 2 * two_pow(k));
    } else {
        lemma_two_pow_value(11);
        vstd::arithmetic::power2::lemma2_to64();
    }
}


proof fn lemma_two_pow_bound33(k: nat)
    requires
        k <= 33,
    ensures
        two_pow(k) <= 0x2_0000_0000,
    decreases 33 - k,
{
    if k < 33 {
        lemma_two_pow_bound33(k + 1);
        assert(two_pow(k + 1) == 2 * two_pow(k));
    } else {
        lemma_two_pow_value(33);
        vstd::arithmetic::power2::lemma2_to64_rest();
    }
}

/// `two_pow` agrees with the standard power of two, so concrete
/// exponents need no manual unrolling.
proof fn lemma_two_pow_value(k: nat)
    ensures
        two_pow(k) == vstd::arithmetic::power2::pow2(k),
    decreases k,
{
    if k == 0 {
        vstd::arithmetic::power2::lemma2_to64();
    } else {
        lemma_two_pow_value((k - 1) as nat);
        vstd::arithmetic::power2::lemma_pow2_unfold(k);
    }
}

/// Whether a sell through a single omnipool hop would go through on the
/// given state: the calculation succeeds and clears the floor, and every
/// execution check — breaker caps, liquidity, overflow headroom — holds.
/// The seller's own input balance is not among the conditions: the
/// scheduler funds the trade out of the reservation it releases.
pub open spec fn spec_sell_attempt_clears(
    amms: &Amms,
    ledger: &Ledger,
    breaker: &CircuitBreaker,
    who: AccountId,
    asset_in: AssetId,
    asset_out: AssetId,
    trade_amount: Balance,
    min_eff: Balance,
) -> bool {
    match amms.omnipool.spec_calculate_sell(asset_in, asset_out, trade_amount) {
        Err(_) => false,
        Ok(out) => {
            let pool = amms.omnipool.spec_pool_account();
            let reserve_in = ledger.free_of(pool, asset_in);
            let reserve_out = ledger.free_of(pool, asset_out);
            &&& out >= min_eff
            &&& who != pool
            &&& breaker.trade_consumed(asset_in) + trade_amount <= breaker.effective_trade_limit(
                asset_in,
                reserve_in,
            )
            &&& breaker.trade_consumed(asset_out) + out <= breaker.effective_trade_limit(
                asset_out,
                reserve_out,
            )
            &&& reserve_out >= out
            &&& reserve_in + trade_amount <= Balance::MAX
            &&& ledger.free_of(who, asset_out) + out <= Balance::MAX
        },
    }
}

/// The execution outcome of a sell looks only at the pool's reserves,
/// the breaker, and the trader's output-asset headroom; when the
/// attempt state agrees with the entry state on those, and the trade is
/// funded, the outcome over the attempt state is the entry-state
/// `spec_sell_attempt_clears` verdict.
proof fn lemma_sell_attempt_mapping(
    amms: &Amms,
    l0: &Ledger,
    lm: &Ledger,
    bm: &CircuitBreaker,
    who: AccountId,
    asset_in: AssetId,
    asset_out: AssetId,
    trade_amount: Balance,
    min_eff: Balance,
)
    requires
        asset_in != asset_out ==> {
            let pool = amms.omnipool.spec_pool_account();
            &&& (who != pool ==> lm.free_of(pool, asset_in) == l0.free_of(pool, asset_in))
            &&& lm.free_of(pool, asset_out) == l0.free_of(pool, asset_out)
            &&& lm.free_of(who, asset_out) == l0.free_of(who, asset_out)
            &&& lm.free_of(who, asset_in) >= trade_amount
        },
    ensures
        (match amms.omnipool.spec_calculate_sell(asset_in, asset_out, trade_amount) {
            Err(_) => !spec_sell_attempt_clears(
                amms,
                l0,
                bm,
                who,
                asset_in,
                asset_out,
                trade_amount,
                min_eff,
            ),
            Ok(out) => out >= min_eff ==> ((amms.omnipool.spec_execute_sell(
                lm,
                bm,
                who,
                asset_in,
                asset_out,
                trade_amount,
                out,
            ) is Ok) <==> spec_sell_attempt_clears(
                amms,
                l0,
                bm,
                who,
                asset_in,
                asset_out,
                trade_amount,
                min_eff,
            )),
        }),
{
}

/// Whether a buy attempt over the given entry state would go through:
/// the input quote exists and fits the cap, and nothing in the entry
/// state (pool depth, breaker counters, balance headroom) blocks the
/// execution.
pub open spec fn spec_buy_attempt_clears(
    amms: &Amms,
    ledger: &Ledger,
    breaker: &CircuitBreaker,
    who: AccountId,
    asset_in: AssetId,
    asset_out: AssetId,
    amount_out: Balance,
    max_eff: Balance,
) -> bool {
    match amms.omnipool.spec_calculate_buy(asset_in, asset_out, amount_out) {
        Err(_) => false,
        Ok(spent) => {
            let pool = amms.omnipool.spec_pool_account();
            let reserve_in = ledger.free_of(pool, asset_in);
            let reserve_out = ledger.free_of(pool, asset_out);
            &&& spent <= max_eff
            &&& who != pool
            &&& breaker.trade_consumed(asset_in) + spent <= breaker.effective_trade_limit(
                asset_in,
                reserve_in,
            )
            &&& breaker.trade_consumed(asset_out) + amount_out <= breaker.effective_trade_limit(
                asset_out,
                reserve_out,
            )
            &&& reserve_out >= amount_out
            &&& reserve_in + spent <= Balance::MAX
            &&& ledger.free_of(who, asset_out) + amount_out <= Balance::MAX
        },
    }
}

/// The buy-side counterpart of `lemma_sell_attempt_mapping`: when the
/// attempt state agrees with the entry state on what a buy execution
/// reads, and the trader holds the cap, the outcome over the attempt
/// state is the entry-state `spec_buy_attempt_clears` verdict.
proof fn lemma_buy_attempt_mapping(
    amms: &Amms,
    l0: &Ledger,
    lm: &Ledger,
    bm: &CircuitBreaker,
    who: AccountId,
    asset_in: AssetId,
    asset_out: AssetId,
    amount_out: Balance,
    max_eff: Balance,
)
    requires
        asset_in != asset_out ==> {
            let pool = amms.omnipool.spec_pool_account();
            &&& (who != pool ==> lm.free_of(pool, asset_in) == l0.free_of(pool, asset_in))
            &&& lm.free_of(pool, asset_out) == l0.free_of(pool, asset_out)
            &&& lm.free_of(who, asset_out) == l0.free_of(who, asset_out)
            &&& lm.free_of(who, asset_in) >= max_eff
        },
    ensures
        (match amms.omnipool.spec_calculate_buy(asset_in, asset_out, amount_out) {
            Err(_) => !spec_buy_attempt_clears(
                amms,
                l0,
                bm,
                who,
                asset_in,
                asset_out,
                amount_out,
                max_eff,
            ),
            Ok(spent) => spent <= max_eff ==> ((amms.omnipool.spec_execute_buy(
                lm,
                bm,
                who,
                asset_in,
                asset_out,
                amount_out,
                spent,
            ) is Ok) <==> spec_buy_attempt_clears(
                amms,
                l0,
                bm,
                who,
                asset_in,
                asset_out,
                amount_out,
                max_eff,
            )),
        }),
{
}

/// Move up to `fee` from the owner's reservation to the fee receiver's
/// free balance. Returns what was actually charged: the full fee
/// whenever the reservation covers it and no balance overflows; nothing
/// at all otherwise.
fn take_fee(
    ledger: &mut Ledger,
    asset: AssetId,
    owner: AccountId,
    treasury: AccountId,
    fee: Balance,
) -> (charged: Balance)
    ensures
        charged <= fee,
        final(ledger).reserved_of(owner, asset) == old(ledger).reserved_of(owner, asset)
            - charged,
        owner != treasury ==> final(ledger).free_of(owner, asset) == old(ledger).free_of(
            owner,
            asset,
        ),
        owner != treasury ==> final(ledger).free_of(treasury, asset) == old(ledger).free_of(
            treasury,
            asset,
        ) + charged,
        owner != treasury ==> final(ledger).reserved_of(treasury, asset) == old(
            ledger,
        ).reserved_of(treasury, asset),
        owner == treasury ==> final(ledger).free_of(owner, asset) == old(ledger).free_of(
            owner,
            asset,
        ) + charged,
        final(ledger).unchanged_except_two(old(ledger), owner, treasury, asset),
        old(ledger).reserved_of(owner, asset) >= fee && old(ledger).free_of(owner, asset) + fee
            <= Balance::MAX && old(ledger).free_of(treasury, asset) + fee <= Balance::MAX
            ==> charged == fee,
{
    let moved = match ledger.unreserve(asset, owner, fee) {
        Ok(leftover) => fee - leftover,
        Err(_) => {
            return 0;
        },
    };
    match ledger.transfer(asset, owner, treasury, moved) {
        Ok(()) => moved,
        Err(_) => {
            match ledger.reserve(asset, owner, moved) {
                Ok(()) => (),
                Err(_) => {
                    proof {
                        assert(false);
                    }
                },
            }
            0
        },
    }
}

/// Capacity bounds carry over to a state with the same configuration
/// and the same per-block buckets.
proof fn lemma_wf_preserved(a: &Dca, b: &Dca)
    requires
        a.wf(),
        b.spec_config() == a.spec_config(),
        forall|x: BlockNumber| #[trigger] b.ids_at(x) == a.ids_at(x),
    ensures
        b.wf(),
{
    assert forall|x: BlockNumber| #[trigger]
        b.ids_count_at(x) <= b.spec_config().max_schedules_per_block by {
        assert(a.ids_count_at(x) <= a.spec_config().max_schedules_per_block);
        assert(b.ids_at(x) == a.ids_at(x));
    }
}

/// Static configuration of the scheduler.
#[derive(Clone, Copy, Debug, PartialEq, Eq, Structural)]
pub struct DcaConfig {
    /// Smallest budget a schedule may be created with.
    pub min_budget: Balance,
    /// How many schedules one block may hold.
    pub max_schedules_per_block: usize,
    /// Consecutive failures after which a schedule is suspended.
    pub max_retries: u32,
    /// Execution fee per attempt, in the native asset.
    pub execution_fee_native: Balance,
    /// Largest tolerated relative deviation between the oracle price and
    /// the spot price, in parts per million.
    pub max_price_difference: u32,
    /// Slippage tolerance applied when a schedule names none, in parts
    /// per million.
    pub default_slippage: u32,
    pub native_asset: AssetId,
    /// Account receiving execution fees.
    pub fee_receiver: AccountId,
}

impl DcaConfig {
    pub open spec fn wf(&self) -> bool {
        &&& self.max_price_difference <= PERMILL_ONE
        &&& self.default_slippage <= PERMILL_ONE
    }
}

/// What one due schedule's processing did.
#[derive(Clone, Copy, Debug, PartialEq, Eq, Structural)]
pub enum ScheduleOutcome {
    /// No schedule stored under the identifier, or it was suspended.
    Skipped,
    /// The remaining budget could not fund one more trade: the schedule
    /// was closed and `released` given back to the owner's free balance.
    Completed { consumed: Balance, released: Balance },
    /// The trade ran: `consumed` left the reservation (fee and trade),
    /// and `released` was given back if the schedule then closed.
    Executed { consumed: Balance, released: Balance },
    /// The trade failed: the fee in `consumed` was still charged, and
    /// the schedule was replanned, suspended, or — when no free block
    /// could be found — terminated with `released` given back.
    Failed { consumed: Balance, released: Balance, suspended: bool },
}

impl ScheduleOutcome {
    /// What the outcome took out of the reservation for good.
    pub open spec fn spec_consumed(&self) -> Balance {
        match self {
            ScheduleOutcome::Skipped => 0,
            ScheduleOutcome::Completed { consumed, .. } => *consumed,
            ScheduleOutcome::Executed { consumed, .. } => *consumed,
            ScheduleOutcome::Failed { consumed, .. } => *consumed,
        }
    }

    /// What the outcome gave back to the owner's free balance.
    pub open spec fn spec_released(&self) -> Balance {
        match self {
            ScheduleOutcome::Skipped => 0,
            ScheduleOutcome::Completed { released, .. } => *released,
            ScheduleOutcome::Executed { released, .. } => *released,
            ScheduleOutcome::Failed { released, .. } => *released,
        }
    }
}

/// The scheduler's state: schedules by identifier, due identifiers by
/// block, per-schedule retry counters, the suspended set, oracle prices
/// for the deviation guard, and the observable event history.
pub struct Dca {
    config: DcaConfig,
    schedules: BTreeMap<ScheduleId, Schedule>,
    ids_per_block: BTreeMap<BlockNumber, Vec<ScheduleId>>,
    retries: BTreeMap<ScheduleId, u32>,
    suspended_ids: BTreeMap<ScheduleId, bool>,
    oracle_prices: BTreeMap<(AssetId, AssetId), AssetPrice>,
    next_id: ScheduleId,
    events: Vec<DcaEvent>,
}

impl Dca {
    pub closed spec fn schedule_of(&self, id: ScheduleId) -> Option<Schedule> {
        if self.schedules@.contains_key(id) {
            Some(self.schedules@[id])
        } else {
            None
        }
    }

    pub closed spec fn ids_at(&self, block: BlockNumber) -> Option<Seq<ScheduleId>> {
        if self.ids_per_block@.contains_key(block) {
            Some(self.ids_per_block@[block]@)
        } else {
            None
        }
    }

    pub open spec fn ids_count_at(&self, block: BlockNumber) -> nat {
        match self.ids_at(block) {
            Some(s) => s.len(),
            None => 0,
        }
    }

    pub closed spec fn retry_of(&self, id: ScheduleId) -> u32 {
        if self.retries@.contains_key(id) {
            self.retries@[id]
        } else {
            0
        }
    }

    pub closed spec fn is_suspended(&self, id: ScheduleId) -> bool {
        self.suspended_ids@.contains_key(id)
    }

    pub closed spec fn oracle_price_of(&self, asset_a: AssetId, asset_b: AssetId) -> Option<
        AssetPrice,
    > {
        if self.oracle_prices@.contains_key((asset_a, asset_b)) {
            Some(self.oracle_prices@[(asset_a, asset_b)])
        } else {
            None
        }
    }

    pub closed spec fn spec_next_id(&self) -> ScheduleId {
        self.next_id
    }

    pub closed spec fn spec_config(&self) -> DcaConfig {
        self.config
    }

    /// The scheduler's static configuration.
    pub fn config(&self) -> (r: DcaConfig)
        ensures
            r == self.spec_config(),
    {
        self.config
    }

    /// Everything but the oracle prices agrees with `other`.
    pub open spec fn agrees_except_oracle(&self, other: &Dca) -> bool {
        &&& self.spec_config() == other.spec_config()
        &&& self.spec_next_id() == other.spec_next_id()
        &&& self.spec_events() == other.spec_events()
        &&& forall|id: ScheduleId| #[trigger] self.schedule_of(id) == other.schedule_of(id)
        &&& forall|b: BlockNumber| #[trigger] self.ids_at(b) == other.ids_at(b)
        &&& forall|id: ScheduleId| #[trigger] self.retry_of(id) == other.retry_of(id)
        &&& forall|id: ScheduleId| #[trigger] self.is_suspended(id) == other.is_suspended(id)
    }

    pub closed spec fn spec_events(&self) -> Seq<DcaEvent> {
        self.events@
    }

    /// No block holds more due schedules than the configured capacity.
    pub open spec fn wf(&self) -> bool {
        &&& self.spec_config().wf()
        &&& forall|b: BlockNumber| #[trigger] self.ids_count_at(b)
            <= self.spec_config().max_schedules_per_block
    }

    pub fn new(config: DcaConfig) -> (r: Dca)
        requires
            config.wf(),
        ensures
            r.wf(),
            r.spec_config() == config,
            r.spec_next_id() == 1,
            r.spec_events() == Seq::<DcaEvent>::empty(),
            forall|id: ScheduleId| #[trigger] r.schedule_of(id) is None,
            forall|b: BlockNumber| #[trigger] r.ids_at(b) is None,
            forall|id: ScheduleId| #[trigger] r.retry_of(id) == 0,
            forall|id: ScheduleId| !#[trigger] r.is_suspended(id),
    {
        Dca {
            config,
            schedules: BTreeMap::new(),
            ids_per_block: BTreeMap::new(),
            retries: BTreeMap::new(),
            suspended_ids: BTreeMap::new(),
            oracle_prices: BTreeMap::new(),
            next_id: 1,
            events: Vec::new(),
        }
    }

    /// The stored schedule, if any.
    pub fn schedules(&self, id: ScheduleId) -> (r: Option<&Schedule>)
        ensures
            match r {
                Some(s) => self.schedule_of(id) == Some(*s),
                None => self.schedule_of(id) is None,
            },
    {
        self.schedules.get(&id)
    }

    /// The identifiers due at `block`, if any.
    pub fn schedule_ids_per_block(&self, block: BlockNumber) -> (r: Option<&Vec<ScheduleId>>)
        ensures
            match r {
                Some(v) => self.ids_at(block) == Some(v@),
                None => self.ids_at(block) is None,
            },
    {
        self.ids_per_block.get(&block)
    }

    /// Whether the schedule is suspended.
    pub fn suspended(&self, id: ScheduleId) -> (r: bool)
        ensures
            r == self.is_suspended(id),
    {
        self.suspended_ids.contains_key(&id)
    }

    /// The schedule's consecutive-failure counter.
    pub fn retry_count(&self, id: ScheduleId) -> (r: u32)
        ensures
            r == self.retry_of(id),
    {
        match self.retries.get(&id) {
            Some(n) => *n,
            None => 0,
        }
    }

    /// The recorded event history.
    pub fn events(&self) -> (r: &Vec<DcaEvent>)
        ensures
            r@ == self.spec_events(),
    {
        &self.events
    }

    /// Record the oracle's price of `asset_a` in `asset_b`; the
    /// deviation guard compares it with the pools' spot price.
    pub fn set_oracle_price(
        &mut self,
        asset_a: AssetId,
        asset_b: AssetId,
        num: Balance,
        den: Balance,
    )
        requires
            num > 0,
            den > 0,
        ensures
            final(self).oracle_price_of(asset_a, asset_b) == Some(AssetPrice { num, den }),
            final(self).agrees_except_oracle(old(self)),
            old(self).wf() ==> final(self).wf(),
            forall|a: AssetId, b: AssetId|
                !(a == asset_a && b == asset_b) ==> #[trigger] final(self).oracle_price_of(a, b)
                    == old(self).oracle_price_of(a, b),
    {
        self.oracle_prices.insert((asset_a, asset_b), AssetPrice { num, den });
        proof {
            if old(self).wf() {
                assert forall|b: BlockNumber| #[trigger]
                    self.ids_count_at(b) <= self.spec_config().max_schedules_per_block by {
                    assert(old(self).ids_count_at(b) <= old(
                        self,
                    ).spec_config().max_schedules_per_block);
                    assert(self.ids_at(b) == old(self).ids_at(b));
                }
            }
        }
    }

    /// The first block at or after `start`, at offsets `2^k - 1`, whose
    /// bucket still has room; `None` when the search budget is spent or
    /// the block numbers overflow.
    pub open spec fn spec_find_free_block(&self, start: BlockNumber, k: nat) -> Option<
        BlockNumber,
    >
        decreases RETRY_TO_SEARCH_FOR_FREE_BLOCK + 1 - k,
    {
        if k > RETRY_TO_SEARCH_FOR_FREE_BLOCK {
            None
        } else {
            let b = start + two_pow(k) - 1;
            if b > BlockNumber::MAX {
                None
            } else if self.ids_count_at(b as BlockNumber)
                < self.spec_config().max_schedules_per_block {
                Some(b as BlockNumber)
            } else {
                self.spec_find_free_block(start, k + 1)
            }
        }
    }

    fn find_free_block(&self, start: BlockNumber) -> (r: Option<BlockNumber>)
        ensures
            r == self.spec_find_free_block(start, 0),
            r matches Some(b) ==> b >= start && self.ids_count_at(b)
                < self.spec_config().max_schedules_per_block,
    {
        let mut k: u32 = 0;
        let mut off: u64 = 1;
        while k <= RETRY_TO_SEARCH_FOR_FREE_BLOCK
            invariant
                k <= RETRY_TO_SEARCH_FOR_FREE_BLOCK + 1,
                off == two_pow(k as nat),
                off <= 2048,
                self.spec_find_free_block(start, 0) == self.spec_find_free_block(start, k as nat),
            decreases RETRY_TO_SEARCH_FOR_FREE_BLOCK + 1 - k,
        {
            proof {
                lemma_two_pow_pos(k as nat);
            }
            match start.checked_add(off - 1) {
                None => {
                    return None;
                },
                Some(b) => {
                    let cnt = match self.ids_per_block.get(&b) {
                        Some(v) => v.len(),
                        None => 0,
                    };
                    if cnt < self.config.max_schedules_per_block {
                        return Some(b);
                    }
                },
            }
            k += 1;
            proof {
                lemma_two_pow_bound(k as nat);
            }
            off = off * 2;
        }
        None
    }

    /// Create a recurring schedule: validates the order, reserves the
    /// whole budget from the owner's free balance, and plans the first
    /// execution at `start_block` (or the next block when none is given),
    /// probing later blocks when that one is full.
    pub fn schedule(
        &mut self,
        ledger: &mut Ledger,
        who: AccountId,
        sched: Schedule,
        start_block: Option<BlockNumber>,
        current_block: BlockNumber,
    ) -> (r: Result<ScheduleId, DcaError>)
        requires
            old(self).wf(),
            old(self).spec_next_id() < ScheduleId::MAX,
        ensures
            final(self).wf(),
            final(self).spec_config() == old(self).spec_config(),
            match r {
                Ok(id) => {
                    let asset_in = sched.order.spec_asset_in();
                    let start = match start_block {
                        Some(b) => b,
                        None => (current_block + 1) as BlockNumber,
                    };
                    let slot = old(self).spec_find_free_block(start, 0);
                    &&& sched.owner == who
                    &&& sched.period >= 1
                    &&& sched.order.spec_asset_in() != sched.order.spec_asset_out()
                    &&& sched.total_amount >= old(self).spec_config().min_budget
                    &&& (sched.order.spec_route().len() > 0 ==> valid_route(
                        sched.order.spec_route(),
                        sched.order.spec_asset_in(),
                        sched.order.spec_asset_out(),
                    ))
                    &&& id == old(self).spec_next_id()
                    &&& final(self).spec_next_id() == old(self).spec_next_id() + 1
                    &&& final(self).schedule_of(id) == Some(sched)
                    &&& forall|x: ScheduleId|
                        x != id ==> #[trigger] final(self).schedule_of(x) == old(
                            self,
                        ).schedule_of(x)
                    &&& slot matches Some(b) && final(self).ids_at(b) == Some(
                        match old(self).ids_at(b) {
                            Some(s) => s.push(id),
                            None => seq![id],
                        },
                    )
                    &&& forall|b2: BlockNumber|
                        Some(b2) != slot ==> #[trigger] final(self).ids_at(b2) == old(
                            self,
                        ).ids_at(b2)
                    &&& final(ledger).reserved_of(who, asset_in) == old(ledger).reserved_of(
                        who,
                        asset_in,
                    ) + sched.total_amount
                    &&& final(ledger).free_of(who, asset_in) == old(ledger).free_of(who, asset_in)
                        - sched.total_amount
                    &&& final(ledger).unchanged_except(old(ledger), who, asset_in)
                    &&& final(self).spec_events() == old(self).spec_events() + seq![
                        DcaEvent::Scheduled { id, who },
                        DcaEvent::ExecutionPlanned { id, who, block: slot.unwrap() },
                    ]
                },
                Err(e) => {
                    let asset_in = sched.order.spec_asset_in();
                    &&& final(ledger).agrees(old(ledger))
                    &&& final(self).agrees_except_oracle(old(self))
                    &&& final(self).spec_events() == old(self).spec_events()
                    &&& (e == DcaError::Forbidden ==> sched.owner != who)
                    &&& (e == DcaError::InvalidScheduleOrderData ==> asset_in
                        == sched.order.spec_asset_out() || sched.period == 0 || (
                    sched.order.spec_route().len() > 0 && !valid_route(
                        sched.order.spec_route(),
                        asset_in,
                        sched.order.spec_asset_out(),
                    )))
                    &&& (e == DcaError::InsufficientBudget ==> sched.total_amount < old(
                        self,
                    ).spec_config().min_budget)
                    &&& (e == DcaError::BlockNumberIsNotInFuture ==> (match start_block {
                        Some(b) => b <= current_block,
                        None => current_block == BlockNumber::MAX,
                    }))
                    &&& (e == DcaError::NoFreeBlockFound ==> old(self).spec_find_free_block(
                        match start_block {
                            Some(b) => b,
                            None => (current_block + 1) as BlockNumber,
                        },
                        0,
                    ) is None)
                    &&& (e == DcaError::InsufficientBalance ==> old(ledger).free_of(
                        who,
                        asset_in,
                    ) < sched.total_amount || old(ledger).reserved_of(who, asset_in)
                        + sched.total_amount > Balance::MAX)
                    // acceptance is owed: an error names its cause
                    &&& (sched.owner == who && asset_in != sched.order.spec_asset_out()
                        && sched.period >= 1 && (sched.order.spec_route().len() == 0
                        || valid_route(
                        sched.order.spec_route(),
                        asset_in,
                        sched.order.spec_asset_out(),
                    )) && sched.total_amount >= old(self).spec_config().min_budget && (match
                    start_block {
                        Some(b) => b > current_block,
                        None => current_block < BlockNumber::MAX,
                    }) && old(self).spec_find_free_block(
                        match start_block {
                            Some(b) => b,
                            None => (current_block + 1) as BlockNumber,
                        },
                        0,
                    ) is Some && old(ledger).free_of(who, asset_in) >= sched.total_amount && old(
                        ledger,
                    ).reserved_of(who, asset_in) + sched.total_amount <= Balance::MAX
                        ==> false)
                },
            },
    {
        if sched.owner != who {
            return Err(DcaError::Forbidden);
        }
        let asset_in = sched.order.asset_in();
        let asset_out = sched.order.asset_out();
        if asset_in == asset_out || sched.period == 0 {
            return Err(DcaError::InvalidScheduleOrderData);
        }
        if sched.order.route().len() > 0 && !validate_route(sched.order.route(), asset_in, asset_out)
        {
            return Err(DcaError::InvalidScheduleOrderData);
        }
        if sched.total_amount < self.config.min_budget {
            return Err(DcaError::InsufficientBudget);
        }
        let start = match start_block {
            Some(b) => {
                if b <= current_block {
                    return Err(DcaError::BlockNumberIsNotInFuture);
                }
                b
            },
            None => {
                match current_block.checked_add(1) {
                    Some(b) => b,
                    None => {
                        return Err(DcaError::BlockNumberIsNotInFuture);
                    },
                }
            },
        };
        let slot = match self.find_free_block(start) {
            Some(b) => b,
            None => {
                return Err(DcaError::NoFreeBlockFound);
            },
        };
        match ledger.reserve(asset_in, who, sched.total_amount) {
            Ok(()) => (),
            Err(_) => {
                return Err(DcaError::InsufficientBalance);
            },
        }
        let id = self.next_id;
        self.next_id = id + 1;
        self.schedules.insert(id, sched);
        proof {
            lemma_wf_preserved(old(self), self);
        }
        self.add_to_block(id, slot);
        let ghost mid = *self;
        self.events.push(DcaEvent::Scheduled { id, who });
        self.events.push(DcaEvent::ExecutionPlanned { id, who, block: slot });
        proof {
            lemma_wf_preserved(&mid, self);
            assert(self.events@ =~= old(self).events@ + seq![
                DcaEvent::Scheduled { id, who },
                DcaEvent::ExecutionPlanned { id, who, block: slot },
            ]);
            assert forall|b2: BlockNumber| b2 != slot implies #[trigger] self.ids_at(b2) == old(
                self,
            ).ids_at(b2) by {
                assert(self.ids_at(b2) == mid.ids_at(b2));
                assert(mid.ids_at(b2) == old(self).ids_at(b2));
            }
        }
        Ok(id)
    }

    /// Suspend the schedule and cancel its planned execution at
    /// `planned_block`. Owner only.
    pub fn pause(&mut self, who: AccountId, id: ScheduleId, planned_block: BlockNumber) -> (r:
        Result<(), DcaError>)
        requires
            old(self).wf(),
        ensures
            final(self).wf(),
            final(self).spec_config() == old(self).spec_config(),
            match r {
                Ok(()) => {
                    &&& old(self).schedule_of(id) matches Some(s) && s.owner == who
                    &&& final(self).is_suspended(id)
                    &&& final(self).schedule_of(id) == old(self).schedule_of(id)
                    &&& forall|x: ScheduleId|
                        x != id ==> #[trigger] final(self).is_suspended(x) == old(
                            self,
                        ).is_suspended(x)
                    &&& forall|b: BlockNumber|
                        b != planned_block ==> #[trigger] final(self).ids_at(b) == old(
                            self,
                        ).ids_at(b)
                },
                Err(e) => {
                    &&& final(self).agrees_except_oracle(old(self))
                    &&& (e == DcaError::ScheduleNotFound ==> old(self).schedule_of(id) is None)
                    &&& (e == DcaError::Forbidden ==> (old(self).schedule_of(id) matches Some(s)
                        && s.owner != who))
                    // pausing an owned, stored schedule is owed
                    &&& (old(self).schedule_of(id) is None || (old(self).schedule_of(
                        id,
                    ) matches Some(s) && s.owner != who))
                },
            },
    {
        let owner = match self.schedules.get(&id) {
            Some(s) => s.owner,
            None => {
                return Err(DcaError::ScheduleNotFound);
            },
        };
        if owner != who {
            return Err(DcaError::Forbidden);
        }
        self.remove_from_block(id, planned_block);
        let ghost mid = *self;
        self.suspended_ids.insert(id, true);
        proof {
            lemma_wf_preserved(&mid, self);
            assert forall|b2: BlockNumber| b2 != planned_block implies #[trigger] self.ids_at(b2)
                == old(self).ids_at(b2) by {
                assert(self.ids_at(b2) == mid.ids_at(b2));
                assert(mid.ids_at(b2) == old(self).ids_at(b2));
            }
        }
        Ok(())
    }

    /// Resume a suspended schedule, planning its next execution from the
    /// block after `current_block`. Owner only.
    pub fn resume(
        &mut self,
        who: AccountId,
        id: ScheduleId,
        current_block: BlockNumber,
    ) -> (r: Result<BlockNumber, DcaError>)
        requires
            old(self).wf(),
        ensures
            final(self).wf(),
            final(self).spec_config() == old(self).spec_config(),
            match r {
                Ok(b) => {
                    &&& old(self).schedule_of(id) matches Some(s) && s.owner == who
                    &&& old(self).is_suspended(id)
                    &&& !final(self).is_suspended(id)
                    &&& final(self).schedule_of(id) == old(self).schedule_of(id)
                    &&& final(self).ids_at(b) == Some(
                        match old(self).ids_at(b) {
                            Some(s) => s.push(id),
                            None => seq![id],
                        },
                    )
                },
                Err(e) => {
                    &&& final(self).agrees_except_oracle(old(self))
                    &&& (e == DcaError::ScheduleNotFound ==> old(self).schedule_of(id) is None
                        || !old(self).is_suspended(id))
                    &&& (e == DcaError::Forbidden ==> (old(self).schedule_of(id) matches Some(s)
                        && s.owner != who))
                    &&& (e == DcaError::BlockNumberIsNotInFuture ==> current_block
                        == BlockNumber::MAX)
                    &&& (e == DcaError::NoFreeBlockFound ==> old(self).spec_find_free_block(
                        (current_block + 1) as BlockNumber,
                        0,
                    ) is None)
                    // resuming an owned, suspended schedule is owed while
                    // a future block has room
                    &&& (old(self).schedule_of(id) is None || (old(self).schedule_of(
                        id,
                    ) matches Some(s) && s.owner != who) || !old(self).is_suspended(id)
                        || current_block == BlockNumber::MAX || old(self).spec_find_free_block(
                        (current_block + 1) as BlockNumber,
                        0,
                    ) is None)
                },
            },
    {
        let owner = match self.schedules.get(&id) {
            Some(s) => s.owner,
            None => {
                return Err(DcaError::ScheduleNotFound);
            },
        };
        if owner != who {
            return Err(DcaError::Forbidden);
        }
        if !self.suspended_ids.contains_key(&id) {
            return Err(DcaError::ScheduleNotFound);
        }
        let start = match current_block.checked_add(1) {
            Some(b) => b,
            None => {
                return Err(DcaError::BlockNumberIsNotInFuture);
            },
        };
        let slot = match self.find_free_block(start) {
            Some(b) => b,
            None => {
                return Err(DcaError::NoFreeBlockFound);
            },
        };
        self.suspended_ids.remove(&id);
        proof {
            lemma_wf_preserved(old(self), self);
        }
        self.add_to_block(id, slot);
        let ghost mid = *self;
        self.events.push(DcaEvent::ExecutionPlanned { id, who, block: slot });
        proof {
            lemma_wf_preserved(&mid, self);
            assert(self.ids_at(slot) == mid.ids_at(slot));
        }
        Ok(slot)
    }

    /// Close a schedule for good: give the remaining reservation back to
    /// the owner and drop every trace of the schedule. `who` is the
    /// caller; `None` stands for the privileged technical origin.
    pub fn terminate(
        &mut self,
        ledger: &mut Ledger,
        who: Option<AccountId>,
        id: ScheduleId,
        planned_block: Option<BlockNumber>,
    ) -> (r: Result<Balance, DcaError>)
        requires
            old(self).wf(),
        ensures
            final(self).wf(),
            final(self).spec_config() == old(self).spec_config(),
            match r {
                Ok(released) => {
                    let s0 = old(self).schedule_of(id).unwrap();
                    &&& old(self).schedule_of(id) is Some
                    &&& (who matches Some(w) ==> w == s0.owner)
                    &&& final(self).schedule_of(id) is None
                    &&& !final(self).is_suspended(id)
                    &&& final(self).retry_of(id) == 0
                    &&& released == if s0.total_amount <= old(ledger).reserved_of(
                        s0.owner,
                        s0.order.spec_asset_in(),
                    ) {
                        s0.total_amount
                    } else {
                        old(ledger).reserved_of(s0.owner, s0.order.spec_asset_in())
                    }
                    &&& final(ledger).reserved_of(s0.owner, s0.order.spec_asset_in()) == old(
                        ledger,
                    ).reserved_of(s0.owner, s0.order.spec_asset_in()) - released
                    &&& final(ledger).free_of(s0.owner, s0.order.spec_asset_in()) == old(
                        ledger,
                    ).free_of(s0.owner, s0.order.spec_asset_in()) + released
                    &&& final(ledger).unchanged_except(
                        old(ledger),
                        s0.owner,
                        s0.order.spec_asset_in(),
                    )
                    &&& forall|x: ScheduleId|
                        x != id ==> #[trigger] final(self).schedule_of(x) == old(
                            self,
                        ).schedule_of(x)
                },
                Err(e) => {
                    &&& final(ledger).agrees(old(ledger))
                    &&& final(self).agrees_except_oracle(old(self))
                    &&& (e == DcaError::ScheduleNotFound ==> old(self).schedule_of(id) is None)
                    &&& (e == DcaError::Forbidden ==> (old(self).schedule_of(id) matches Some(s)
                        && who matches Some(w) && w != s.owner))
                    // termination is owed unless the released funds could
                    // not fit the owner's free balance
                    &&& (old(self).schedule_of(id) is None || (old(self).schedule_of(
                        id,
                    ) matches Some(s) && ((who matches Some(w) && w != s.owner) || {
                        let moved = if s.total_amount <= old(ledger).reserved_of(
                            s.owner,
                            s.order.spec_asset_in(),
                        ) {
                            s.total_amount as int
                        } else {
                            old(ledger).reserved_of(s.owner, s.order.spec_asset_in()) as int
                        };
                        old(ledger).free_of(s.owner, s.order.spec_asset_in()) + moved
                            > Balance::MAX
                    })))
                },
            },
    {
        let (owner, asset_in, total) = match self.schedules.get(&id) {
            Some(s) => (s.owner, s.order.asset_in(), s.total_amount),
            None => {
                return Err(DcaError::ScheduleNotFound);
            },
        };
        if let Some(w) = who {
            if w != owner {
                return Err(DcaError::Forbidden);
            }
        }
        let released = match ledger.unreserve(asset_in, owner, total) {
            Ok(leftover) => total - leftover,
            Err(_) => {
                return Err(DcaError::InsufficientBalance);
            },
        };
        self.schedules.remove(&id);
        self.retries.remove(&id);
        self.suspended_ids.remove(&id);
        proof {
            lemma_wf_preserved(old(self), self);
        }
        if let Some(b) = planned_block {
            self.remove_from_block(id, b);
        }
        let ghost mid = *self;
        self.events.push(DcaEvent::Terminated { id, who: owner });
        proof {
            lemma_wf_preserved(&mid, self);
        }
        Ok(released)
    }

    /// The execution fee expressed in `asset`: the configured native fee
    /// scaled by the spot price of `asset` in the native asset; the
    /// native fee itself when no price is available.
    pub open spec fn spec_fee_in_asset(&self, amms: &Amms, asset: AssetId) -> Balance {
        let fee = self.spec_config().execution_fee_native;
        if asset == self.spec_config().native_asset {
            fee
        } else {
            match amms.omnipool.spec_spot_price(asset, self.spec_config().native_asset) {
                Ok(p) => if fee * p.1 <= Balance::MAX {
                    (fee * p.1 / (p.0 as int)) as Balance
                } else {
                    fee
                },
                Err(_) => fee,
            }
        }
    }

    fn fee_in_asset(&self, amms: &Amms, asset: AssetId) -> (r: Balance)
        requires
            amms.wf(),
        ensures
            r == self.spec_fee_in_asset(amms, asset),
    {
        let fee = self.config.execution_fee_native;
        if asset == self.config.native_asset {
            return fee;
        }
        match amms.omnipool.calculate_spot_price(PoolType::Omnipool, asset, self.config.native_asset)
        {
            Ok((num, den)) => {
                match checked_mul_div(fee, den, num) {
                    Some(v) => v,
                    None => fee,
                }
            },
            Err(_) => fee,
        }
    }

    /// Whether the oracle price and the spot price of the pair differ by
    /// more than the configured tolerance. With no oracle price on
    /// record there is nothing to check; with no spot price, or numbers
    /// too large to compare, the check conservatively fails the trade.
    pub open spec fn spec_price_deviation_too_large(
        &self,
        amms: &Amms,
        asset_in: AssetId,
        asset_out: AssetId,
    ) -> bool {
        match self.oracle_price_of(asset_in, asset_out) {
            None => false,
            Some(o) => match amms.omnipool.spec_spot_price(asset_in, asset_out) {
                Err(_) => true,
                Ok(p) => {
                    let base = o.num * p.1;
                    let cross = p.0 * o.den;
                    if base > Balance::MAX || cross > Balance::MAX {
                        true
                    } else {
                        let diff = if base >= cross {
                            base - cross
                        } else {
                            cross - base
                        };
                        if diff * (PERMILL_ONE as int) > Balance::MAX || (
                        self.spec_config().max_price_difference as int) * base > Balance::MAX {
                            true
                        } else {
                            diff * (PERMILL_ONE as int) > (
                            self.spec_config().max_price_difference as int) * base
                        }
                    }
                },
            },
        }
    }

    fn price_deviation_too_large(&self, amms: &Amms, asset_in: AssetId, asset_out: AssetId) -> (r:
        bool)
        requires
            amms.wf(),
        ensures
            r == self.spec_price_deviation_too_large(amms, asset_in, asset_out),
    {
        let o = match self.oracle_prices.get(&(asset_in, asset_out)) {
            Some(o) => *o,
            None => {
                return false;
            },
        };
        let (pn, pd) = match amms.omnipool.calculate_spot_price(
            PoolType::Omnipool,
            asset_in,
            asset_out,
        ) {
            Ok(p) => p,
            Err(_) => {
                return true;
            },
        };
        let base = match o.num.checked_mul(pd) {
            Some(v) => v,
            None => {
                return true;
            },
        };
        let cross = match pn.checked_mul(o.den) {
            Some(v) => v,
            None => {
                return true;
            },
        };
        let diff = if base >= cross {
            base - cross
        } else {
            cross - base
        };
        let lhs = match diff.checked_mul(PERMILL_ONE as Balance) {
            Some(v) => v,
            None => {
                return true;
            },
        };
        let rhs = match (self.config.max_price_difference as Balance).checked_mul(base) {
            Some(v) => v,
            None => {
                return true;
            },
        };
        lhs > rhs
    }

    /// The slippage-derived floor on a sell's output: the spot value of
    /// the sold amount, less the tolerance. `None` when no spot price is
    /// available or the numbers overflow.
    pub open spec fn spec_sell_slippage_floor(
        amms: &Amms,
        asset_in: AssetId,
        asset_out: AssetId,
        amount_in: Balance,
        slippage: u32,
    ) -> Option<Balance> {
        match amms.omnipool.spec_spot_price(asset_in, asset_out) {
            Err(_) => None,
            Ok(p) => if amount_in * p.0 > Balance::MAX {
                None
            } else {
                let t = (amount_in * p.0 / (p.1 as int)) as Balance;
                Some(crate::math::permill_of(t, (PERMILL_ONE - slippage) as u32) as Balance)
            },
        }
    }

    fn sell_slippage_floor(
        amms: &Amms,
        asset_in: AssetId,
        asset_out: AssetId,
        amount_in: Balance,
        slippage: u32,
    ) -> (r: Option<Balance>)
        requires
            amms.wf(),
            slippage <= PERMILL_ONE,
        ensures
            r == Self::spec_sell_slippage_floor(amms, asset_in, asset_out, amount_in, slippage),
    {
        let (num, den) = match amms.omnipool.calculate_spot_price(
            PoolType::Omnipool,
            asset_in,
            asset_out,
        ) {
            Ok(p) => p,
            Err(_) => {
                return None;
            },
        };
        match checked_mul_div(amount_in, num, den) {
            Some(t) => Some(permill_mul_floor(t, PERMILL_ONE - slippage)),
            None => None,
        }
    }

    /// The slippage-derived cap on a buy's input: the spot value of the
    /// bought amount, plus the tolerance. `None` when no spot price is
    /// available or the numbers overflow.
    pub open spec fn spec_buy_slippage_cap(
        amms: &Amms,
        asset_in: AssetId,
        asset_out: AssetId,
        amount_out: Balance,
        slippage: u32,
    ) -> Option<Balance> {
        match amms.omnipool.spec_spot_price(asset_out, asset_in) {
            Err(_) => None,
            Ok(p) => if amount_out * p.0 > Balance::MAX {
                None
            } else {
                let t = (amount_out * p.0 / (p.1 as int)) as Balance;
                if t + crate::math::permill_of(t, slippage) > Balance::MAX {
                    None
                } else {
                    Some((t + crate::math::permill_of(t, slippage)) as Balance)
                }
            },
        }
    }

    fn buy_slippage_cap(
        amms: &Amms,
        asset_in: AssetId,
        asset_out: AssetId,
        amount_out: Balance,
        slippage: u32,
    ) -> (r: Option<Balance>)
        requires
            amms.wf(),
            slippage <= PERMILL_ONE,
        ensures
            r == Self::spec_buy_slippage_cap(amms, asset_in, asset_out, amount_out, slippage),
    {
        let (num, den) = match amms.omnipool.calculate_spot_price(
            PoolType::Omnipool,
            asset_out,
            asset_in,
        ) {
            Ok(p) => p,
            Err(_) => {
                return None;
            },
        };
        let t = match checked_mul_div(amount_out, num, den) {
            Some(t) => t,
            None => {
                return None;
            },
        };
        let extra = permill_mul_floor(t, slippage);
        match t.checked_add(extra) {
            Some(v) => Some(v),
            None => None,
        }
    }

    /// Record the schedule as cleanly finished: its traces leave the
    /// retry and suspended stores and a completion event is written.
    fn finish_completed(&mut self, id: ScheduleId, owner: AccountId)
        ensures
            final(self).spec_config() == old(self).spec_config(),
            final(self).schedule_of(id) == old(self).schedule_of(id),
            forall|x: ScheduleId|
                x != id ==> #[trigger] final(self).schedule_of(x) == old(self).schedule_of(x),
            forall|b: BlockNumber| #[trigger] final(self).ids_at(b) == old(self).ids_at(b),
            !final(self).is_suspended(id),
            final(self).retry_of(id) == 0,
            forall|x: ScheduleId|
                x != id ==> #[trigger] final(self).retry_of(x) == old(self).retry_of(x),
            forall|x: ScheduleId|
                x != id ==> #[trigger] final(self).is_suspended(x) == old(self).is_suspended(x),
            final(self).spec_events() == old(self).spec_events().push(
                DcaEvent::Completed { id, who: owner },
            ),
            old(self).wf() ==> final(self).wf(),
    {
        self.retries.remove(&id);
        self.suspended_ids.remove(&id);
        let ghost mid = *self;
        self.events.push(DcaEvent::Completed { id, who: owner });
        proof {
            if old(self).wf() {
                lemma_wf_preserved(old(self), self);
            }
        }
    }

    /// Record a failed attempt for the schedule `sched` (already debited
    /// of the charged fee): raise the retry counter; suspend after the
    /// configured number of consecutive failures; otherwise replan with
    /// an exponentially growing backoff, terminating the schedule — with
    /// its remaining budget released — when no future block has room.
    fn handle_failure(
        &mut self,
        ledger: &mut Ledger,
        id: ScheduleId,
        sched: Schedule,
        current_block: BlockNumber,
    ) -> (r: (bool, Balance, bool))
        requires
            old(self).wf(),
            old(self).schedule_of(id) is None,
        ensures
            final(self).wf(),
            final(self).spec_config() == old(self).spec_config(),
            forall|x: ScheduleId|
                x != id ==> #[trigger] final(self).schedule_of(x) == old(self).schedule_of(x),
            forall|x: ScheduleId|
                x != id ==> #[trigger] final(self).retry_of(x) == old(self).retry_of(x),
            forall|x: ScheduleId|
                x != id ==> #[trigger] final(self).is_suspended(x) == old(self).is_suspended(x),
            forall|b: BlockNumber|
                b <= current_block ==> #[trigger] final(self).ids_at(b) == old(self).ids_at(b),
            ({
                let (suspended, released, kept) = r;
                let owner = sched.owner;
                let asset_in = sched.order.spec_asset_in();
                &&& suspended == (old(self).retry_of(id) + 1
                    >= old(self).spec_config().max_retries)
                &&& (suspended ==> kept && final(self).is_suspended(id))
                &&& (kept ==> final(self).schedule_of(id) == Some(sched) && released == 0
                    && final(ledger).agrees(old(ledger)))
                &&& (!kept ==> final(self).schedule_of(id) is None)
                &&& (kept && !suspended && old(self).retry_of(id) < u32::MAX
                    ==> final(self).retry_of(id) == old(self).retry_of(id) + 1)
                &&& released <= sched.total_amount
                &&& final(ledger).reserved_of(owner, asset_in) == old(ledger).reserved_of(
                    owner,
                    asset_in,
                ) - released
                &&& final(ledger).free_of(owner, asset_in) == old(ledger).free_of(owner, asset_in)
                    + released
                &&& final(ledger).unchanged_except(old(ledger), owner, asset_in)
                &&& (old(ledger).reserved_of(owner, asset_in) >= sched.total_amount && old(
                    ledger,
                ).free_of(owner, asset_in) + sched.total_amount <= Balance::MAX ==> released == 0
                    || released == sched.total_amount)
                &&& (!kept && old(ledger).reserved_of(owner, asset_in) >= sched.total_amount
                    && old(ledger).free_of(owner, asset_in) + sched.total_amount <= Balance::MAX
                    ==> released == sched.total_amount)
            }),
    {
        let owner = sched.owner;
        let asset_in = sched.order.asset_in();
        self.events.push(DcaEvent::TradeFailed { id, who: owner });
        proof {
            lemma_wf_preserved(old(self), self);
        }
        let old_retry = self.retry_count(id);
        let new_retry = if old_retry == u32::MAX {
            u32::MAX
        } else {
            old_retry + 1
        };
        self.retries.insert(id, new_retry);
        let ghost mid1 = *self;
        proof {
            lemma_wf_preserved(old(self), self);
        }
        if new_retry >= self.config.max_retries {
            self.suspended_ids.insert(id, true);
            self.schedules.insert(id, sched);
            let ghost mid2 = *self;
            self.events.push(DcaEvent::Suspended { id, who: owner });
            proof {
                lemma_wf_preserved(&mid1, self);
            }
            return (true, 0, true);
        }
        // exponential backoff: the retry count is below the configured
        // bound, which wf keeps within shifting range
        let exp = if new_retry > 32 {
            32
        } else {
            new_retry
        };
        let mut off: u64 = 1;
        let mut j: u32 = 0;
        while j < exp
            invariant
                j <= exp,
                exp <= 32,
                off == two_pow(j as nat),
                off <= 0x2_0000_0000u64,
            decreases exp - j,
        {
            proof {
                lemma_two_pow_bound33(j as nat + 1);
            }
            off = off * 2;
            j += 1;
        }
        proof {
            lemma_two_pow_pos(exp as nat);
        }
        let start = match current_block.checked_add(off) {
            Some(b) => b,
            None => {
                let (_, released) = self.fail_terminate(ledger, id, sched);
                return (false, released, false);
            },
        };
        let slot = match self.find_free_block(start) {
            Some(b) => b,
            None => {
                let (_, released) = self.fail_terminate(ledger, id, sched);
                return (false, released, false);
            },
        };
        self.schedules.insert(id, sched);
        proof {
            lemma_wf_preserved(&mid1, self);
        }
        self.add_to_block(id, slot);
        let ghost mid3 = *self;
        self.events.push(DcaEvent::ExecutionPlanned { id, who: owner, block: slot });
        proof {
            lemma_wf_preserved(&mid3, self);
            assert forall|b: BlockNumber| b <= current_block implies #[trigger] self.ids_at(b)
                == old(self).ids_at(b) by {
                assert(self.ids_at(b) == mid3.ids_at(b));
                assert(mid3.ids_at(b) == mid1.ids_at(b));
            }
        }
        (false, 0, true)
    }

    /// Terminate a schedule whose retry could not be replanned: give the
    /// remaining budget back and drop the schedule.
    fn fail_terminate(&mut self, ledger: &mut Ledger, id: ScheduleId, sched: Schedule) -> (r: (
        bool,
        Balance,
    ))
        requires
            old(self).wf(),
            old(self).schedule_of(id) is None,
        ensures
            final(self).wf(),
            final(self).spec_config() == old(self).spec_config(),
            forall|x: ScheduleId| #[trigger] final(self).schedule_of(x) == old(self).schedule_of(
                x,
            ),
            forall|x: ScheduleId|
                x != id ==> #[trigger] final(self).retry_of(x) == old(self).retry_of(x),
            forall|x: ScheduleId| #[trigger] final(self).is_suspended(x) == old(
                self,
            ).is_suspended(x),
            forall|b: BlockNumber| #[trigger] final(self).ids_at(b) == old(self).ids_at(b),
            ({
                let (suspended, released) = r;
                let owner = sched.owner;
                let asset_in = sched.order.spec_asset_in();
                &&& !suspended
                &&& released <= sched.total_amount
                &&& final(ledger).reserved_of(owner, asset_in) == old(ledger).reserved_of(
                    owner,
                    asset_in,
                ) - released
                &&& final(ledger).free_of(owner, asset_in) == old(ledger).free_of(owner, asset_in)
                    + released
                &&& final(ledger).unchanged_except(old(ledger), owner, asset_in)
                &&& (old(ledger).reserved_of(owner, asset_in) >= sched.total_amount && old(
                    ledger,
                ).free_of(owner, asset_in) + sched.total_amount <= Balance::MAX ==> released
                    == sched.total_amount)
            }),
    {
        let owner = sched.owner;
        let asset_in = sched.order.asset_in();
        let released = match ledger.unreserve(asset_in, owner, sched.total_amount) {
            Ok(leftover) => sched.total_amount - leftover,
            Err(_) => 0,
        };
        self.retries.remove(&id);
        proof {
            lemma_wf_preserved(old(self), self);
        }
        let ghost mid = *self;
        self.events.push(DcaEvent::Terminated { id, who: owner });
        proof {
            lemma_wf_preserved(&mid, self);
        }
        (false, released)
    }

    /// Record a successful execution for `sched` (already debited of the
    /// consumed amount): reset the retry counter, and either complete
    /// the schedule — releasing the remainder — when it can no longer
    /// fund a trade of `min_for_next`, or plan the next occurrence one
    /// period ahead.
    fn handle_success(
        &mut self,
        ledger: &mut Ledger,
        id: ScheduleId,
        sched: Schedule,
        min_for_next: Balance,
        current_block: BlockNumber,
    ) -> (r: (Balance, bool))
        requires
            old(self).wf(),
            old(self).schedule_of(id) is None,
        ensures
            final(self).wf(),
            final(self).spec_config() == old(self).spec_config(),
            forall|x: ScheduleId|
                x != id ==> #[trigger] final(self).schedule_of(x) == old(self).schedule_of(x),
            forall|x: ScheduleId|
                x != id ==> #[trigger] final(self).retry_of(x) == old(self).retry_of(x),
            forall|x: ScheduleId|
                x != id ==> #[trigger] final(self).is_suspended(x) == old(self).is_suspended(x),
            forall|b: BlockNumber|
                b <= current_block ==> #[trigger] final(self).ids_at(b) == old(self).ids_at(b),
            final(self).retry_of(id) == 0,
            ({
                let (released, kept) = r;
                let owner = sched.owner;
                let asset_in = sched.order.spec_asset_in();
                &&& (kept ==> final(self).schedule_of(id) == Some(sched) && released == 0
                    && final(ledger).agrees(old(ledger)) && sched.total_amount >= min_for_next)
                &&& (!kept ==> final(self).schedule_of(id) is None)
                &&& released <= sched.total_amount
                &&& final(ledger).reserved_of(owner, asset_in) == old(ledger).reserved_of(
                    owner,
                    asset_in,
                ) - released
                &&& final(ledger).free_of(owner, asset_in) == old(ledger).free_of(owner, asset_in)
                    + released
                &&& final(ledger).unchanged_except(old(ledger), owner, asset_in)
                &&& (!kept && old(ledger).reserved_of(owner, asset_in) >= sched.total_amount
                    && old(ledger).free_of(owner, asset_in) + sched.total_amount <= Balance::MAX
                    ==> released == sched.total_amount)
            }),
    {
        let owner = sched.owner;
        let asset_in = sched.order.asset_in();
        self.retries.remove(&id);
        let ghost mid0 = *self;
        self.events.push(DcaEvent::TradeExecuted { id, who: owner });
        proof {
            lemma_wf_preserved(old(self), self);
        }
        if sched.total_amount < min_for_next {
            let released = match ledger.unreserve(asset_in, owner, sched.total_amount) {
                Ok(leftover) => sched.total_amount - leftover,
                Err(_) => 0,
            };
            self.finish_completed(id, owner);
            return (released, false);
        }
        let period = if sched.period == 0 {
            1
        } else {
            sched.period
        };
        let start = match current_block.checked_add(period) {
            Some(b) => b,
            None => {
                let (_, released) = self.fail_terminate_success(ledger, id, sched);
                return (released, false);
            },
        };
        let slot = match self.find_free_block(start) {
            Some(b) => b,
            None => {
                let (_, released) = self.fail_terminate_success(ledger, id, sched);
                return (released, false);
            },
        };
        self.schedules.insert(id, sched);
        proof {
            lemma_wf_preserved(old(self), self);
        }
        self.add_to_block(id, slot);
        let ghost mid = *self;
        self.events.push(DcaEvent::ExecutionPlanned { id, who: owner, block: slot });
        proof {
            lemma_wf_preserved(&mid, self);
            assert forall|b: BlockNumber| b <= current_block implies #[trigger] self.ids_at(b)
                == old(self).ids_at(b) by {
                assert(self.ids_at(b) == mid.ids_at(b));
                assert(mid.ids_at(b) == mid0.ids_at(b));
            }
        }
        (0, true)
    }

    /// As `fail_terminate`, for the replanning step after a success.
    fn fail_terminate_success(&mut self, ledger: &mut Ledger, id: ScheduleId, sched: Schedule) -> (r:
        (bool, Balance))
        requires
            old(self).wf(),
            old(self).schedule_of(id) is None,
        ensures
            final(self).wf(),
            final(self).spec_config() == old(self).spec_config(),
            forall|x: ScheduleId| #[trigger] final(self).schedule_of(x) == old(self).schedule_of(
                x,
            ),
            forall|x: ScheduleId|
                x != id ==> #[trigger] final(self).retry_of(x) == old(self).retry_of(x),
            forall|x: ScheduleId| #[trigger] final(self).is_suspended(x) == old(
                self,
            ).is_suspended(x),
            forall|b: BlockNumber| #[trigger] final(self).ids_at(b) == old(self).ids_at(b),
            final(self).retry_of(id) == old(self).retry_of(id),
            ({
                let (suspended, released) = r;
                let owner = sched.owner;
                let asset_in = sched.order.spec_asset_in();
                &&& !suspended
                &&& released <= sched.total_amount
                &&& final(ledger).reserved_of(owner, asset_in) == old(ledger).reserved_of(
                    owner,
                    asset_in,
                ) - released
                &&& final(ledger).free_of(owner, asset_in) == old(ledger).free_of(owner, asset_in)
                    + released
                &&& final(ledger).unchanged_except(old(ledger), owner, asset_in)
                &&& (old(ledger).reserved_of(owner, asset_in) >= sched.total_amount && old(
                    ledger,
                ).free_of(owner, asset_in) + sched.total_amount <= Balance::MAX ==> released
                    == sched.total_amount)
            }),
    {
        let owner = sched.owner;
        let asset_in = sched.order.asset_in();
        let released = match ledger.unreserve(asset_in, owner, sched.total_amount) {
            Ok(leftover) => sched.total_amount - leftover,
            Err(_) => 0,
        };
        let ghost mid = *self;
        self.events.push(DcaEvent::Terminated { id, who: owner });
        proof {
            lemma_wf_preserved(&mid, self);
        }
        (false, released)
    }

    /// The slippage tolerance an order runs under: its own, else the
    /// configured default, clamped to one whole.
    pub open spec fn spec_slippage_parts(&self, sched: Schedule) -> u32 {
        let parts = match sched.slippage {
            Some(p) => p,
            None => self.spec_config().default_slippage,
        };
        if parts > PERMILL_ONE {
            PERMILL_ONE
        } else {
            parts
        }
    }

    /// What one buy execution must be able to take from the budget: the
    /// effective spending cap — the stated limit or the slippage-derived
    /// one, whichever is higher — plus the execution fee, saturated.
    pub open spec fn spec_buy_required(&self, amms: &Amms, sched: Schedule) -> int {
        match sched.order {
            Order::Buy { asset_in, asset_out, amount_out, max_limit, .. } => {
                let cap = match Self::spec_buy_slippage_cap(
                    amms,
                    asset_in,
                    asset_out,
                    amount_out,
                    self.spec_slippage_parts(sched),
                ) {
                    Some(c) => if c > max_limit {
                        c
                    } else {
                        max_limit
                    },
                    None => max_limit,
                };
                let fee = self.spec_fee_in_asset(amms, asset_in);
                if cap + fee > Balance::MAX {
                    Balance::MAX as int
                } else {
                    cap + fee
                }
            },
            Order::Sell { .. } => 0,
        }
    }

    /// The cap a buy execution may spend: the stated maximum or the
    /// slippage-derived one, whichever is higher.
    pub open spec fn spec_buy_max_eff(&self, amms: &Amms, sched: Schedule) -> Balance {
        match sched.order {
            Order::Buy { asset_in, asset_out, amount_out, max_limit, .. } => {
                match Self::spec_buy_slippage_cap(
                    amms,
                    asset_in,
                    asset_out,
                    amount_out,
                    self.spec_slippage_parts(sched),
                ) {
                    Some(c) => if c > max_limit {
                        c
                    } else {
                        max_limit
                    },
                    None => max_limit,
                }
            },
            Order::Sell { .. } => 0,
        }
    }

    /// The floor a sell execution must clear: the stated minimum or the
    /// slippage-derived one, whichever is lower.
    pub open spec fn spec_sell_min_eff(&self, amms: &Amms, sched: Schedule) -> Balance {
        match sched.order {
            Order::Sell { asset_in, asset_out, amount_in, min_limit, .. } => {
                match Self::spec_sell_slippage_floor(
                    amms,
                    asset_in,
                    asset_out,
                    amount_in,
                    self.spec_slippage_parts(sched),
                ) {
                    Some(f) => if f < min_limit {
                        f
                    } else {
                        min_limit
                    },
                    None => min_limit,
                }
            },
            Order::Buy { .. } => 0,
        }
    }

    /// The hypothesis under which the budget arithmetic is exact: the
    /// owner's reservation covers the schedule's remaining budget, the
    /// balances involved have room for it, the fee fits the budget, and
    /// the route the trade will take touches no asset twice and runs
    /// wholly through the omnipool, whose single reserve account the
    /// budget bookkeeping is stated over.
    pub open spec fn funded(
        &self,
        amms: &Amms,
        ledger: &Ledger,
        router: &Router,
        s0: Schedule,
    ) -> bool {
        let owner = s0.owner;
        let asset_in = s0.order.spec_asset_in();
        let fee = self.spec_fee_in_asset(amms, asset_in);
        &&& ledger.reserved_of(owner, asset_in) >= s0.total_amount
        &&& ledger.free_of(owner, asset_in) + s0.total_amount <= Balance::MAX
        &&& ledger.free_of(self.spec_config().fee_receiver, asset_in) + fee <= Balance::MAX
        &&& fee <= s0.total_amount
        &&& match router.spec_used_route(
            s0.order.spec_route(),
            s0.order.spec_asset_in(),
            s0.order.spec_asset_out(),
        ) {
            Some(u) => distinct_route_assets(u) && all_omnipool_route(u),
            None => true,
        }
    }

    /// Process one due schedule: compute the trade bounds, charge the
    /// execution fee, run the order through the route executor, and
    /// retry, suspend, complete or terminate the schedule as the result
    /// demands. The outcome reports exactly what left the reservation
    /// for good (`consumed`) and what was given back (`released`), and
    /// under `funded` the remaining budget obeys
    /// `remaining + consumed + released == previous total` — no value is
    /// created or destroyed.
    #[verifier::rlimit(100)]
    pub fn execute_schedule(
        &mut self,
        amms: &Amms,
        ledger: &mut Ledger,
        breaker: &mut CircuitBreaker,
        router: &Router,
        id: ScheduleId,
        current_block: BlockNumber,
    ) -> (outcome: ScheduleOutcome)
        requires
            old(self).wf(),
            amms.wf(),
            old(breaker).wf(),
        ensures
            final(self).wf(),
            final(breaker).wf(),
            final(self).spec_config() == old(self).spec_config(),
            forall|x: ScheduleId|
                x != id ==> #[trigger] final(self).schedule_of(x) == old(self).schedule_of(x),
            forall|x: ScheduleId|
                x != id ==> #[trigger] final(self).retry_of(x) == old(self).retry_of(x),
            forall|x: ScheduleId|
                x != id ==> #[trigger] final(self).is_suspended(x) == old(self).is_suspended(x),
            forall|b: BlockNumber|
                b <= current_block ==> #[trigger] final(self).ids_at(b) == old(self).ids_at(b),
            match old(self).schedule_of(id) {
                None => outcome == ScheduleOutcome::Skipped && final(self).agrees_except_oracle(
                    old(self),
                ) && final(ledger).agrees(old(ledger)) && final(breaker).agrees(old(breaker)),
                Some(s0) => {
                    if old(self).is_suspended(id) {
                        outcome == ScheduleOutcome::Skipped && final(self).agrees_except_oracle(
                            old(self),
                        ) && final(ledger).agrees(old(ledger)) && final(breaker).agrees(
                            old(breaker),
                        )
                    } else {
                        let owner = s0.owner;
                        let asset_in = s0.order.spec_asset_in();
                        let remaining = match final(self).schedule_of(id) {
                            Some(s1) => s1.total_amount,
                            None => 0,
                        };
                        &&& !(outcome is Skipped)
                        &&& (old(self).funded(amms, old(ledger), router, s0) ==> {
                            &&& remaining + outcome.spec_consumed() + outcome.spec_released()
                                == s0.total_amount
                            &&& final(ledger).reserved_of(owner, asset_in) == old(
                                ledger,
                            ).reserved_of(owner, asset_in) - outcome.spec_consumed()
                                - outcome.spec_released()
                        })
                        &&& (outcome matches ScheduleOutcome::Executed { .. }
                            ==> final(self).retry_of(id) == 0)
                        &&& (outcome matches ScheduleOutcome::Completed { .. }
                            ==> final(self).schedule_of(id) is None
                            && !final(self).is_suspended(id))
                        &&& (outcome matches ScheduleOutcome::Failed { suspended, .. } ==> {
                            &&& suspended == (old(self).retry_of(id) + 1 >= old(
                                self,
                            ).spec_config().max_retries)
                            &&& (suspended ==> final(self).is_suspended(id))
                        })
                        &&& (match final(self).schedule_of(id) {
                            Some(s1) => s1.owner == s0.owner && s1.order == s0.order
                                && s1.period == s0.period && s1.slippage == s0.slippage,
                            None => true,
                        })
                        // completion is owed whenever the budget cannot
                        // fund one more trade and the reservation can be
                        // given back; no fee is charged on that path
                        &&& ({
                            let short = match s0.order {
                                Order::Sell { amount_in, .. } => s0.total_amount < amount_in,
                                Order::Buy { .. } => (s0.total_amount as int) < old(
                                    self,
                                ).spec_buy_required(amms, s0),
                            };
                            short && old(ledger).reserved_of(owner, asset_in) >= s0.total_amount
                                && old(ledger).free_of(owner, asset_in) + s0.total_amount
                                <= Balance::MAX ==> outcome == ScheduleOutcome::Completed {
                                consumed: 0,
                                released: s0.total_amount,
                            }
                        })
                        // the retry counter climbs by one on every failure
                        // that keeps the schedule
                        &&& (match outcome {
                            ScheduleOutcome::Failed { suspended, .. } => (!suspended
                                && final(self).schedule_of(id) is Some && old(self).retry_of(id)
                                < u32::MAX) ==> final(self).retry_of(id) == old(self).retry_of(
                                id,
                            ) + 1,
                            _ => true,
                        })
                        // what is owed, for a funded schedule: a fee-free
                        // skip on price deviation, and otherwise an
                        // attempt that charges the fee
                        &&& (old(self).funded(amms, old(ledger), router, s0) ==> {
                            let fee = old(self).spec_fee_in_asset(amms, asset_in);
                            let deviates = old(self).spec_price_deviation_too_large(
                                amms,
                                asset_in,
                                s0.order.spec_asset_out(),
                            );
                            let short = match s0.order {
                                Order::Sell { amount_in, .. } => s0.total_amount < amount_in,
                                Order::Buy { .. } => (s0.total_amount as int) < old(
                                    self,
                                ).spec_buy_required(amms, s0),
                            };
                            &&& (!short && deviates ==> outcome matches ScheduleOutcome::Failed {
                                consumed: 0,
                                ..
                            })
                            &&& (!short && !deviates ==> {
                                &&& (outcome matches ScheduleOutcome::Executed { .. } || outcome
                                    matches ScheduleOutcome::Failed { .. })
                                &&& outcome.spec_consumed() >= fee
                                &&& (match s0.order {
                                    Order::Sell { amount_in, .. } => (fee <= amount_in && (outcome
                                        matches ScheduleOutcome::Executed { .. }))
                                        ==> outcome.spec_consumed() == amount_in,
                                    Order::Buy { .. } => (outcome
                                        matches ScheduleOutcome::Executed { .. })
                                        ==> outcome.spec_consumed() == old(
                                        self,
                                    ).spec_buy_required(amms, s0),
                                })
                                // the trade itself is owed: over a single
                                // omnipool hop, a sell executes exactly
                                // when the attempt clears the entry state
                                &&& (match s0.order {
                                    Order::Sell { amount_in, .. } => ({
                                        let aout = s0.order.spec_asset_out();
                                        let u = router.spec_used_route(
                                            s0.order.spec_route(),
                                            asset_in,
                                            aout,
                                        );
                                        (fee <= amount_in && old(
                                            self,
                                        ).spec_config().fee_receiver
                                            != amms.omnipool.spec_pool_account() && (
                                        u matches Some(uu) && uu.len() == 1 && uu[0].pool
                                            == PoolType::Omnipool && valid_route(
                                            uu,
                                            asset_in,
                                            aout,
                                        ))) ==> ((outcome matches ScheduleOutcome::Executed {
                                            ..
                                        }) <==> spec_sell_attempt_clears(
                                            amms,
                                            old(ledger),
                                            old(breaker),
                                            owner,
                                            asset_in,
                                            aout,
                                            (amount_in - fee) as Balance,
                                            old(self).spec_sell_min_eff(amms, s0),
                                        ))
                                    }),
                                    Order::Buy { amount_out, .. } => ({
                                        let aout = s0.order.spec_asset_out();
                                        let u = router.spec_used_route(
                                            s0.order.spec_route(),
                                            asset_in,
                                            aout,
                                        );
                                        let cap = old(self).spec_buy_max_eff(amms, s0);
                                        (cap + fee <= Balance::MAX && old(
                                            self,
                                        ).spec_config().fee_receiver
                                            != amms.omnipool.spec_pool_account() && (
                                        u matches Some(uu) && uu.len() == 1 && uu[0].pool
                                            == PoolType::Omnipool && valid_route(
                                            uu,
                                            asset_in,
                                            aout,
                                        ))) ==> ((outcome matches ScheduleOutcome::Executed {
                                            ..
                                        }) <==> spec_buy_attempt_clears(
                                            amms,
                                            old(ledger),
                                            old(breaker),
                                            owner,
                                            asset_in,
                                            aout,
                                            amount_out,
                                            cap,
                                        ))
                                    }),
                                })
                            })
                        })
                    }
                },
            },
    {
        let sched = match self.schedules.remove(&id) {
            Some(s) => s,
            None => {
                proof {
                    assert(self.schedules@ =~= old(self).schedules@);
                    lemma_wf_preserved(old(self), self);
                }
                return ScheduleOutcome::Skipped;
            },
        };
        if self.suspended_ids.contains_key(&id) {
            self.schedules.insert(id, sched);
            proof {
                assert(self.schedules@ =~= old(self).schedules@);
                lemma_wf_preserved(old(self), self);
            }
            return ScheduleOutcome::Skipped;
        }
        proof {
            lemma_wf_preserved(old(self), self);
        }
        let ghost s0 = sched;
        let owner = sched.owner;
        let asset_in = sched.order.asset_in();
        let asset_out = sched.order.asset_out();
        self.events.push(DcaEvent::ExecutionStarted { id, block: current_block });
        proof {
            lemma_wf_preserved(old(self), self);
        }
        let ghost mid0 = *self;
        let fee = self.fee_in_asset(amms, asset_in);
        let parts0 = match sched.slippage {
            Some(p) => p,
            None => self.config.default_slippage,
        };
        let parts = if parts0 > PERMILL_ONE {
            PERMILL_ONE
        } else {
            parts0
        };
        let is_sell = match &sched.order {
            Order::Sell { .. } => true,
            Order::Buy { .. } => false,
        };
        if is_sell {
            let (amount_in, min_limit) = match &sched.order {
                Order::Sell { amount_in, min_limit, .. } => (*amount_in, *min_limit),
                Order::Buy { .. } => (0, 0),
            };
            if sched.total_amount < amount_in {
                let released = match ledger.unreserve(asset_in, owner, sched.total_amount) {
                    Ok(leftover) => sched.total_amount - leftover,
                    Err(_) => 0,
                };
                self.finish_completed(id, owner);
                return ScheduleOutcome::Completed { consumed: 0, released };
            }
            if self.price_deviation_too_large(amms, asset_in, asset_out) {
                let (suspended, released, _) = self.handle_failure(
                    ledger,
                    id,
                    sched,
                    current_block,
                );
                return ScheduleOutcome::Failed { consumed: 0, released, suspended };
            }
            let charged = take_fee(ledger, asset_in, owner, self.config.fee_receiver, fee);
            let total_after_fee = if charged <= sched.total_amount {
                sched.total_amount - charged
            } else {
                0
            };
            let trade_amount = if amount_in >= charged {
                amount_in - charged
            } else {
                0
            };
            let sched2 = Schedule {
                owner: sched.owner,
                period: sched.period,
                total_amount: total_after_fee,
                slippage: sched.slippage,
                order: sched.order,
            };
            let min_eff = match Self::sell_slippage_floor(
                amms,
                asset_in,
                asset_out,
                amount_in,
                parts,
            ) {
                Some(s) => if s < min_limit {
                    s
                } else {
                    min_limit
                },
                None => min_limit,
            };
            let tmoved = match ledger.unreserve(asset_in, owner, trade_amount) {
                Ok(leftover) => trade_amount - leftover,
                Err(_) => {
                    let (suspended, released, _) = self.handle_failure(
                        ledger,
                        id,
                        sched2,
                        current_block,
                    );
                    return ScheduleOutcome::Failed { consumed: charged, released, suspended };
                },
            };
            let route = match &sched2.order {
                Order::Sell { route, .. } => route,
                Order::Buy { route, .. } => route,
            };
            let ghost lm = *ledger;
            let ghost bm = *breaker;
            let sold = router.sell(
                amms,
                ledger,
                breaker,
                owner,
                asset_in,
                asset_out,
                tmoved,
                min_eff,
                route,
            );
            proof {
                if old(self).funded(amms, old(ledger), router, s0) && self.config.fee_receiver
                    != amms.omnipool.spec_pool_account() {
                    lemma_sell_attempt_mapping(
                        amms,
                        old(ledger),
                        &lm,
                        &bm,
                        owner,
                        asset_in,
                        asset_out,
                        tmoved,
                        min_eff,
                    );
                    match router.spec_used_route(s0.order.spec_route(), asset_in, asset_out) {
                        Some(uu) => {
                            if uu.len() == 1 && uu[0].pool == PoolType::Omnipool && valid_route(
                                uu,
                                asset_in,
                                asset_out,
                            ) && fee <= amount_in {
                                assert(route@ == s0.order.spec_route());
                                assert(uu.drop_last() =~= Seq::<Trade>::empty());
                                assert(uu[0].asset_in == asset_in);
                                assert(uu[0].asset_out == asset_out);
                                assert(parts == old(self).spec_slippage_parts(s0));
                                assert(min_eff == old(self).spec_sell_min_eff(amms, s0));
                                assert(tmoved == (amount_in - fee) as Balance);
                                assert(spec_sell_amounts(amms, &lm, uu.drop_last(), tmoved)
                                    == Ok::<Seq<Balance>, RouterError>(Seq::empty()));
                                assert(uu.last() == uu[0]);
                                match amms.omnipool.spec_calculate_sell(
                                    asset_in,
                                    asset_out,
                                    tmoved,
                                ) {
                                    Ok(o) => {
                                        assert(spec_calc_sell_hop(amms, &lm, uu[0], tmoved)
                                            == Ok::<Balance, RouterError>(o));
                                        assert(spec_sell_amounts(amms, &lm, uu, tmoved)
                                            == Ok::<Seq<Balance>, RouterError>(
                                            Seq::empty().push(o),
                                        ));
                                        assert(Seq::<Balance>::empty().push(o)[0] == o);
                                        assert(Seq::<Balance>::empty().push(o).len() == 1);
                                    },
                                    Err(_) => {
                                        assert(spec_sell_amounts(amms, &lm, uu, tmoved)
                                            matches Err(_));
                                    },
                                }
                            }
                        },
                        None => {},
                    }
                }
            }
            match sold {
                Ok(_) => {
                    let consumed = charged + tmoved;
                    let total_after = if tmoved <= sched2.total_amount {
                        sched2.total_amount - tmoved
                    } else {
                        0
                    };
                    let sched3 = Schedule {
                        owner: sched2.owner,
                        period: sched2.period,
                        total_amount: total_after,
                        slippage: sched2.slippage,
                        order: sched2.order,
                    };
                    let (released, _) = self.handle_success(
                        ledger,
                        id,
                        sched3,
                        amount_in,
                        current_block,
                    );
                    ScheduleOutcome::Executed { consumed, released }
                },
                Err(_) => {
                    match ledger.reserve(asset_in, owner, tmoved) {
                        Ok(()) => (),
                        Err(_) => {
                            proof {
                                assert(false);
                            }
                        },
                    }
                    let (suspended, released, _) = self.handle_failure(
                        ledger,
                        id,
                        sched2,
                        current_block,
                    );
                    ScheduleOutcome::Failed { consumed: charged, released, suspended }
                },
            }
        } else {
            let (amount_out, max_limit) = match &sched.order {
                Order::Buy { amount_out, max_limit, .. } => (*amount_out, *max_limit),
                Order::Sell { .. } => (0, 0),
            };
            let max_eff = match Self::buy_slippage_cap(amms, asset_in, asset_out, amount_out, parts)
            {
                Some(c) => if c > max_limit {
                    c
                } else {
                    max_limit
                },
                None => max_limit,
            };
            let required = match max_eff.checked_add(fee) {
                Some(v) => v,
                None => Balance::MAX,
            };
            if sched.total_amount < required {
                let released = match ledger.unreserve(asset_in, owner, sched.total_amount) {
                    Ok(leftover) => sched.total_amount - leftover,
                    Err(_) => 0,
                };
                self.finish_completed(id, owner);
                return ScheduleOutcome::Completed { consumed: 0, released };
            }
            if self.price_deviation_too_large(amms, asset_in, asset_out) {
                let (suspended, released, _) = self.handle_failure(
                    ledger,
                    id,
                    sched,
                    current_block,
                );
                return ScheduleOutcome::Failed { consumed: 0, released, suspended };
            }
            let charged = take_fee(ledger, asset_in, owner, self.config.fee_receiver, fee);
            let total_after_fee = if charged <= sched.total_amount {
                sched.total_amount - charged
            } else {
                0
            };
            let sched2 = Schedule {
                owner: sched.owner,
                period: sched.period,
                total_amount: total_after_fee,
                slippage: sched.slippage,
                order: sched.order,
            };
            let mmoved = match ledger.unreserve(asset_in, owner, max_eff) {
                Ok(leftover) => max_eff - leftover,
                Err(_) => {
                    let (suspended, released, _) = self.handle_failure(
                        ledger,
                        id,
                        sched2,
                        current_block,
                    );
                    return ScheduleOutcome::Failed { consumed: charged, released, suspended };
                },
            };
            let route = match &sched2.order {
                Order::Sell { route, .. } => route,
                Order::Buy { route, .. } => route,
            };
            let ghost lm = *ledger;
            let ghost bm = *breaker;
            let bought = router.buy(
                amms,
                ledger,
                breaker,
                owner,
                asset_in,
                asset_out,
                amount_out,
                mmoved,
                route,
            );
            proof {
                if old(self).funded(amms, old(ledger), router, s0) && self.config.fee_receiver
                    != amms.omnipool.spec_pool_account() {
                    match router.spec_used_route(s0.order.spec_route(), asset_in, asset_out) {
                        Some(uu) => {
                            if uu.len() == 1 && uu[0].pool == PoolType::Omnipool && valid_route(
                                uu,
                                asset_in,
                                asset_out,
                            ) && old(self).spec_buy_max_eff(amms, s0) + fee <= Balance::MAX {
                                assert(route@ == s0.order.spec_route());
                                assert(parts == old(self).spec_slippage_parts(s0));
                                assert(max_eff == old(self).spec_buy_max_eff(amms, s0));
                                assert(mmoved == max_eff);
                                lemma_buy_attempt_mapping(
                                    amms,
                                    old(ledger),
                                    &lm,
                                    &bm,
                                    owner,
                                    asset_in,
                                    asset_out,
                                    amount_out,
                                    max_eff,
                                );
                                assert(uu.skip(1) =~= Seq::<Trade>::empty());
                                assert(uu[0].asset_in == asset_in);
                                assert(uu[0].asset_out == asset_out);
                                assert(spec_buy_amounts(amms, &lm, uu.skip(1), amount_out)
                                    == Ok::<Seq<Balance>, RouterError>(Seq::empty()));
                                match amms.omnipool.spec_calculate_buy(
                                    asset_in,
                                    asset_out,
                                    amount_out,
                                ) {
                                    Ok(sp) => {
                                        assert(spec_calc_buy_hop(amms, &lm, uu[0], amount_out)
                                            == Ok::<Balance, RouterError>(sp));
                                        assert(spec_buy_amounts(amms, &lm, uu, amount_out)
                                            == Ok::<Seq<Balance>, RouterError>(
                                            seq![sp] + Seq::empty(),
                                        ));
                                        assert((seq![sp] + Seq::<Balance>::empty())[0] == sp);
                                        assert((seq![sp] + Seq::<Balance>::empty()).len() == 1);
                                    },
                                    Err(_) => {
                                        assert(spec_buy_amounts(amms, &lm, uu, amount_out)
                                            matches Err(_));
                                    },
                                }
                            }
                        },
                        None => {},
                    }
                }
            }
            match bought {
                Ok(_) => {
                    let consumed = charged + mmoved;
                    let total_after = if mmoved <= sched2.total_amount {
                        sched2.total_amount - mmoved
                    } else {
                        0
                    };
                    let sched3 = Schedule {
                        owner: sched2.owner,
                        period: sched2.period,
                        total_amount: total_after,
                        slippage: sched2.slippage,
                        order: sched2.order,
                    };
                    let (released, _) = self.handle_success(
                        ledger,
                        id,
                        sched3,
                        required,
                        current_block,
                    );
                    ScheduleOutcome::Executed { consumed, released }
                },
                Err(_) => {
                    match ledger.reserve(asset_in, owner, mmoved) {
                        Ok(()) => (),
                        Err(_) => {
                            proof {
                                assert(false);
                            }
                        },
                    }
                    let (suspended, released, _) = self.handle_failure(
                        ledger,
                        id,
                        sched2,
                        current_block,
                    );
                    ScheduleOutcome::Failed { consumed: charged, released, suspended }
                },
            }
        }
    }

    /// The block-initialization hook: wipe the circuit breaker's
    /// per-block counters, take the identifiers due at `current_block`,
    /// and process each in order through `execute_schedule`, whose
    /// contract governs every returned outcome.
    pub fn on_initialize(
        &mut self,
        amms: &Amms,
        ledger: &mut Ledger,
        breaker: &mut CircuitBreaker,
        router: &Router,
        current_block: BlockNumber,
    ) -> (outcomes: Vec<(ScheduleId, ScheduleOutcome)>)
        requires
            old(self).wf(),
            amms.wf(),
            old(breaker).wf(),
        ensures
            final(self).wf(),
            final(breaker).wf(),
            final(self).spec_config() == old(self).spec_config(),
            final(self).ids_at(current_block) is None,
            // with nothing due, the block leaves only the breaker wipe
            old(self).ids_at(current_block) is None ==> outcomes@ == Seq::<
                (ScheduleId, ScheduleOutcome),
            >::empty() && (forall|a: AssetId| #[trigger] final(breaker).trade_entry_of(a) is None)
                && (forall|a: AssetId| #[trigger] final(breaker).liquidity_entry_of(a) is None),
            // one outcome per due identifier, in the bucket's order, and
            // each outcome reflects its schedule's processing: a skip
            // needs a reason, a completion removed the schedule, and a
            // suspension is visible afterwards
            match old(self).ids_at(current_block) {
                None => true,
                Some(due) => {
                    &&& outcomes@.len() == due.len()
                    &&& forall|k: int|
                        0 <= k < due.len() ==> (#[trigger] outcomes@[k]).0 == due[k]
                    &&& forall|k: int|
                        0 <= k < due.len() && (#[trigger] outcomes@[k]).1 is Skipped ==> old(
                            self,
                        ).schedule_of(due[k]) is None || old(self).is_suspended(due[k]) || (
                        exists|j: int| 0 <= j < k && due[j] == due[k])
                    &&& forall|k: int|
                        0 <= k < due.len() && ((#[trigger] outcomes@[k]).1 matches
                            ScheduleOutcome::Completed { .. }) ==> final(self).schedule_of(
                            due[k],
                        ) is None
                    &&& forall|k: int|
                        0 <= k < due.len() && ((#[trigger] outcomes@[k]).1 matches
                            ScheduleOutcome::Failed { suspended: true, .. })
                            ==> final(self).is_suspended(due[k])
                },
            },
    {
        breaker.on_block_start();
        let ids = match self.ids_per_block.remove(&current_block) {
            Some(v) => v,
            None => {
                proof {
                    lemma_wf_preserved(old(self), self);
                }
                return Vec::new();
            },
        };
        proof {
            if old(self).wf() {
                assert forall|b: BlockNumber| #[trigger]
                    self.ids_count_at(b) <= self.spec_config().max_schedules_per_block by {
                    assert(old(self).ids_count_at(b) <= old(
                        self,
                    ).spec_config().max_schedules_per_block);
                    if b != current_block {
                        assert(self.ids_at(b) == old(self).ids_at(b));
                    }
                }
            }
        }
        let ghost d0 = *self;
        let mut outcomes: Vec<(ScheduleId, ScheduleOutcome)> = Vec::new();
        let mut i: usize = 0;
        while i < ids.len()
            invariant
                amms.wf(),
                self.wf(),
                breaker.wf(),
                self.spec_config() == old(self).spec_config(),
                self.ids_at(current_block) is None,
                i <= ids.len(),
                outcomes@.len() == i,
                forall|k: int| 0 <= k < i ==> (#[trigger] outcomes@[k]).0 == ids@[k],
                // a schedule untouched so far is exactly as the block began
                forall|x: ScheduleId|
                    d0.schedule_of(x) is Some && !d0.is_suspended(x) && !ids@.take(
                        i as int,
                    ).contains(x) ==> #[trigger] self.schedule_of(x) == d0.schedule_of(x)
                        && !self.is_suspended(x),
                forall|k: int|
                    0 <= k < i && (#[trigger] outcomes@[k]).1 is Skipped ==> d0.schedule_of(
                        ids@[k],
                    ) is None || d0.is_suspended(ids@[k]) || (exists|j: int|
                        0 <= j < k && ids@[j] == ids@[k]),
                forall|k: int|
                    0 <= k < i && ((#[trigger] outcomes@[k]).1 matches ScheduleOutcome::Completed {
                        ..
                    }) ==> self.schedule_of(ids@[k]) is None,
                forall|k: int|
                    0 <= k < i && ((#[trigger] outcomes@[k]).1 matches ScheduleOutcome::Failed {
                        suspended: true,
                        ..
                    }) ==> self.is_suspended(ids@[k]),
            decreases ids.len() - i,
        {
            let id = ids[i];
            let ghost pre = *self;
            let outcome = self.execute_schedule(amms, ledger, breaker, router, id, current_block);
            proof {
                if outcome is Skipped && d0.schedule_of(id) is Some && !d0.is_suspended(id)
                    && !ids@.take(i as int).contains(id) {
                    // an untouched, live schedule cannot be skipped
                    assert(pre.schedule_of(id) == d0.schedule_of(id));
                    assert(false);
                }
                assert(ids@.take(i + 1).drop_last() =~= ids@.take(i as int));
            }
            outcomes.push((id, outcome));
            proof {
                assert forall|x: ScheduleId|
                    d0.schedule_of(x) is Some && !d0.is_suspended(x) && !ids@.take(
                        i + 1,
                    ).contains(x) implies #[trigger] self.schedule_of(x) == d0.schedule_of(x)
                    && !self.is_suspended(x) by {
                    assert(!ids@.take(i as int).contains(x));
                    assert(ids@.take(i + 1)[i as int] == id);
                    assert(x != id);
                    assert(pre.schedule_of(x) == d0.schedule_of(x) && !pre.is_suspended(x));
                }
                assert forall|k: int|
                    0 <= k < i + 1 && ((#[trigger] outcomes@[k]).1 matches
                        ScheduleOutcome::Completed { .. }) implies self.schedule_of(
                    ids@[k],
                ) is None by {
                    if k < i && ids@[k] != id {
                        assert(self.schedule_of(ids@[k]) == pre.schedule_of(ids@[k]));
                    }
                    if k < i && ids@[k] == id {
                        // a removed schedule stays removed: processing it
                        // again only skips
                        assert(pre.schedule_of(ids@[k]) is None);
                    }
                }
                assert forall|k: int|
                    0 <= k < i + 1 && ((#[trigger] outcomes@[k]).1 matches ScheduleOutcome::Failed {
                        suspended: true,
                        ..
                    }) implies self.is_suspended(ids@[k]) by {
                    if k < i && ids@[k] != id {
                        assert(self.is_suspended(ids@[k]) == pre.is_suspended(ids@[k]));
                    }
                    if k < i && ids@[k] == id {
                        assert(pre.is_suspended(ids@[k]));
                    }
                }
            }
            i += 1;
        }
        proof {
            assert(ids@.take(ids@.len() as int) =~= ids@);
        }
        outcomes
    }

    /// Drop `id` from the bucket of `block`, if present.
    fn remove_from_block(&mut self, id: ScheduleId, block: BlockNumber)
        ensures
            *final(self) == (Dca { ids_per_block: final(self).ids_per_block, ..*old(self) }),
            forall|b: BlockNumber|
                b != block ==> #[trigger] final(self).ids_at(b) == old(self).ids_at(b),
            final(self).ids_count_at(block) <= old(self).ids_count_at(block),
            old(self).wf() ==> final(self).wf(),
    {
        let bucket = match self.ids_per_block.remove(&block) {
            Some(v) => v,
            None => {
                proof {
                    if old(self).wf() {
                        assert forall|b: BlockNumber| #[trigger]
                            self.ids_count_at(b) <= self.spec_config().max_schedules_per_block by {
                            assert(old(self).ids_count_at(b) <= old(
                                self,
                            ).spec_config().max_schedules_per_block);
                            if b != block {
                                assert(self.ids_at(b) == old(self).ids_at(b));
                            }
                        }
                    }
                }
                return ;
            },
        };
        let mut kept: Vec<ScheduleId> = Vec::new();
        let mut i: usize = 0;
        while i < bucket.len()
            invariant
                i <= bucket.len(),
                kept@.len() <= i,
            decreases bucket.len() - i,
        {
            if bucket[i] != id {
                kept.push(bucket[i]);
            }
            i += 1;
        }
        if kept.len() > 0 {
            self.ids_per_block.insert(block, kept);
        }
        proof {
            if old(self).wf() {
                assert forall|b: BlockNumber| #[trigger]
                    self.ids_count_at(b) <= self.spec_config().max_schedules_per_block by {
                    assert(old(self).ids_count_at(b) <= old(
                        self,
                    ).spec_config().max_schedules_per_block);
                    if b != block {
                        assert(self.ids_at(b) == old(self).ids_at(b));
                    }
                }
            }
        }
    }

    /// Append `id` to the bucket of `block`.
    fn add_to_block(&mut self, id: ScheduleId, block: BlockNumber)
        requires
            old(self).ids_count_at(block) < old(self).spec_config().max_schedules_per_block,
        ensures
            *final(self) == (Dca { ids_per_block: final(self).ids_per_block, ..*old(self) }),
            final(self).ids_at(block) == Some(
                match old(self).ids_at(block) {
                    Some(s) => s.push(id),
                    None => seq![id],
                },
            ),
            forall|b: BlockNumber|
                b != block ==> #[trigger] final(self).ids_at(b) == old(self).ids_at(b),
            old(self).wf() ==> final(self).wf(),
    {
        let mut bucket = match self.ids_per_block.remove(&block) {
            Some(v) => v,
            None => Vec::new(),
        };
        bucket.push(id);
        self.ids_per_block.insert(block, bucket);
        proof {
            if old(self).wf() {
                assert forall|b: BlockNumber| #[trigger]
                    self.ids_count_at(b) <= self.spec_config().max_schedules_per_block by {
                    if b == block {
                        assert(self.ids_count_at(b) == old(self).ids_count_at(block) + 1);
                    } else {
                        assert(old(self).ids_count_at(b) <= old(
                            self,
                        ).spec_config().max_schedules_per_block);
                        assert(self.ids_at(b) == old(self).ids_at(b));
                    }
                }
            }
        }
    }
}

} // verus!
