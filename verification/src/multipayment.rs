//! Fee payment in a currency of the payer's choice: a registry of
//! accepted fee currencies kept by a set of authorities, each account's
//! chosen currency, and the fee flow itself — a payer holding another
//! currency first buys the core asset through the pool, the fee is
//! withdrawn in the core asset, and any overcharge is refunded once the
//! true cost is known.

use std::collections::BTreeMap;
use vstd::prelude::*;

use crate::breaker::CircuitBreaker;
use crate::ledger::Ledger;
use crate::omnipool::Omnipool;
use crate::types::{AccountId, AssetId, Balance, PoolType};

verus! {

broadcast use vstd::laws_cmp::group_laws_cmp;

/// The asset fees are ultimately paid in.
pub const CORE_ASSET_ID: AssetId = 0;

/// Errors of the fee-payment flow.
#[derive(Clone, Copy, Debug, PartialEq, Eq, Structural)]
pub enum PaymentError {
    UnsupportedCurrency,
    ZeroBalance,
    NotAllowed,
    AlreadyAccepted,
    CoreAssetNotAllowed,
    Payment,
}

/// The fee-currency registry and each account's chosen fee currency.
pub struct MultiPayment {
    account_currencies: BTreeMap<AccountId, AssetId>,
    accepted_currencies: Vec<AssetId>,
    authorities: Vec<AccountId>,
}

fn asset_list_contains(v: &Vec<AssetId>, x: AssetId) -> (r: bool)
    ensures
        r == v@.contains(x),
{
    let mut i: usize = 0;
    while i < v.len()
        invariant
            i <= v.len(),
            forall|k: int| 0 <= k < i ==> v@[k] != x,
        decreases v.len() - i,
    {
        if v[i] == x {
            return true;
        }
        i += 1;
    }
    false
}

fn account_list_contains(v: &Vec<AccountId>, x: AccountId) -> (r: bool)
    ensures
        r == v@.contains(x),
{
    let mut i: usize = 0;
    while i < v.len()
        invariant
            i <= v.len(),
            forall|k: int| 0 <= k < i ==> v@[k] != x,
        decreases v.len() - i,
    {
        if v[i] == x {
            return true;
        }
        i += 1;
    }
    false
}

impl MultiPayment {
    /// The fee currency `who` chose, if any.
    pub closed spec fn currency_of(&self, who: AccountId) -> Option<AssetId> {
        if self.account_currencies@.contains_key(who) {
            Some(self.account_currencies@[who])
        } else {
            None
        }
    }

    pub closed spec fn spec_accepted(&self) -> Seq<AssetId> {
        self.accepted_currencies@
    }

    pub closed spec fn spec_authorities(&self) -> Seq<AccountId> {
        self.authorities@
    }

    pub fn new() -> (r: MultiPayment)
        ensures
            forall|w: AccountId| #[trigger] r.currency_of(w) is None,
            r.spec_accepted() == Seq::<AssetId>::empty(),
            r.spec_authorities() == Seq::<AccountId>::empty(),
    {
        MultiPayment {
            account_currencies: BTreeMap::new(),
            accepted_currencies: Vec::new(),
            authorities: Vec::new(),
        }
    }

    /// The currency `who` pays fees in; the core asset when none chosen.
    pub fn get_currency(&self, who: AccountId) -> (r: AssetId)
        ensures
            r == match self.currency_of(who) {
                Some(c) => c,
                None => CORE_ASSET_ID,
            },
    {
        match self.account_currencies.get(&who) {
            Some(c) => *c,
            None => CORE_ASSET_ID,
        }
    }

    /// Add `who` to the accounts allowed to curate the currency list.
    pub fn add_member(&mut self, who: AccountId)
        ensures
            final(self).spec_authorities() == old(self).spec_authorities().push(who),
            final(self).spec_accepted() == old(self).spec_accepted(),
            forall|w: AccountId| #[trigger] final(self).currency_of(w) == old(self).currency_of(w),
    {
        self.authorities.push(who);
    }

    /// Choose the currency `who` pays transaction fees in. The currency
    /// must be the core asset or an accepted one, and `who` must hold a
    /// nonzero balance of it.
    pub fn set_currency(
        &mut self,
        ledger: &Ledger,
        who: AccountId,
        currency: AssetId,
    ) -> (r: Result<(), PaymentError>)
        ensures
            forall|w: AccountId|
                w != who ==> #[trigger] final(self).currency_of(w) == old(self).currency_of(w),
            final(self).spec_accepted() == old(self).spec_accepted(),
            final(self).spec_authorities() == old(self).spec_authorities(),
            match r {
                Ok(()) => {
                    &&& (currency == CORE_ASSET_ID || old(self).spec_accepted().contains(currency))
                    &&& ledger.free_of(who, currency) > 0
                    &&& final(self).currency_of(who) == Some(currency)
                },
                Err(e) => {
                    &&& final(self).currency_of(who) == old(self).currency_of(who)
                    &&& (e == PaymentError::UnsupportedCurrency ==> currency != CORE_ASSET_ID
                        && !old(self).spec_accepted().contains(currency))
                    &&& (e == PaymentError::ZeroBalance ==> ledger.free_of(who, currency) == 0)
                    &&& (e == PaymentError::UnsupportedCurrency || e == PaymentError::ZeroBalance)
                },
            },
    {
        if currency == CORE_ASSET_ID || asset_list_contains(&self.accepted_currencies, currency) {
            if ledger.free_balance(currency, who) == 0 {
                return Err(PaymentError::ZeroBalance);
            }
            self.account_currencies.insert(who, currency);
            Ok(())
        } else {
            Err(PaymentError::UnsupportedCurrency)
        }
    }

    /// Accept a new fee currency; authorities only, never the core
    /// asset, never one already accepted.
    pub fn add_currency(&mut self, who: AccountId, currency: AssetId) -> (r: Result<
        (),
        PaymentError,
    >)
        ensures
            final(self).spec_authorities() == old(self).spec_authorities(),
            forall|w: AccountId| #[trigger] final(self).currency_of(w) == old(self).currency_of(w),
            match r {
                Ok(()) => {
                    &&& currency != CORE_ASSET_ID
                    &&& old(self).spec_authorities().contains(who)
                    &&& !old(self).spec_accepted().contains(currency)
                    &&& final(self).spec_accepted() == old(self).spec_accepted().push(currency)
                },
                Err(e) => {
                    &&& final(self).spec_accepted() == old(self).spec_accepted()
                    &&& (e == PaymentError::CoreAssetNotAllowed || e == PaymentError::NotAllowed
                        || e == PaymentError::AlreadyAccepted)
                    &&& (e == PaymentError::CoreAssetNotAllowed ==> currency == CORE_ASSET_ID)
                    &&& (e == PaymentError::NotAllowed ==> !old(self).spec_authorities().contains(
                        who,
                    ))
                    &&& (e == PaymentError::AlreadyAccepted ==> old(
                        self,
                    ).spec_accepted().contains(currency))
                    // accepting a fresh currency from an authority is owed
                    &&& (currency != CORE_ASSET_ID && old(self).spec_authorities().contains(who)
                        && !old(self).spec_accepted().contains(currency) ==> false)
                },
            },
    {
        if currency == CORE_ASSET_ID {
            return Err(PaymentError::CoreAssetNotAllowed);
        }
        if !account_list_contains(&self.authorities, who) {
            return Err(PaymentError::NotAllowed);
        }
        if asset_list_contains(&self.accepted_currencies, currency) {
            return Err(PaymentError::AlreadyAccepted);
        }
        self.accepted_currencies.push(currency);
        Ok(())
    }

    /// Drop an accepted fee currency; authorities only.
    pub fn remove_currency(&mut self, who: AccountId, currency: AssetId) -> (r: Result<
        (),
        PaymentError,
    >)
        ensures
            final(self).spec_authorities() == old(self).spec_authorities(),
            forall|w: AccountId| #[trigger] final(self).currency_of(w) == old(self).currency_of(w),
            match r {
                Ok(()) => {
                    &&& currency != CORE_ASSET_ID
                    &&& old(self).spec_authorities().contains(who)
                    &&& old(self).spec_accepted().contains(currency)
                    &&& !final(self).spec_accepted().contains(currency)
                    &&& forall|c: AssetId|
                        c != currency ==> (#[trigger] final(self).spec_accepted().contains(c)
                            <==> old(self).spec_accepted().contains(c))
                },
                Err(e) => {
                    &&& final(self).spec_accepted() == old(self).spec_accepted()
                    &&& (e == PaymentError::CoreAssetNotAllowed || e == PaymentError::NotAllowed
                        || e == PaymentError::UnsupportedCurrency)
                    &&& (e == PaymentError::CoreAssetNotAllowed ==> currency == CORE_ASSET_ID)
                    &&& (e == PaymentError::NotAllowed ==> !old(self).spec_authorities().contains(
                        who,
                    ))
                    &&& (e == PaymentError::UnsupportedCurrency ==> !old(
                        self,
                    ).spec_accepted().contains(currency))
                    // dropping an accepted currency from an authority is owed
                    &&& (currency != CORE_ASSET_ID && old(self).spec_authorities().contains(who)
                        && old(self).spec_accepted().contains(currency) ==> false)
                },
            },
    {
        if currency == CORE_ASSET_ID {
            return Err(PaymentError::CoreAssetNotAllowed);
        }
        if !account_list_contains(&self.authorities, who) {
            return Err(PaymentError::NotAllowed);
        }
        if !asset_list_contains(&self.accepted_currencies, currency) {
            return Err(PaymentError::UnsupportedCurrency);
        }
        let mut kept: Vec<AssetId> = Vec::new();
        let mut i: usize = 0;
        while i < self.accepted_currencies.len()
            invariant
                i <= self.accepted_currencies.len(),
                forall|c: AssetId|
                    #[trigger] kept@.contains(c) <==> self.accepted_currencies@.take(
                        i as int,
                    ).contains(c) && c != currency,
            decreases self.accepted_currencies.len() - i,
        {
            let c = self.accepted_currencies[i];
            proof {
                assert(self.accepted_currencies@.take(i + 1).drop_last() =~= self
                    .accepted_currencies@.take(i as int));
                assert(self.accepted_currencies@.take(i + 1).last() == c);
            }
            let ghost prev = kept@;
            if c != currency {
                kept.push(c);
                proof {
                    assert forall|x: AssetId| #[trigger]
                        kept@.contains(x) <==> (self.accepted_currencies@.take(i + 1).contains(x)
                            && x != currency) by {
                        if kept@.contains(x) {
                            let j = choose|j: int| 0 <= j < kept@.len() && kept@[j] == x;
                            if j < prev.len() {
                                assert(prev.contains(x));
                            }
                        }
                        if self.accepted_currencies@.take(i + 1).contains(x) && x != currency {
                            let j = choose|j: int|
                                0 <= j < i + 1 && #[trigger] self.accepted_currencies@.take(
                                    i + 1,
                                )[j] == x;
                            if j < i {
                                assert(self.accepted_currencies@.take(i as int)[j] == x);
                                assert(self.accepted_currencies@.take(i as int).contains(x));
                                assert(prev.contains(x));
                                let k = choose|k: int| 0 <= k < prev.len() && #[trigger] prev[k]
                                    == x;
                                assert(kept@[k] == x);
                            } else {
                                assert(kept@.last() == x);
                            }
                        }
                    }
                }
            } else {
                proof {
                    assert forall|x: AssetId| #[trigger]
                        kept@.contains(x) <==> (self.accepted_currencies@.take(i + 1).contains(x)
                            && x != currency) by {
                        if self.accepted_currencies@.take(i + 1).contains(x) && x != currency {
                            let j = choose|j: int|
                                0 <= j < i + 1 && #[trigger] self.accepted_currencies@.take(
                                    i + 1,
                                )[j] == x;
                            assert(self.accepted_currencies@.take(i as int)[j] == x);
                            assert(self.accepted_currencies@.take(i as int).contains(x));
                        }
                    }
                }
            }
            i += 1;
        }
        proof {
            assert(self.accepted_currencies@.take(self.accepted_currencies@.len() as int) =~= self
                .accepted_currencies@);
        }
        self.accepted_currencies = kept;
        Ok(())
    }

    /// Make `who` able to pay a fee of `fee` in the core asset: when the
    /// chosen fee currency is another one, buy exactly `fee` of the core
    /// asset through the pool, spending at most twice the fee.
    pub fn swap_currency(
        &self,
        pool: &Omnipool,
        ledger: &mut Ledger,
        breaker: &mut CircuitBreaker,
        who: AccountId,
        fee: Balance,
    ) -> (r: Result<(), PaymentError>)
        requires
            pool.wf(),
            old(breaker).wf(),
            fee <= Balance::MAX / 2,
        ensures
            final(breaker).wf(),
            ({
                let cur = match self.currency_of(who) {
                    Some(c) => c,
                    None => CORE_ASSET_ID,
                };
                &&& (cur != CORE_ASSET_ID ==> match pool.spec_execute_buy(
                    old(ledger),
                    old(breaker),
                    who,
                    cur,
                    CORE_ASSET_ID,
                    fee,
                    (2 * fee) as Balance,
                ) {
                    Ok(amount_in) => {
                        let acct = pool.spec_pool_account();
                        &&& r == Ok::<(), PaymentError>(())
                        &&& final(ledger).free_of(who, cur) == old(ledger).free_of(who, cur)
                            - amount_in
                        &&& final(ledger).free_of(who, CORE_ASSET_ID) == old(ledger).free_of(
                            who,
                            CORE_ASSET_ID,
                        ) + fee
                        &&& final(ledger).free_of(acct, cur) == old(ledger).free_of(acct, cur)
                            + amount_in
                        &&& final(ledger).free_of(acct, CORE_ASSET_ID) == old(ledger).free_of(
                            acct,
                            CORE_ASSET_ID,
                        ) - fee
                        &&& forall|w: AccountId, a: AssetId|
                            !((w == who || w == pool.spec_pool_account()) && (a == cur || a
                                == CORE_ASSET_ID)) ==> #[trigger] final(ledger).entry_of(w, a)
                                == old(ledger).entry_of(w, a)
                    },
                    Err(_) => r == Err::<(), PaymentError>(PaymentError::Payment)
                        && final(ledger).agrees(old(ledger))
                        && final(breaker).agrees(old(breaker)),
                })
                &&& (cur == CORE_ASSET_ID ==> r == Ok::<(), PaymentError>(())
                    && final(ledger).agrees(old(ledger))
                    && final(breaker).agrees(old(breaker)))
            }),
    {
        let fee_currency = self.get_currency(who);
        if fee_currency == CORE_ASSET_ID {
            return Ok(());
        }
        match pool.execute_buy(
            who,
            PoolType::Omnipool,
            fee_currency,
            CORE_ASSET_ID,
            fee,
            2 * fee,
            ledger,
            breaker,
        ) {
            Ok(()) => Ok(()),
            Err(_) => Err(PaymentError::Payment),
        }
    }

    /// Withdraw the predicted fee from `who`, swapping into the core
    /// asset first when another fee currency is chosen. Returns what was
    /// withdrawn, to be settled by `correct_and_deposit_fee`.
    pub fn withdraw_fee(
        &self,
        pool: &Omnipool,
        ledger: &mut Ledger,
        breaker: &mut CircuitBreaker,
        who: AccountId,
        fee: Balance,
    ) -> (r: Result<Balance, PaymentError>)
        requires
            pool.wf(),
            old(breaker).wf(),
            fee <= Balance::MAX / 2,
        ensures
            final(breaker).wf(),
            fee == 0 ==> r == Ok::<Balance, PaymentError>(0) && final(ledger).agrees(old(ledger)),
            match r {
                Ok(paid) => paid == fee,
                Err(e) => e == PaymentError::Payment && final(ledger).agrees(old(ledger))
                    && final(breaker).agrees(old(breaker)),
            },
            ({
                let cur = match self.currency_of(who) {
                    Some(c) => c,
                    None => CORE_ASSET_ID,
                };
                &&& (fee > 0 && cur == CORE_ASSET_ID ==> {
                    &&& (r is Ok <==> old(ledger).free_of(who, CORE_ASSET_ID) >= fee)
                    &&& (r is Ok ==> final(ledger).free_of(who, CORE_ASSET_ID) == old(
                        ledger,
                    ).free_of(who, CORE_ASSET_ID) - fee && final(ledger).unchanged_except(
                        old(ledger),
                        who,
                        CORE_ASSET_ID,
                    ))
                })
                &&& (fee > 0 && cur != CORE_ASSET_ID ==> match pool.spec_execute_buy(
                    old(ledger),
                    old(breaker),
                    who,
                    cur,
                    CORE_ASSET_ID,
                    fee,
                    (2 * fee) as Balance,
                ) {
                    Err(_) => r is Err,
                    Ok(amount_in) => {
                        let acct = pool.spec_pool_account();
                        &&& r is Ok
                        &&& final(ledger).free_of(who, cur) == old(ledger).free_of(who, cur)
                            - amount_in
                        &&& final(ledger).free_of(who, CORE_ASSET_ID) == old(ledger).free_of(
                            who,
                            CORE_ASSET_ID,
                        )
                        &&& final(ledger).free_of(acct, cur) == old(ledger).free_of(acct, cur)
                            + amount_in
                        &&& final(ledger).free_of(acct, CORE_ASSET_ID) == old(ledger).free_of(
                            acct,
                            CORE_ASSET_ID,
                        ) - fee
                    },
                })
            }),
    {
        if fee == 0 {
            return Ok(0);
        }
        let cur = self.get_currency(who);
        if cur == CORE_ASSET_ID {
            return match ledger.withdraw(CORE_ASSET_ID, who, fee) {
                Ok(()) => Ok(fee),
                Err(_) => Err(PaymentError::Payment),
            };
        }
        if let Err(_) = self.swap_currency(pool, ledger, breaker, who, fee) {
            return Err(PaymentError::Payment);
        }
        match ledger.withdraw(CORE_ASSET_ID, who, fee) {
            Ok(()) => Ok(fee),
            Err(_) => {
                proof {
                    assert(false);
                }
                Err(PaymentError::Payment)
            },
        }
    }

    /// Settle a withdrawn fee once the true cost is known: refund the
    /// overcharge to `who` and hand the corrected fee to the receiver,
    /// or fail with no effect when a balance cannot take the deposit.
    pub fn correct_and_deposit_fee(
        &self,
        ledger: &mut Ledger,
        who: AccountId,
        fee_receiver: AccountId,
        corrected_fee: Balance,
        paid: Balance,
    ) -> (r: Result<(), PaymentError>)
        ensures
            ({
                let refund = if paid >= corrected_fee {
                    (paid - corrected_fee) as Balance
                } else {
                    0
                };
                let rest = (paid - refund) as Balance;
                let overflows = old(ledger).free_of(who, CORE_ASSET_ID) + refund > Balance::MAX
                    || (if who == fee_receiver {
                    old(ledger).free_of(who, CORE_ASSET_ID) + paid > Balance::MAX
                } else {
                    old(ledger).free_of(fee_receiver, CORE_ASSET_ID) + rest > Balance::MAX
                });
                match r {
                    Ok(()) => {
                        &&& !overflows
                        &&& (who == fee_receiver ==> final(ledger).free_of(who, CORE_ASSET_ID)
                            == old(ledger).free_of(who, CORE_ASSET_ID) + paid)
                        &&& (who != fee_receiver ==> final(ledger).free_of(who, CORE_ASSET_ID)
                            == old(ledger).free_of(who, CORE_ASSET_ID) + refund
                            && final(ledger).free_of(fee_receiver, CORE_ASSET_ID)
                            == old(ledger).free_of(fee_receiver, CORE_ASSET_ID) + rest)
                        &&& final(ledger).unchanged_except_two(
                            old(ledger),
                            who,
                            fee_receiver,
                            CORE_ASSET_ID,
                        )
                    },
                    Err(e) => {
                        &&& e == PaymentError::Payment
                        &&& overflows
                        &&& final(ledger).agrees(old(ledger))
                    },
                }
            }),
    {
        let refund = if paid >= corrected_fee {
            paid - corrected_fee
        } else {
            0
        };
        let rest = paid - refund;
        if ledger.free_balance(CORE_ASSET_ID, who) > Balance::MAX - refund {
            return Err(PaymentError::Payment);
        }
        if who == fee_receiver {
            if ledger.free_balance(CORE_ASSET_ID, who) > Balance::MAX - paid {
                return Err(PaymentError::Payment);
            }
        } else {
            if ledger.free_balance(CORE_ASSET_ID, fee_receiver) > Balance::MAX - rest {
                return Err(PaymentError::Payment);
            }
        }
        match ledger.deposit(CORE_ASSET_ID, who, refund) {
            Ok(()) => (),
            Err(_) => {
                proof {
                    assert(false);
                }
            },
        }
        match ledger.deposit(CORE_ASSET_ID, fee_receiver, rest) {
            Ok(()) => (),
            Err(_) => {
                proof {
                    assert(false);
                }
            },
        }
        Ok(())
    }
}

} // verus!
