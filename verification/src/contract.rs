use vstd::prelude::*;

use vstd::arithmetic::div_mod::{
    lemma_div_multiples_vanish, lemma_div_nonincreasing, lemma_div_pos_is_pos,
};

use crate::errors::OptionsError;
use crate::math::{
    collateral_fits, collateral_for, payoff_fits, payoff_for, premium_fits, premium_for,
    spec_collateral, spec_premium, spec_raw_payoff,
};
use crate::sums::{
    collaterals_nonneg, entries_nonneg, entries_unique, lemma_live_le_sum_locked,
    lemma_shares_of_absent, lemma_shares_of_at, lemma_shares_of_le_sum, lemma_shares_of_push,
    lemma_shares_of_update, lemma_sum_locked_absent, lemma_sum_locked_push,
    lemma_sum_locked_update, lemma_sum_shares_absent, lemma_sum_shares_push,
    lemma_sum_shares_update, shares_of, sum_locked, sum_shares,
};
use crate::types::{LpShare, OptionData, OptionType, PoolData, PoolLedger, PriceData};

verus! {

/// A single pool's aggregates are coherent: collateral is a non-negative
/// part of liquidity, shares are non-negative, and a pool with outstanding
/// shares has liquidity behind them. (The converse need not hold: premiums
/// accrue to liquidity without minting shares, so a pool can hold
/// liquidity while no shares are outstanding.)
pub open spec fn ledger_wf(l: PoolLedger) -> bool {
    &&& 0 <= l.locked_collateral
    &&& l.locked_collateral <= l.total_liquidity
    &&& l.total_lp_shares >= 0
    &&& (l.total_lp_shares > 0 ==> l.total_liquidity > 0)
}

/// Shares a deposit of `amount` buys at the pool's current net asset value:
/// one-for-one into an empty pool, pro-rata otherwise.
pub open spec fn spec_deposit_shares(amount: int, l: PoolLedger) -> int {
    if l.total_lp_shares == 0 {
        amount
    } else {
        amount * (l.total_lp_shares as int) / (l.total_liquidity as int)
    }
}

/// The deposit bookkeeping stays within `i128`.
pub open spec fn deposit_fits(l: PoolLedger, amount: int) -> bool {
    &&& (l.total_lp_shares > 0 ==> amount * l.total_lp_shares <= i128::MAX)
    &&& l.total_liquidity + amount <= i128::MAX
    &&& l.total_lp_shares + spec_deposit_shares(amount, l) <= i128::MAX
}

/// Settlement-asset value of redeeming `share_amount` shares: their
/// pro-rata slice of the pool's liquidity, floored.
pub open spec fn spec_pro_rata(share_amount: int, l: PoolLedger) -> int {
    share_amount * (l.total_liquidity as int) / (l.total_lp_shares as int)
}

/// The withdrawal product stays within `i128`.
pub open spec fn withdraw_fits(l: PoolLedger, share_amount: int) -> bool {
    share_amount * l.total_liquidity <= i128::MAX
}

/// The whole venue: admin identity, both identifier counters, and the four
/// record stores. Pool `i`'s configuration and aggregates sit at index `i`
/// of `pools` and `ledgers`; option `j` sits at index `j` of `options`;
/// provider balances are an association list with unique (pool, provider)
/// keys. The embedding persists this state between calls and performs the
/// token transfers the operations report.
#[derive(Clone)]
pub struct OptionsContract {
    /// The principal allowed to add pools, pause them and retarget feeds.
    pub admin: Option<u64>,
    /// Next pool identifier; equals the number of pools ever created.
    pub pool_counter: u64,
    /// Next option identifier; equals the number of options ever issued.
    pub option_counter: u64,
    pub pools: Vec<PoolData>,
    pub ledgers: Vec<PoolLedger>,
    pub positions: Vec<LpShare>,
    pub options: Vec<OptionData>,
}

impl OptionsContract {
    pub open spec fn has_pool(self, pool_id: u64) -> bool {
        pool_id < self.pool_counter
    }

    pub open spec fn spec_pool(self, pool_id: u64) -> PoolData {
        self.pools@[pool_id as int]
    }

    pub open spec fn spec_ledger(self, pool_id: u64) -> PoolLedger {
        self.ledgers@[pool_id as int]
    }

    pub open spec fn has_option(self, option_id: u64) -> bool {
        option_id < self.option_counter
    }

    pub open spec fn spec_option(self, option_id: u64) -> OptionData {
        self.options@[option_id as int]
    }

    /// The share balance recorded for `(pool_id, provider)`, zero if none.
    pub open spec fn spec_shares(self, pool_id: u64, provider: u64) -> int {
        shares_of(self.positions@, pool_id, provider)
    }

    /// Liquidity not reserved against live options; the most a withdrawal
    /// or a new option's collateral may take.
    pub open spec fn unlocked(self, pool_id: u64) -> int {
        self.spec_ledger(pool_id).total_liquidity - self.spec_ledger(pool_id).locked_collateral
    }

    /// Well-formedness: the invariant every operation preserves.
    ///
    /// Chief among its clauses: for every pool,
    /// `0 <= locked_collateral <= total_liquidity`, the recorded share
    /// total equals the sum of its providers' balances, and the recorded
    /// locked collateral equals the sum of its live options' reservations
    /// (so settling an option can release its collateral exactly once).
    pub open spec fn wf(self) -> bool {
        &&& self.pools@.len() == self.pool_counter as nat
        &&& self.ledgers@.len() == self.pool_counter as nat
        &&& self.options@.len() == self.option_counter as nat
        &&& (forall|i: int| #![trigger self.pools@[i]]
            0 <= i < self.pools@.len() ==> self.pools@[i].pool_id == i as u64)
        &&& (forall|i: int| #![trigger self.ledgers@[i]]
            0 <= i < self.ledgers@.len() ==> {
                &&& ledger_wf(self.ledgers@[i])
                &&& self.ledgers@[i].total_lp_shares as int == sum_shares(
                    self.positions@,
                    i as u64,
                )
                &&& self.ledgers@[i].locked_collateral as int == sum_locked(
                    self.options@,
                    i as u64,
                )
            })
        &&& entries_nonneg(self.positions@)
        &&& entries_unique(self.positions@)
        &&& (forall|k: int| #![trigger self.positions@[k]]
            0 <= k < self.positions@.len() ==> self.positions@[k].pool_id < self.pool_counter)
        &&& collaterals_nonneg(self.options@)
        &&& (forall|j: int| #![trigger self.options@[j]]
            0 <= j < self.options@.len() ==> {
                &&& self.options@[j].pool_id < self.pool_counter
                &&& self.options@[j].strike > 0
                &&& self.options@[j].amount > 0
                &&& self.options@[j].premium_paid >= 0
                &&& (self.options@[j].is_active ==> !self.options@[j].is_exercised)
            })
        &&& (forall|i: int, j: int| #![trigger self.pools@[i], self.pools@[j]]
            0 <= i < j < self.pools@.len() ==> !(self.pools@[i].stable_token
                == self.pools@[j].stable_token && self.pools@[i].underlying_asset
                == self.pools@[j].underlying_asset))
    }

    /// A venue with no admin, no pools and no options.
    pub fn new() -> (r: Self)
        ensures
            r.wf(),
            r.admin is None,
            r.pool_counter == 0,
            r.option_counter == 0,
            r.positions@.len() == 0,
    {
        OptionsContract {
            admin: None,
            pool_counter: 0,
            option_counter: 0,
            pools: Vec::new(),
            ledgers: Vec::new(),
            positions: Vec::new(),
            options: Vec::new(),
        }
    }

    /// Record the admin. Succeeds exactly once; the host must have
    /// authenticated `admin` before the call.
    pub fn initialize(&mut self, admin: u64) -> (r: Result<(), OptionsError>)
        requires
            old(self).wf(),
        ensures
            final(self).wf(),
            r is Ok <==> old(self).admin is None,
            r is Ok ==> *final(self) == (OptionsContract { admin: Some(admin), ..*old(self) }),
            r matches Err(e) ==> e == OptionsError::AlreadyInitialized && *final(self) == *old(
                self,
            ),
    {
        if self.admin.is_some() {
            return Err(OptionsError::AlreadyInitialized);
        }
        self.admin = Some(admin);
        Ok(())
    }

    /// The index of pool `pool_id` in the record stores, if it exists.
    fn pool_index(&self, pool_id: u64) -> (r: Option<usize>)
        requires
            self.wf(),
        ensures
            match r {
                Some(k) => self.has_pool(pool_id) && k as int == pool_id as int && (k as nat)
                    < self.pools@.len(),
                None => !self.has_pool(pool_id),
            },
    {
        if pool_id < self.pool_counter {
            let n = self.pools.len();
            proof {
                assert(n as nat == self.pools@.len());
                assert((pool_id as nat) < n as nat);
            }
            Some(pool_id as usize)
        } else {
            None
        }
    }

    /// The index of option `option_id` in the record store, if it exists.
    fn option_index(&self, option_id: u64) -> (r: Option<usize>)
        requires
            self.wf(),
        ensures
            match r {
                Some(k) => self.has_option(option_id) && k as int == option_id as int && (k as nat)
                    < self.options@.len(),
                None => !self.has_option(option_id),
            },
    {
        if option_id < self.option_counter {
            let n = self.options.len();
            proof {
                assert(n as nat == self.options@.len());
                assert((option_id as nat) < n as nat);
            }
            Some(option_id as usize)
        } else {
            None
        }
    }

    /// The index of the balance entry for `(pool_id, provider)`, if any.
    fn position_index(&self, pool_id: u64, provider: u64) -> (r: Option<usize>)
        requires
            entries_unique(self.positions@),
        ensures
            match r {
                Some(k) => {
                    &&& (k as nat) < self.positions@.len()
                    &&& self.positions@[k as int].pool_id == pool_id
                    &&& self.positions@[k as int].provider == provider
                    &&& self.spec_shares(pool_id, provider) == self.positions@[k as int].shares
                        as int
                },
                None => {
                    &&& self.spec_shares(pool_id, provider) == 0
                    &&& (forall|i: int| #![trigger self.positions@[i]]
                        0 <= i < self.positions@.len() ==> !(self.positions@[i].pool_id == pool_id
                            && self.positions@[i].provider == provider))
                },
            },
    {
        let n = self.positions.len();
        let mut k: usize = 0;
        while k < n
            invariant
                n == self.positions@.len(),
                k <= n,
                entries_unique(self.positions@),
                forall|i: int| #![trigger self.positions@[i]]
                    0 <= i < k ==> !(self.positions@[i].pool_id == pool_id
                        && self.positions@[i].provider == provider),
            decreases n - k,
        {
            if self.positions[k].pool_id == pool_id && self.positions[k].provider == provider {
                proof {
                    lemma_shares_of_at(self.positions@, k as int);
                }
                return Some(k);
            }
            k += 1;
        }
        proof {
            lemma_shares_of_absent(self.positions@, pool_id, provider);
        }
        None
    }

    /// The pool registered for a (settlement, underlying) pair, if any.
    fn pool_index_by_pair(&self, stable_token: u64, underlying_asset: u64) -> (r: Option<usize>)
        requires
            self.wf(),
        ensures
            match r {
                Some(k) => {
                    &&& (k as nat) < self.pools@.len()
                    &&& self.pools@[k as int].stable_token == stable_token
                    &&& self.pools@[k as int].underlying_asset == underlying_asset
                },
                None => (forall|i: int| #![trigger self.pools@[i]]
                    0 <= i < self.pools@.len() ==> !(self.pools@[i].stable_token == stable_token
                        && self.pools@[i].underlying_asset == underlying_asset)),
            },
    {
        let n = self.pools.len();
        let mut k: usize = 0;
        while k < n
            invariant
                n == self.pools@.len(),
                k <= n,
                forall|i: int| #![trigger self.pools@[i]]
                    0 <= i < k ==> !(self.pools@[i].stable_token == stable_token
                        && self.pools@[i].underlying_asset == underlying_asset),
            decreases n - k,
        {
            if self.pools[k].stable_token == stable_token && self.pools[k].underlying_asset
                == underlying_asset {
                return Some(k);
            }
            k += 1;
        }
        None
    }

    pub fn get_pool_counter(&self) -> (r: u64)
        ensures
            r == self.pool_counter,
    {
        self.pool_counter
    }

    pub fn get_option_counter(&self) -> (r: u64)
        ensures
            r == self.option_counter,
    {
        self.option_counter
    }

    pub fn get_admin(&self) -> (r: Result<u64, OptionsError>)
        ensures
            r is Ok <==> self.admin is Some,
            r matches Ok(a) ==> self.admin == Some(a),
            r matches Err(e) ==> e == OptionsError::NotInitialized,
    {
        match self.admin {
            Some(a) => Ok(a),
            None => Err(OptionsError::NotInitialized),
        }
    }

    pub fn get_pool(&self, pool_id: u64) -> (r: Result<PoolData, OptionsError>)
        requires
            self.wf(),
        ensures
            r is Ok <==> self.has_pool(pool_id),
            r matches Ok(p) ==> {
                &&& p.pool_id == self.spec_pool(pool_id).pool_id
                &&& p.stable_token == self.spec_pool(pool_id).stable_token
                &&& p.underlying_asset == self.spec_pool(pool_id).underlying_asset
                &&& p.price_feed == self.spec_pool(pool_id).price_feed
                &&& p.name@ == self.spec_pool(pool_id).name@
                &&& p.is_active == self.spec_pool(pool_id).is_active
            },
            r matches Err(e) ==> e == OptionsError::PoolNotFound,
    {
        match self.pool_index(pool_id) {
            Some(k) => Ok(self.pools[k].clone()),
            None => Err(OptionsError::PoolNotFound),
        }
    }

    /// The pool registered for the pair, mirroring the directory lookup.
    pub fn get_pool_by_assets(&self, stable_token: u64, underlying_asset: u64) -> (r: Result<
        u64,
        OptionsError,
    >)
        requires
            self.wf(),
        ensures
            r is Ok <==> (exists|i: int| #![trigger self.pools@[i]]
                0 <= i < self.pools@.len() && self.pools@[i].stable_token == stable_token
                    && self.pools@[i].underlying_asset == underlying_asset),
            r matches Ok(id) ==> {
                &&& self.has_pool(id)
                &&& self.spec_pool(id).stable_token == stable_token
                &&& self.spec_pool(id).underlying_asset == underlying_asset
            },
            r matches Err(e) ==> e == OptionsError::PoolNotFound,
    {
        match self.pool_index_by_pair(stable_token, underlying_asset) {
            Some(k) => Ok(self.pools[k].pool_id),
            None => Err(OptionsError::PoolNotFound),
        }
    }

    pub fn get_pool_total_liquidity(&self, pool_id: u64) -> (r: i128)
        requires
            self.wf(),
        ensures
            r == if self.has_pool(pool_id) {
                self.spec_ledger(pool_id).total_liquidity
            } else {
                0
            },
    {
        match self.pool_index(pool_id) {
            Some(k) => self.ledgers[k].total_liquidity,
            None => 0,
        }
    }

    pub fn get_pool_locked_collateral(&self, pool_id: u64) -> (r: i128)
        requires
            self.wf(),
        ensures
            r == if self.has_pool(pool_id) {
                self.spec_ledger(pool_id).locked_collateral
            } else {
                0
            },
    {
        match self.pool_index(pool_id) {
            Some(k) => self.ledgers[k].locked_collateral,
            None => 0,
        }
    }

    pub fn get_pool_total_lp_shares(&self, pool_id: u64) -> (r: i128)
        requires
            self.wf(),
        ensures
            r == if self.has_pool(pool_id) {
                self.spec_ledger(pool_id).total_lp_shares
            } else {
                0
            },
    {
        match self.pool_index(pool_id) {
            Some(k) => self.ledgers[k].total_lp_shares,
            None => 0,
        }
    }

    pub fn get_pool_lp_shares(&self, pool_id: u64, provider: u64) -> (r: i128)
        requires
            self.wf(),
        ensures
            r as int == self.spec_shares(pool_id, provider),
    {
        match self.position_index(pool_id, provider) {
            Some(k) => self.positions[k].shares,
            None => 0,
        }
    }

    pub fn get_option(&self, option_id: u64) -> (r: Result<OptionData, OptionsError>)
        requires
            self.wf(),
        ensures
            r is Ok <==> self.has_option(option_id),
            r matches Ok(o) ==> o == self.spec_option(option_id),
            r matches Err(e) ==> e == OptionsError::OptionNotFound,
    {
        match self.option_index(option_id) {
            Some(k) => Ok(self.options[k]),
            None => Err(OptionsError::OptionNotFound),
        }
    }

    /// Judge an oracle answer: the quoted price, or `InvalidPrice` when the
    /// feed had nothing to report. The host fetches the observation from
    /// the pool's configured feed and passes it in unchanged.
    pub fn get_price_from_feed(quote: Option<PriceData>) -> (r: Result<i128, OptionsError>)
        ensures
            r is Ok <==> quote is Some,
            r matches Ok(p) ==> quote matches Some(q) && p == q.price,
            r matches Err(e) ==> e == OptionsError::InvalidPrice,
    {
        match quote {
            Some(q) => Ok(q.price),
            None => Err(OptionsError::InvalidPrice),
        }
    }

    /// Every created pool's identifier, in creation order. Identifiers are
    /// never retired, so this is exactly `0 .. pool_counter`.
    pub fn get_all_pools(&self) -> (r: Vec<u64>)
        requires
            self.wf(),
        ensures
            r@.len() == self.pool_counter as nat,
            forall|i: int| #![trigger r@[i]] 0 <= i < r@.len() ==> r@[i] == i as u64,
    {
        let mut out: Vec<u64> = Vec::new();
        let mut next: u64 = 0;
        while next < self.pool_counter
            invariant
                next <= self.pool_counter,
                out@.len() == next as nat,
                forall|i: int| #![trigger out@[i]] 0 <= i < out@.len() ==> out@[i] == i as u64,
            decreases self.pool_counter - next,
        {
            out.push(next);
            next += 1;
        }
        out
    }

    /// Admin-only: pause or resume trading on a pool. Existing positions
    /// and options are untouched; only new activity is gated.
    pub fn set_pool_status(&mut self, caller: u64, pool_id: u64, is_active: bool) -> (r: Result<
        (),
        OptionsError,
    >)
        requires
            old(self).wf(),
        ensures
            final(self).wf(),
            r is Ok <==> (old(self).admin == Some(caller) && old(self).has_pool(pool_id)),
            r is Ok ==> ({
                &&& final(self).pools@.len() == old(self).pools@.len()
                &&& final(self).spec_pool(pool_id).is_active == is_active
                &&& final(self).spec_pool(pool_id).pool_id == old(self).spec_pool(pool_id).pool_id
                &&& final(self).spec_pool(pool_id).stable_token == old(self).spec_pool(
                    pool_id,
                ).stable_token
                &&& final(self).spec_pool(pool_id).underlying_asset == old(self).spec_pool(
                    pool_id,
                ).underlying_asset
                &&& final(self).spec_pool(pool_id).price_feed == old(self).spec_pool(
                    pool_id,
                ).price_feed
                &&& final(self).spec_pool(pool_id).name@ == old(self).spec_pool(pool_id).name@
                &&& (forall|i: int| #![trigger final(self).pools@[i]]
                    0 <= i < final(self).pools@.len() && i != pool_id as int ==> final(self).pools@[i] == old(self).pools@[i])
                &&& final(self).ledgers@ == old(self).ledgers@
                &&& final(self).positions@ == old(self).positions@
                &&& final(self).options@ == old(self).options@
                &&& final(self).pool_counter == old(self).pool_counter
                &&& final(self).option_counter == old(self).option_counter
                &&& final(self).admin == old(self).admin
            }),
            r matches Err(e) ==> *final(self) == *old(self) && ({
                &&& (e == OptionsError::NotInitialized <==> old(self).admin is None)
                &&& (e == OptionsError::Unauthorized <==> old(self).admin is Some && old(
                    self,
                ).admin != Some(caller))
                &&& (e == OptionsError::PoolNotFound <==> old(self).admin == Some(caller) && !old(
                    self,
                ).has_pool(pool_id))
            }),
    {
        let admin = match self.admin {
            Some(a) => a,
            None => {
                return Err(OptionsError::NotInitialized);
            },
        };
        if admin != caller {
            return Err(OptionsError::Unauthorized);
        }
        let k = match self.pool_index(pool_id) {
            Some(k) => k,
            None => {
                return Err(OptionsError::PoolNotFound);
            },
        };
        self.pools[k].is_active = is_active;
        Ok(())
    }

    /// Admin-only: point a pool at a different oracle feed.
    pub fn update_pool_price_feed(&mut self, caller: u64, pool_id: u64, new_feed: u64) -> (r:
        Result<(), OptionsError>)
        requires
            old(self).wf(),
        ensures
            final(self).wf(),
            r is Ok <==> (old(self).admin == Some(caller) && old(self).has_pool(pool_id)),
            r is Ok ==> ({
                &&& final(self).pools@.len() == old(self).pools@.len()
                &&& final(self).spec_pool(pool_id).price_feed == new_feed
                &&& final(self).spec_pool(pool_id).pool_id == old(self).spec_pool(pool_id).pool_id
                &&& final(self).spec_pool(pool_id).stable_token == old(self).spec_pool(
                    pool_id,
                ).stable_token
                &&& final(self).spec_pool(pool_id).underlying_asset == old(self).spec_pool(
                    pool_id,
                ).underlying_asset
                &&& final(self).spec_pool(pool_id).is_active == old(self).spec_pool(
                    pool_id,
                ).is_active
                &&& final(self).spec_pool(pool_id).name@ == old(self).spec_pool(pool_id).name@
                &&& (forall|i: int| #![trigger final(self).pools@[i]]
                    0 <= i < final(self).pools@.len() && i != pool_id as int ==> final(self).pools@[i] == old(self).pools@[i])
                &&& final(self).ledgers@ == old(self).ledgers@
                &&& final(self).positions@ == old(self).positions@
                &&& final(self).options@ == old(self).options@
                &&& final(self).pool_counter == old(self).pool_counter
                &&& final(self).option_counter == old(self).option_counter
                &&& final(self).admin == old(self).admin
            }),
            r matches Err(e) ==> *final(self) == *old(self) && ({
                &&& (e == OptionsError::NotInitialized <==> old(self).admin is None)
                &&& (e == OptionsError::Unauthorized <==> old(self).admin is Some && old(
                    self,
                ).admin != Some(caller))
                &&& (e == OptionsError::PoolNotFound <==> old(self).admin == Some(caller) && !old(
                    self,
                ).has_pool(pool_id))
            }),
    {
        let admin = match self.admin {
            Some(a) => a,
            None => {
                return Err(OptionsError::NotInitialized);
            },
        };
        if admin != caller {
            return Err(OptionsError::Unauthorized);
        }
        let k = match self.pool_index(pool_id) {
            Some(k) => k,
            None => {
                return Err(OptionsError::PoolNotFound);
            },
        };
        self.pools[k].price_feed = new_feed;
        Ok(())
    }

    /// Admin-only: register a new pool for a (settlement, underlying) pair
    /// that has none yet. The pool starts active with all-zero accounting
    /// and takes the next identifier.
    pub fn add_liquidity_pool(
        &mut self,
        caller: u64,
        stable_token: u64,
        underlying_asset: u64,
        price_feed: u64,
        name: String,
    ) -> (r: Result<u64, OptionsError>)
        requires
            old(self).wf(),
        ensures
            final(self).wf(),
            r is Ok <==> ({
                &&& old(self).admin == Some(caller)
                &&& !(exists|i: int| #![trigger old(self).pools@[i]]
                    0 <= i < old(self).pools@.len() && old(self).pools@[i].stable_token
                        == stable_token && old(self).pools@[i].underlying_asset
                        == underlying_asset)
                &&& old(self).pool_counter < u64::MAX
            }),
            r matches Ok(id) ==> ({
                &&& id == old(self).pool_counter
                &&& final(self).pool_counter == old(self).pool_counter + 1
                &&& final(self).pools@.len() == old(self).pools@.len() + 1
                &&& final(self).spec_pool(id).pool_id == id
                &&& final(self).spec_pool(id).stable_token == stable_token
                &&& final(self).spec_pool(id).underlying_asset == underlying_asset
                &&& final(self).spec_pool(id).price_feed == price_feed
                &&& final(self).spec_pool(id).name@ == name@
                &&& final(self).spec_pool(id).is_active
                &&& final(self).spec_ledger(id).total_liquidity == 0
                &&& final(self).spec_ledger(id).locked_collateral == 0
                &&& final(self).spec_ledger(id).total_lp_shares == 0
                &&& (forall|i: int| #![trigger final(self).pools@[i]]
                    0 <= i < old(self).pools@.len() ==> final(self).pools@[i] == old(
                        self,
                    ).pools@[i])
                &&& (forall|i: int| #![trigger final(self).ledgers@[i]]
                    0 <= i < old(self).ledgers@.len() ==> final(self).ledgers@[i] == old(
                        self,
                    ).ledgers@[i])
                &&& final(self).positions@ == old(self).positions@
                &&& final(self).options@ == old(self).options@
                &&& final(self).option_counter == old(self).option_counter
                &&& final(self).admin == old(self).admin
            }),
            r matches Err(e) ==> *final(self) == *old(self) && ({
                &&& (e == OptionsError::NotInitialized <==> old(self).admin is None)
                &&& (e == OptionsError::Unauthorized <==> old(self).admin is Some && old(
                    self,
                ).admin != Some(caller))
                &&& (e == OptionsError::PoolAlreadyExists <==> old(self).admin == Some(caller) && (
                exists|i: int| #![trigger old(self).pools@[i]]
                    0 <= i < old(self).pools@.len() && old(self).pools@[i].stable_token
                        == stable_token && old(self).pools@[i].underlying_asset
                        == underlying_asset))
                &&& (e == OptionsError::ArithmeticOverflow <==> ({
                    &&& old(self).admin == Some(caller)
                    &&& !(exists|i: int| #![trigger old(self).pools@[i]]
                        0 <= i < old(self).pools@.len() && old(self).pools@[i].stable_token
                            == stable_token && old(self).pools@[i].underlying_asset
                            == underlying_asset)
                    &&& old(self).pool_counter == u64::MAX
                }))
            }),
    {
        let admin = match self.admin {
            Some(a) => a,
            None => {
                return Err(OptionsError::NotInitialized);
            },
        };
        if admin != caller {
            return Err(OptionsError::Unauthorized);
        }
        match self.pool_index_by_pair(stable_token, underlying_asset) {
            Some(k) => {
                proof {
                    assert(self.pools@[k as int].stable_token == stable_token);
                }
                return Err(OptionsError::PoolAlreadyExists);
            },
            None => {},
        }
        if self.pool_counter == u64::MAX {
            return Err(OptionsError::ArithmeticOverflow);
        }
        let pool_id = self.pool_counter;
        self.pools.push(
            PoolData { pool_id, stable_token, underlying_asset, price_feed, name, is_active: true },
        );
        self.ledgers.push(
            PoolLedger { total_liquidity: 0, locked_collateral: 0, total_lp_shares: 0 },
        );
        self.pool_counter = pool_id + 1;
        proof {
            assert forall|i: int| 0 <= i < self.positions@.len() implies (
            #[trigger] self.positions@[i]).pool_id != pool_id by {}
            lemma_sum_shares_absent(self.positions@, pool_id);
            assert forall|i: int| 0 <= i < self.options@.len() implies (
            #[trigger] self.options@[i]).pool_id != pool_id by {}
            lemma_sum_locked_absent(self.options@, pool_id);
        }
        Ok(pool_id)
    }

    /// Deposit `amount` of the settlement asset into a pool and receive
    /// shares at the pool's current net asset value: one-for-one when the
    /// pool has no outstanding shares, `floor(amount * shares / liquidity)`
    /// otherwise. The host must have authenticated `provider` and, on
    /// success, transfer `amount` from the provider into pool custody as
    /// part of the same atomic unit.
    pub fn provide_liquidity(&mut self, pool_id: u64, provider: u64, amount: i128) -> (r: Result<
        i128,
        OptionsError,
    >)
        requires
            old(self).wf(),
        ensures
            final(self).wf(),
            r is Ok <==> ({
                &&& amount > 0
                &&& old(self).has_pool(pool_id)
                &&& old(self).spec_pool(pool_id).is_active
                &&& deposit_fits(old(self).spec_ledger(pool_id), amount as int)
            }),
            r matches Ok(shares) ==> ({
                let l0 = old(self).spec_ledger(pool_id);
                &&& shares as int == spec_deposit_shares(amount as int, l0)
                &&& (l0.total_lp_shares == 0 ==> shares == amount)
                &&& shares >= 0
                &&& final(self).spec_ledger(pool_id).total_liquidity == l0.total_liquidity
                    + amount
                &&& final(self).spec_ledger(pool_id).locked_collateral == l0.locked_collateral
                &&& final(self).spec_ledger(pool_id).total_lp_shares == l0.total_lp_shares
                    + shares
                &&& (forall|i: int| #![trigger final(self).ledgers@[i]]
                    0 <= i < final(self).ledgers@.len() && i != pool_id as int ==> final(self).ledgers@[i] == old(self).ledgers@[i])
                &&& final(self).ledgers@.len() == old(self).ledgers@.len()
                &&& final(self).spec_shares(pool_id, provider) == old(self).spec_shares(
                    pool_id,
                    provider,
                ) + shares
                &&& (forall|p: u64, q: u64| #![trigger final(self).spec_shares(p, q)]
                    !(p == pool_id && q == provider) ==> final(self).spec_shares(p, q) == old(
                        self,
                    ).spec_shares(p, q))
                &&& final(self).pools@ == old(self).pools@
                &&& final(self).options@ == old(self).options@
                &&& final(self).pool_counter == old(self).pool_counter
                &&& final(self).option_counter == old(self).option_counter
                &&& final(self).admin == old(self).admin
            }),
            r matches Err(e) ==> *final(self) == *old(self) && ({
                &&& (e == OptionsError::InvalidAmount <==> amount <= 0)
                &&& (e == OptionsError::PoolNotFound <==> amount > 0 && !old(self).has_pool(
                    pool_id,
                ))
                &&& (e == OptionsError::PoolNotActive <==> amount > 0 && old(self).has_pool(
                    pool_id,
                ) && !old(self).spec_pool(pool_id).is_active)
                &&& (e == OptionsError::ArithmeticOverflow <==> ({
                    &&& amount > 0
                    &&& old(self).has_pool(pool_id)
                    &&& old(self).spec_pool(pool_id).is_active
                    &&& !deposit_fits(old(self).spec_ledger(pool_id), amount as int)
                }))
            }),
    {
        if amount <= 0 {
            return Err(OptionsError::InvalidAmount);
        }
        let k = match self.pool_index(pool_id) {
            Some(k) => k,
            None => {
                return Err(OptionsError::PoolNotFound);
            },
        };
        if !self.pools[k].is_active {
            return Err(OptionsError::PoolNotActive);
        }
        let l0 = self.ledgers[k];
        let shares: i128;
        if l0.total_lp_shares == 0 {
            shares = amount;
        } else {
            let product = match amount.checked_mul(l0.total_lp_shares) {
                Some(v) => v,
                None => {
                    return Err(OptionsError::ArithmeticOverflow);
                },
            };
            proof {
                assert(product >= 0) by (nonlinear_arith)
                    requires
                        product == amount * l0.total_lp_shares,
                        amount > 0,
                        l0.total_lp_shares > 0,
                ;
                lemma_div_nonincreasing(product as int, l0.total_liquidity as int);
                lemma_div_pos_is_pos(product as int, l0.total_liquidity as int);
            }
            shares = product.checked_div(l0.total_liquidity).unwrap();
        }
        let new_liquidity = match l0.total_liquidity.checked_add(amount) {
            Some(v) => v,
            None => {
                return Err(OptionsError::ArithmeticOverflow);
            },
        };
        let new_total_shares = match l0.total_lp_shares.checked_add(shares) {
            Some(v) => v,
            None => {
                return Err(OptionsError::ArithmeticOverflow);
            },
        };
        let pos = self.position_index(pool_id, provider);
        let held: i128 = match pos {
            Some(i) => self.positions[i].shares,
            None => 0,
        };
        proof {
            lemma_shares_of_le_sum(self.positions@, pool_id, provider);
            assert(sum_shares(self.positions@, pool_id) == l0.total_lp_shares as int);
            assert(held + shares <= new_total_shares as int);
        }
        let new_balance = held + shares;
        let ghost before = *self;
        self.ledgers[k] = PoolLedger {
            total_liquidity: new_liquidity,
            locked_collateral: l0.locked_collateral,
            total_lp_shares: new_total_shares,
        };
        let entry = LpShare { pool_id, provider, shares: new_balance };
        match pos {
            Some(i) => {
                self.positions[i] = entry;
            },
            None => {
                self.positions.push(entry);
            },
        }
        proof {
            let s = before.positions@;
            let t = self.positions@;
            match pos {
                Some(i) => {
                    let i = i as int;
                    assert(t == s.update(i, entry));
                    assert forall|a: int, b: int| 0 <= a < b < t.len() implies !(
                    (#[trigger] t[a]).pool_id == (#[trigger] t[b]).pool_id && t[a].provider
                        == t[b].provider) by {
                        assert(t[a].pool_id == s[a].pool_id && t[a].provider == s[a].provider);
                        assert(t[b].pool_id == s[b].pool_id && t[b].provider == s[b].provider);
                    }
                    assert forall|a: int| 0 <= a < t.len() implies #[trigger] t[a].shares >= 0 by {
                        if a != i {
                            assert(t[a] == s[a]);
                        }
                    }
                    assert forall|a: int| 0 <= a < t.len() implies #[trigger] t[a].pool_id
                        < self.pool_counter by {
                        if a != i {
                            assert(t[a] == s[a]);
                        }
                    }
                    lemma_sum_shares_update(s, i, entry, pool_id);
                    assert forall|j: u64| #![trigger sum_shares(t, j)] j != pool_id implies
                        sum_shares(t, j) == sum_shares(s, j) by {
                        lemma_sum_shares_update(s, i, entry, j);
                    }
                    lemma_shares_of_update(s, i, entry, pool_id, provider);
                    assert forall|p: u64, q: u64| !(p == pool_id && q == provider) implies
                        #[trigger] shares_of(t, p, q) == shares_of(s, p, q) by {
                        lemma_shares_of_update(s, i, entry, p, q);
                    }
                },
                None => {
                    assert(t == s.push(entry));
                    assert forall|a: int, b: int| 0 <= a < b < t.len() implies !(
                    (#[trigger] t[a]).pool_id == (#[trigger] t[b]).pool_id && t[a].provider
                        == t[b].provider) by {
                        assert(t[a] == s[a]);
                        if b < s.len() {
                            assert(t[b] == s[b]);
                        } else {
                            assert(t[b] == entry);
                        }
                    }
                    assert forall|a: int| 0 <= a < t.len() implies #[trigger] t[a].shares >= 0 by {
                        if a < s.len() {
                            assert(t[a] == s[a]);
                        }
                    }
                    assert forall|a: int| 0 <= a < t.len() implies #[trigger] t[a].pool_id
                        < self.pool_counter by {
                        if a < s.len() {
                            assert(t[a] == s[a]);
                        }
                    }
                    lemma_sum_shares_push(s, entry, pool_id);
                    assert forall|j: u64| #![trigger sum_shares(t, j)] j != pool_id implies
                        sum_shares(t, j) == sum_shares(s, j) by {
                        lemma_sum_shares_push(s, entry, j);
                    }
                    lemma_shares_of_push(s, entry, pool_id, provider);
                    assert forall|p: u64, q: u64| !(p == pool_id && q == provider) implies
                        #[trigger] shares_of(t, p, q) == shares_of(s, p, q) by {
                        lemma_shares_of_push(s, entry, p, q);
                    }
                },
            }
            assert forall|j: int| #![trigger self.ledgers@[j]] 0 <= j < self.ledgers@.len() implies {
                &&& ledger_wf(self.ledgers@[j])
                &&& self.ledgers@[j].total_lp_shares as int == sum_shares(t, j as u64)
                &&& self.ledgers@[j].locked_collateral as int == sum_locked(self.options@, j as u64)
            } by {
                if j != pool_id as int {
                    assert(self.ledgers@[j] == before.ledgers@[j]);
                }
            }
        }
        Ok(shares)
    }

    /// Redeem `share_amount` shares for their pro-rata slice of the pool's
    /// liquidity, `floor(share_amount * liquidity / shares)`. The slice may
    /// only come out of unlocked liquidity: collateral reserved against
    /// live options is untouchable, however many shares the provider
    /// holds. Pausing a pool gates new trading only, never depositors'
    /// existing claims, so withdrawals stay available while a pool is
    /// inactive. The host must have authenticated `provider` and, on
    /// success, transfer the returned amount from pool custody to the
    /// provider as part of the same atomic unit.
    pub fn withdraw_liquidity(&mut self, pool_id: u64, provider: u64, share_amount: i128) -> (r:
        Result<i128, OptionsError>)
        requires
            old(self).wf(),
        ensures
            final(self).wf(),
            r is Ok <==> ({
                &&& share_amount > 0
                &&& old(self).has_pool(pool_id)
                &&& old(self).spec_shares(pool_id, provider) >= share_amount
                &&& withdraw_fits(old(self).spec_ledger(pool_id), share_amount as int)
                &&& spec_pro_rata(share_amount as int, old(self).spec_ledger(pool_id)) <= old(
                    self,
                ).unlocked(pool_id)
            }),
            r matches Ok(paid) ==> ({
                let l0 = old(self).spec_ledger(pool_id);
                &&& paid as int == spec_pro_rata(share_amount as int, l0)
                &&& 0 <= paid <= l0.total_liquidity
                &&& final(self).spec_ledger(pool_id).total_liquidity == l0.total_liquidity - paid
                &&& final(self).spec_ledger(pool_id).locked_collateral == l0.locked_collateral
                &&& final(self).spec_ledger(pool_id).total_lp_shares == l0.total_lp_shares
                    - share_amount
                &&& (forall|i: int| #![trigger final(self).ledgers@[i]]
                    0 <= i < final(self).ledgers@.len() && i != pool_id as int ==> final(self).ledgers@[i] == old(self).ledgers@[i])
                &&& final(self).ledgers@.len() == old(self).ledgers@.len()
                &&& final(self).spec_shares(pool_id, provider) == old(self).spec_shares(
                    pool_id,
                    provider,
                ) - share_amount
                &&& (forall|p: u64, q: u64| #![trigger final(self).spec_shares(p, q)]
                    !(p == pool_id && q == provider) ==> final(self).spec_shares(p, q) == old(
                        self,
                    ).spec_shares(p, q))
                &&& final(self).pools@ == old(self).pools@
                &&& final(self).options@ == old(self).options@
                &&& final(self).pool_counter == old(self).pool_counter
                &&& final(self).option_counter == old(self).option_counter
                &&& final(self).admin == old(self).admin
            }),
            r matches Err(e) ==> *final(self) == *old(self) && ({
                let l0 = old(self).spec_ledger(pool_id);
                &&& (e == OptionsError::InvalidAmount <==> share_amount <= 0)
                &&& (e == OptionsError::PoolNotFound <==> share_amount > 0 && !old(
                    self,
                ).has_pool(pool_id))
                &&& (e == OptionsError::InsufficientShares <==> ({
                    &&& share_amount > 0
                    &&& old(self).has_pool(pool_id)
                    &&& old(self).spec_shares(pool_id, provider) < share_amount
                }))
                &&& (e == OptionsError::ArithmeticOverflow <==> ({
                    &&& share_amount > 0
                    &&& old(self).has_pool(pool_id)
                    &&& old(self).spec_shares(pool_id, provider) >= share_amount
                    &&& !withdraw_fits(l0, share_amount as int)
                }))
                &&& (e == OptionsError::InsufficientLiquidity <==> ({
                    &&& share_amount > 0
                    &&& old(self).has_pool(pool_id)
                    &&& old(self).spec_shares(pool_id, provider) >= share_amount
                    &&& withdraw_fits(l0, share_amount as int)
                    &&& spec_pro_rata(share_amount as int, l0) > old(self).unlocked(pool_id)
                }))
            }),
    {
        if share_amount <= 0 {
            return Err(OptionsError::InvalidAmount);
        }
        let k = match self.pool_index(pool_id) {
            Some(k) => k,
            None => {
                return Err(OptionsError::PoolNotFound);
            },
        };
        let pos = self.position_index(pool_id, provider);
        let held: i128 = match pos {
            Some(i) => self.positions[i].shares,
            None => 0,
        };
        if held < share_amount {
            return Err(OptionsError::InsufficientShares);
        }
        let idx = match pos {
            Some(i) => i,
            None => {
                // Unreachable: a positive balance implies an entry exists.
                proof {
                    assert(false);
                }
                0
            },
        };
        let l0 = self.ledgers[k];
        proof {
            lemma_shares_of_le_sum(self.positions@, pool_id, provider);
            assert(l0.total_lp_shares >= held >= share_amount > 0);
            assert(l0.total_liquidity > 0);
        }
        let product = match share_amount.checked_mul(l0.total_liquidity) {
            Some(v) => v,
            None => {
                return Err(OptionsError::ArithmeticOverflow);
            },
        };
        proof {
            assert(product >= 0) by (nonlinear_arith)
                requires
                    product == share_amount * l0.total_liquidity,
                    share_amount > 0,
                    l0.total_liquidity > 0,
            ;
            lemma_div_nonincreasing(product as int, l0.total_lp_shares as int);
            lemma_div_pos_is_pos(product as int, l0.total_lp_shares as int);
        }
        let pool_portion = product.checked_div(l0.total_lp_shares).unwrap();
        if pool_portion > l0.total_liquidity - l0.locked_collateral {
            return Err(OptionsError::InsufficientLiquidity);
        }
        proof {
            if share_amount < l0.total_lp_shares {
                assert(product < l0.total_lp_shares * l0.total_liquidity) by (nonlinear_arith)
                    requires
                        product == share_amount * l0.total_liquidity,
                        share_amount < l0.total_lp_shares,
                        l0.total_liquidity > 0,
                ;
                vstd::arithmetic::div_mod::lemma_multiply_divide_lt(
                    product as int,
                    l0.total_lp_shares as int,
                    l0.total_liquidity as int,
                );
                assert(pool_portion < l0.total_liquidity);
            } else {
                assert(share_amount == l0.total_lp_shares);
                assert(product as int == (l0.total_lp_shares as int) * (l0.total_liquidity as int));
                lemma_div_multiples_vanish(l0.total_liquidity as int, l0.total_lp_shares as int);
                assert(pool_portion == l0.total_liquidity);
            }
        }
        let ghost before = *self;
        self.ledgers[k] = PoolLedger {
            total_liquidity: l0.total_liquidity - pool_portion,
            locked_collateral: l0.locked_collateral,
            total_lp_shares: l0.total_lp_shares - share_amount,
        };
        let entry = LpShare { pool_id, provider, shares: held - share_amount };
        self.positions[idx] = entry;
        proof {
            let s = before.positions@;
            let t = self.positions@;
            let i = idx as int;
            assert(t == s.update(i, entry));
            assert forall|a: int, b: int| 0 <= a < b < t.len() implies !((#[trigger] t[a]).pool_id
                == (#[trigger] t[b]).pool_id && t[a].provider == t[b].provider) by {
                assert(t[a].pool_id == s[a].pool_id && t[a].provider == s[a].provider);
                assert(t[b].pool_id == s[b].pool_id && t[b].provider == s[b].provider);
            }
            assert forall|a: int| 0 <= a < t.len() implies #[trigger] t[a].shares >= 0 by {
                if a != i {
                    assert(t[a] == s[a]);
                }
            }
            assert forall|a: int| 0 <= a < t.len() implies #[trigger] t[a].pool_id
                < self.pool_counter by {
                if a != i {
                    assert(t[a] == s[a]);
                }
            }
            lemma_sum_shares_update(s, i, entry, pool_id);
            assert forall|j: u64| #![trigger sum_shares(t, j)] j != pool_id implies sum_shares(
                t,
                j,
            ) == sum_shares(s, j) by {
                lemma_sum_shares_update(s, i, entry, j);
            }
            lemma_shares_of_update(s, i, entry, pool_id, provider);
            assert forall|p: u64, q: u64| !(p == pool_id && q == provider) implies
                #[trigger] shares_of(t, p, q) == shares_of(s, p, q) by {
                lemma_shares_of_update(s, i, entry, p, q);
            }
            assert forall|j: int| #![trigger self.ledgers@[j]] 0 <= j < self.ledgers@.len()
                implies {
                &&& ledger_wf(self.ledgers@[j])
                &&& self.ledgers@[j].total_lp_shares as int == sum_shares(t, j as u64)
                &&& self.ledgers@[j].locked_collateral as int == sum_locked(self.options@, j as u64)
            } by {
                if j != pool_id as int {
                    assert(self.ledgers@[j] == before.ledgers@[j]);
                }
            }
        }
        Ok(pool_portion)
    }

    /// Issue a fully collateralized option against a pool. The premium is
    /// 2% of strike-weighted notional; collateral `strike * amount / 10^7`
    /// is reserved from the pool's unlocked liquidity for the option's
    /// whole `Active` lifetime, and the collected premium joins the
    /// pool's liquidity, raising the value behind every share. `now` is
    /// the host clock. The host must have authenticated `buyer` and, on
    /// success, transfer the recorded premium from the buyer into pool
    /// custody as part of the same atomic unit.
    pub fn buy_option(
        &mut self,
        pool_id: u64,
        buyer: u64,
        opt_type: OptionType,
        strike: i128,
        expiry: u64,
        amount: i128,
        now: u64,
    ) -> (r: Result<u64, OptionsError>)
        requires
            old(self).wf(),
        ensures
            final(self).wf(),
            r is Ok <==> ({
                &&& old(self).has_pool(pool_id)
                &&& old(self).spec_pool(pool_id).is_active
                &&& expiry > now
                &&& amount > 0
                &&& strike > 0
                &&& premium_fits(strike as int, amount as int)
                &&& collateral_fits(strike as int, amount as int)
                &&& old(self).option_counter < u64::MAX
                &&& old(self).spec_ledger(pool_id).total_liquidity + spec_premium(
                    strike as int,
                    amount as int,
                ) <= i128::MAX
                &&& spec_collateral(strike as int, amount as int) <= old(self).unlocked(pool_id)
            }),
            r matches Ok(id) ==> ({
                let l0 = old(self).spec_ledger(pool_id);
                &&& id == old(self).option_counter
                &&& final(self).option_counter == old(self).option_counter + 1
                &&& final(self).options@.len() == old(self).options@.len() + 1
                &&& final(self).spec_option(id).pool_id == pool_id
                &&& final(self).spec_option(id).buyer == buyer
                &&& final(self).spec_option(id).opt_type == opt_type
                &&& final(self).spec_option(id).strike == strike
                &&& final(self).spec_option(id).expiry == expiry
                &&& final(self).spec_option(id).amount == amount
                &&& final(self).spec_option(id).premium_paid as int == spec_premium(
                    strike as int,
                    amount as int,
                )
                &&& final(self).spec_option(id).collateral as int == spec_collateral(
                    strike as int,
                    amount as int,
                )
                &&& !final(self).spec_option(id).is_exercised
                &&& final(self).spec_option(id).is_active
                &&& (forall|j: int| #![trigger final(self).options@[j]]
                    0 <= j < old(self).options@.len() ==> final(self).options@[j] == old(
                        self,
                    ).options@[j])
                &&& final(self).spec_ledger(pool_id).total_liquidity as int == l0.total_liquidity
                    + spec_premium(strike as int, amount as int)
                &&& final(self).spec_ledger(pool_id).locked_collateral as int
                    == l0.locked_collateral + spec_collateral(strike as int, amount as int)
                &&& final(self).spec_ledger(pool_id).total_lp_shares == l0.total_lp_shares
                &&& (forall|i: int| #![trigger final(self).ledgers@[i]]
                    0 <= i < final(self).ledgers@.len() && i != pool_id as int ==> final(self).ledgers@[i] == old(self).ledgers@[i])
                &&& final(self).ledgers@.len() == old(self).ledgers@.len()
                &&& final(self).pools@ == old(self).pools@
                &&& final(self).positions@ == old(self).positions@
                &&& final(self).pool_counter == old(self).pool_counter
                &&& final(self).admin == old(self).admin
            }),
            r matches Err(e) ==> *final(self) == *old(self) && ({
                &&& (e == OptionsError::PoolNotFound <==> !old(self).has_pool(pool_id))
                &&& (e == OptionsError::PoolNotActive <==> old(self).has_pool(pool_id) && !old(
                    self,
                ).spec_pool(pool_id).is_active)
                &&& (e == OptionsError::OptionExpired <==> ({
                    &&& old(self).has_pool(pool_id)
                    &&& old(self).spec_pool(pool_id).is_active
                    &&& expiry <= now
                }))
                &&& (e == OptionsError::InvalidAmount <==> ({
                    &&& old(self).has_pool(pool_id)
                    &&& old(self).spec_pool(pool_id).is_active
                    &&& expiry > now
                    &&& (amount <= 0 || strike <= 0)
                }))
                &&& (e == OptionsError::ArithmeticOverflow <==> ({
                    &&& old(self).has_pool(pool_id)
                    &&& old(self).spec_pool(pool_id).is_active
                    &&& expiry > now
                    &&& amount > 0
                    &&& strike > 0
                    &&& !(premium_fits(strike as int, amount as int) && collateral_fits(
                        strike as int,
                        amount as int,
                    ) && old(self).option_counter < u64::MAX && old(self).spec_ledger(
                        pool_id,
                    ).total_liquidity + spec_premium(strike as int, amount as int) <= i128::MAX)
                }))
                &&& (e == OptionsError::InsufficientLiquidity <==> ({
                    &&& old(self).has_pool(pool_id)
                    &&& old(self).spec_pool(pool_id).is_active
                    &&& expiry > now
                    &&& amount > 0
                    &&& strike > 0
                    &&& premium_fits(strike as int, amount as int)
                    &&& collateral_fits(strike as int, amount as int)
                    &&& old(self).option_counter < u64::MAX
                    &&& old(self).spec_ledger(pool_id).total_liquidity + spec_premium(
                        strike as int,
                        amount as int,
                    ) <= i128::MAX
                    &&& spec_collateral(strike as int, amount as int) > old(self).unlocked(pool_id)
                }))
            }),
    {
        let k = match self.pool_index(pool_id) {
            Some(k) => k,
            None => {
                return Err(OptionsError::PoolNotFound);
            },
        };
        if !self.pools[k].is_active {
            return Err(OptionsError::PoolNotActive);
        }
        if expiry <= now {
            return Err(OptionsError::OptionExpired);
        }
        if amount <= 0 || strike <= 0 {
            return Err(OptionsError::InvalidAmount);
        }
        let premium = match premium_for(strike, amount) {
            Ok(p) => p,
            Err(e) => {
                return Err(e);
            },
        };
        let collateral_needed = match collateral_for(strike, amount) {
            Ok(c) => c,
            Err(e) => {
                return Err(e);
            },
        };
        if self.option_counter == u64::MAX {
            return Err(OptionsError::ArithmeticOverflow);
        }
        let l0 = self.ledgers[k];
        let new_liquidity = match l0.total_liquidity.checked_add(premium) {
            Some(v) => v,
            None => {
                return Err(OptionsError::ArithmeticOverflow);
            },
        };
        if l0.total_liquidity - l0.locked_collateral < collateral_needed {
            return Err(OptionsError::InsufficientLiquidity);
        }
        let option_id = self.option_counter;
        let ghost before = *self;
        self.ledgers[k] = PoolLedger {
            total_liquidity: new_liquidity,
            locked_collateral: l0.locked_collateral + collateral_needed,
            total_lp_shares: l0.total_lp_shares,
        };
        let record = OptionData {
            pool_id,
            buyer,
            opt_type,
            strike,
            expiry,
            amount,
            premium_paid: premium,
            collateral: collateral_needed,
            is_exercised: false,
            is_active: true,
        };
        self.options.push(record);
        self.option_counter = option_id + 1;
        proof {
            let s = before.options@;
            let t = self.options@;
            assert(t == s.push(record));
            lemma_sum_locked_push(s, record, pool_id);
            assert forall|j: u64| #![trigger sum_locked(t, j)] j != pool_id implies sum_locked(
                t,
                j,
            ) == sum_locked(s, j) by {
                lemma_sum_locked_push(s, record, j);
            }
            assert forall|a: int| 0 <= a < t.len() implies #[trigger] t[a].collateral >= 0 by {
                if a < s.len() {
                    assert(t[a] == s[a]);
                }
            }
            assert forall|a: int| #![trigger t[a]] 0 <= a < t.len() implies {
                &&& t[a].pool_id < self.pool_counter
                &&& t[a].strike > 0
                &&& t[a].amount > 0
                &&& t[a].premium_paid >= 0
                &&& (t[a].is_active ==> !t[a].is_exercised)
            } by {
                if a < s.len() {
                    assert(t[a] == s[a]);
                }
            }
            assert forall|j: int| #![trigger self.ledgers@[j]] 0 <= j < self.ledgers@.len()
                implies {
                &&& ledger_wf(self.ledgers@[j])
                &&& self.ledgers@[j].total_lp_shares as int == sum_shares(
                    self.positions@,
                    j as u64,
                )
                &&& self.ledgers@[j].locked_collateral as int == sum_locked(t, j as u64)
            } by {
                if j != pool_id as int {
                    assert(self.ledgers@[j] == before.ledgers@[j]);
                }
            }
        }
        Ok(option_id)
    }

    /// Exercise a live option, American-style: allowed any time up to and
    /// including expiry, by the recorded buyer alone. `quote` is what the
    /// pool's configured feed answered; the payoff actually paid is the
    /// intrinsic value hard-capped at the option's reserved collateral,
    /// and the whole reservation returns to the pool's unlocked liquidity.
    /// The host must have authenticated `caller` and, on success, transfer
    /// the returned payoff (when positive) from pool custody to the buyer
    /// as part of the same atomic unit.
    pub fn exercise_option(
        &mut self,
        caller: u64,
        option_id: u64,
        now: u64,
        quote: Option<PriceData>,
    ) -> (r: Result<i128, OptionsError>)
        requires
            old(self).wf(),
        ensures
            final(self).wf(),
            r is Ok <==> ({
                let o = old(self).spec_option(option_id);
                &&& old(self).has_option(option_id)
                &&& o.is_active
                &&& caller == o.buyer
                &&& now <= o.expiry
                &&& quote is Some
                &&& payoff_fits(o.opt_type, o.strike as int, quote.unwrap().price as int, o.amount as int)
            }),
            r matches Ok(paid) ==> ({
                let o = old(self).spec_option(option_id);
                let raw = spec_raw_payoff(
                    o.opt_type,
                    o.strike as int,
                    quote.unwrap().price as int,
                    o.amount as int,
                );
                &&& paid as int == if raw <= o.collateral as int {
                    raw
                } else {
                    o.collateral as int
                }
                &&& paid >= 0
                &&& final(self).spec_option(option_id).is_active == false
                &&& final(self).spec_option(option_id).is_exercised == true
                &&& final(self).spec_option(option_id).pool_id == o.pool_id
                &&& final(self).spec_option(option_id).buyer == o.buyer
                &&& final(self).spec_option(option_id).opt_type == o.opt_type
                &&& final(self).spec_option(option_id).strike == o.strike
                &&& final(self).spec_option(option_id).expiry == o.expiry
                &&& final(self).spec_option(option_id).amount == o.amount
                &&& final(self).spec_option(option_id).premium_paid == o.premium_paid
                &&& final(self).spec_option(option_id).collateral == o.collateral
                &&& (forall|j: int| #![trigger final(self).options@[j]]
                    0 <= j < final(self).options@.len() && j != option_id as int ==> final(self).options@[j] == old(self).options@[j])
                &&& final(self).options@.len() == old(self).options@.len()
                &&& final(self).spec_ledger(o.pool_id).locked_collateral == old(self).spec_ledger(
                    o.pool_id,
                ).locked_collateral - o.collateral
                &&& final(self).spec_ledger(o.pool_id).total_liquidity == old(self).spec_ledger(
                    o.pool_id,
                ).total_liquidity
                &&& final(self).spec_ledger(o.pool_id).total_lp_shares == old(self).spec_ledger(
                    o.pool_id,
                ).total_lp_shares
                &&& (forall|i: int| #![trigger final(self).ledgers@[i]]
                    0 <= i < final(self).ledgers@.len() && i != o.pool_id as int ==> final(self).ledgers@[i] == old(self).ledgers@[i])
                &&& final(self).ledgers@.len() == old(self).ledgers@.len()
                &&& final(self).pools@ == old(self).pools@
                &&& final(self).positions@ == old(self).positions@
                &&& final(self).pool_counter == old(self).pool_counter
                &&& final(self).option_counter == old(self).option_counter
                &&& final(self).admin == old(self).admin
            }),
            r matches Err(e) ==> *final(self) == *old(self) && ({
                let o = old(self).spec_option(option_id);
                &&& (e == OptionsError::OptionNotFound <==> !old(self).has_option(option_id))
                &&& (e == OptionsError::OptionNotActive <==> old(self).has_option(option_id)
                    && !o.is_active)
                &&& (e == OptionsError::NotOptionOwner <==> old(self).has_option(option_id)
                    && o.is_active && caller != o.buyer)
                &&& (e == OptionsError::OptionExpired <==> ({
                    &&& old(self).has_option(option_id)
                    &&& o.is_active
                    &&& caller == o.buyer
                    &&& now > o.expiry
                }))
                &&& (e == OptionsError::InvalidPrice <==> ({
                    &&& old(self).has_option(option_id)
                    &&& o.is_active
                    &&& caller == o.buyer
                    &&& now <= o.expiry
                    &&& quote is None
                }))
                &&& (e == OptionsError::ArithmeticOverflow <==> ({
                    &&& old(self).has_option(option_id)
                    &&& o.is_active
                    &&& caller == o.buyer
                    &&& now <= o.expiry
                    &&& quote is Some
                    &&& !payoff_fits(
                        o.opt_type,
                        o.strike as int,
                        quote.unwrap().price as int,
                        o.amount as int,
                    )
                }))
            }),
    {
        let oidx = match self.option_index(option_id) {
            Some(i) => i,
            None => {
                return Err(OptionsError::OptionNotFound);
            },
        };
        let o = self.options[oidx];
        if !o.is_active {
            return Err(OptionsError::OptionNotActive);
        }
        if caller != o.buyer {
            return Err(OptionsError::NotOptionOwner);
        }
        if now > o.expiry {
            return Err(OptionsError::OptionExpired);
        }
        let price = match Self::get_price_from_feed(quote) {
            Ok(p) => p,
            Err(e) => {
                return Err(e);
            },
        };
        let raw = match payoff_for(o.opt_type, o.strike, price, o.amount) {
            Ok(v) => v,
            Err(e) => {
                return Err(e);
            },
        };
        let paid = if raw > o.collateral {
            o.collateral
        } else {
            raw
        };
        let k = match self.pool_index(o.pool_id) {
            Some(k) => k,
            None => {
                // Unreachable: every recorded option's pool exists.
                proof {
                    assert(false);
                }
                0
            },
        };
        let l0 = self.ledgers[k];
        proof {
            lemma_live_le_sum_locked(self.options@, oidx as int);
        }
        let ghost before = *self;
        let settled = OptionData { is_exercised: true, is_active: false, ..o };
        self.options[oidx] = settled;
        self.ledgers[k] = PoolLedger {
            total_liquidity: l0.total_liquidity,
            locked_collateral: l0.locked_collateral - o.collateral,
            total_lp_shares: l0.total_lp_shares,
        };
        proof {
            let s = before.options@;
            let t = self.options@;
            let i = oidx as int;
            assert(t == s.update(i, settled));
            lemma_sum_locked_update(s, i, settled, o.pool_id);
            assert forall|j: u64| #![trigger sum_locked(t, j)] j != o.pool_id implies sum_locked(
                t,
                j,
            ) == sum_locked(s, j) by {
                lemma_sum_locked_update(s, i, settled, j);
            }
            assert forall|a: int| 0 <= a < t.len() implies #[trigger] t[a].collateral >= 0 by {
                if a != i {
                    assert(t[a] == s[a]);
                }
            }
            assert forall|a: int| #![trigger t[a]] 0 <= a < t.len() implies {
                &&& t[a].pool_id < self.pool_counter
                &&& t[a].strike > 0
                &&& t[a].amount > 0
                &&& t[a].premium_paid >= 0
                &&& (t[a].is_active ==> !t[a].is_exercised)
            } by {
                if a != i {
                    assert(t[a] == s[a]);
                }
            }
            assert forall|j: int| #![trigger self.ledgers@[j]] 0 <= j < self.ledgers@.len()
                implies {
                &&& ledger_wf(self.ledgers@[j])
                &&& self.ledgers@[j].total_lp_shares as int == sum_shares(
                    self.positions@,
                    j as u64,
                )
                &&& self.ledgers@[j].locked_collateral as int == sum_locked(t, j as u64)
            } by {
                if j != o.pool_id as int {
                    assert(self.ledgers@[j] == before.ledgers@[j]);
                }
            }
        }
        Ok(paid)
    }

    /// Retire an option whose expiry has passed unexercised. Callable by
    /// anyone once `now > expiry`; the whole collateral reservation
    /// returns to the pool's unlocked liquidity and nothing is paid — the
    /// premium collected at purchase is the pool's retained gain. A
    /// settled option can never release its collateral again.
    pub fn expire_option(&mut self, option_id: u64, now: u64) -> (r: Result<(), OptionsError>)
        requires
            old(self).wf(),
        ensures
            final(self).wf(),
            r is Ok <==> ({
                &&& old(self).has_option(option_id)
                &&& old(self).spec_option(option_id).is_active
                &&& now > old(self).spec_option(option_id).expiry
            }),
            r is Ok ==> ({
                let o = old(self).spec_option(option_id);
                &&& final(self).spec_option(option_id).is_active == false
                &&& final(self).spec_option(option_id).is_exercised == false
                &&& final(self).spec_option(option_id).pool_id == o.pool_id
                &&& final(self).spec_option(option_id).buyer == o.buyer
                &&& final(self).spec_option(option_id).opt_type == o.opt_type
                &&& final(self).spec_option(option_id).strike == o.strike
                &&& final(self).spec_option(option_id).expiry == o.expiry
                &&& final(self).spec_option(option_id).amount == o.amount
                &&& final(self).spec_option(option_id).premium_paid == o.premium_paid
                &&& final(self).spec_option(option_id).collateral == o.collateral
                &&& (forall|j: int| #![trigger final(self).options@[j]]
                    0 <= j < final(self).options@.len() && j != option_id as int ==> final(self).options@[j] == old(self).options@[j])
                &&& final(self).options@.len() == old(self).options@.len()
                &&& final(self).spec_ledger(o.pool_id).locked_collateral == old(self).spec_ledger(
                    o.pool_id,
                ).locked_collateral - o.collateral
                &&& final(self).spec_ledger(o.pool_id).total_liquidity == old(self).spec_ledger(
                    o.pool_id,
                ).total_liquidity
                &&& final(self).spec_ledger(o.pool_id).total_lp_shares == old(self).spec_ledger(
                    o.pool_id,
                ).total_lp_shares
                &&& (forall|i: int| #![trigger final(self).ledgers@[i]]
                    0 <= i < final(self).ledgers@.len() && i != o.pool_id as int ==> final(self).ledgers@[i] == old(self).ledgers@[i])
                &&& final(self).ledgers@.len() == old(self).ledgers@.len()
                &&& final(self).pools@ == old(self).pools@
                &&& final(self).positions@ == old(self).positions@
                &&& final(self).pool_counter == old(self).pool_counter
                &&& final(self).option_counter == old(self).option_counter
                &&& final(self).admin == old(self).admin
            }),
            r matches Err(e) ==> *final(self) == *old(self) && ({
                let o = old(self).spec_option(option_id);
                &&& (e == OptionsError::OptionNotFound <==> !old(self).has_option(option_id))
                &&& (e == OptionsError::OptionNotActive <==> old(self).has_option(option_id)
                    && !o.is_active)
                &&& (e == OptionsError::OptionExpired <==> old(self).has_option(option_id)
                    && o.is_active && now <= o.expiry)
            }),
    {
        let oidx = match self.option_index(option_id) {
            Some(i) => i,
            None => {
                return Err(OptionsError::OptionNotFound);
            },
        };
        let o = self.options[oidx];
        if !o.is_active {
            return Err(OptionsError::OptionNotActive);
        }
        if now <= o.expiry {
            return Err(OptionsError::OptionExpired);
        }
        let k = match self.pool_index(o.pool_id) {
            Some(k) => k,
            None => {
                // Unreachable: every recorded option's pool exists.
                proof {
                    assert(false);
                }
                0
            },
        };
        let l0 = self.ledgers[k];
        proof {
            lemma_live_le_sum_locked(self.options@, oidx as int);
        }
        let ghost before = *self;
        let settled = OptionData { is_exercised: false, is_active: false, ..o };
        self.options[oidx] = settled;
        self.ledgers[k] = PoolLedger {
            total_liquidity: l0.total_liquidity,
            locked_collateral: l0.locked_collateral - o.collateral,
            total_lp_shares: l0.total_lp_shares,
        };
        proof {
            let s = before.options@;
            let t = self.options@;
            let i = oidx as int;
            assert(t == s.update(i, settled));
            lemma_sum_locked_update(s, i, settled, o.pool_id);
            assert forall|j: u64| #![trigger sum_locked(t, j)] j != o.pool_id implies sum_locked(
                t,
                j,
            ) == sum_locked(s, j) by {
                lemma_sum_locked_update(s, i, settled, j);
            }
            assert forall|a: int| 0 <= a < t.len() implies #[trigger] t[a].collateral >= 0 by {
                if a != i {
                    assert(t[a] == s[a]);
                }
            }
            assert forall|a: int| #![trigger t[a]] 0 <= a < t.len() implies {
                &&& t[a].pool_id < self.pool_counter
                &&& t[a].strike > 0
                &&& t[a].amount > 0
                &&& t[a].premium_paid >= 0
                &&& (t[a].is_active ==> !t[a].is_exercised)
            } by {
                if a != i {
                    assert(t[a] == s[a]);
                }
            }
            assert forall|j: int| #![trigger self.ledgers@[j]] 0 <= j < self.ledgers@.len()
                implies {
                &&& ledger_wf(self.ledgers@[j])
                &&& self.ledgers@[j].total_lp_shares as int == sum_shares(
                    self.positions@,
                    j as u64,
                )
                &&& self.ledgers@[j].locked_collateral as int == sum_locked(t, j as u64)
            } by {
                if j != o.pool_id as int {
                    assert(self.ledgers@[j] == before.ledgers@[j]);
                }
            }
        }
        Ok(())
    }
}

} // verus!
