//! The automated market maker: the pool state machine over the store and
//! the pricing engine.
//!
//! Each operation re-reads the market's reserves, computes the trade through
//! the stateless engine, validates every rule, and writes the new reserves
//! back exactly once — or fails and leaves the state untouched. The
//! configuration (fee rate, advisory slippage rate, liquidity cap) is fixed
//! at initialization and never mutated.

use vstd::prelude::*;

verus! {

use crate::errors::AmmError;
use crate::odds::{spec_odds, compute_odds};
use crate::pricing::{spec_quote_buy, spec_quote_sell, quote_and_apply_buy, quote_and_apply_sell};
use crate::store::{MarketId, Pool, PoolStore};
use crate::MAX_RESERVE;

/// Default trading fee: 20 basis points (0.2%).
pub const DEFAULT_FEE_BPS: u32 = 20;

/// Default advisory slippage-protection rate: 200 basis points (2%). Stored
/// for callers to consult; the engine itself enforces only the explicit
/// per-trade floors.
pub const DEFAULT_SLIPPAGE_BPS: u32 = 200;

/// Immutable engine configuration, fixed at initialization.
struct Config {
    fee_bps: u32,
    slippage_bps: u32,
    max_liquidity_cap: u128,
}

/// How `create_pool` moves the state: the new pool record on success, the
/// exact error otherwise. Liquidity is split evenly; an odd unit is dropped
/// by the truncating division.
pub open spec fn spec_create_pool(
    pools: Map<MarketId, Pool>,
    max_liquidity_cap: u128,
    market_id: MarketId,
    initial_liquidity: u128,
    created_at: u64,
) -> Result<Pool, AmmError> {
    if pools.contains_key(market_id) {
        Err(AmmError::PoolAlreadyExists)
    } else if initial_liquidity == 0 {
        Err(AmmError::InvalidAmount)
    } else if initial_liquidity > max_liquidity_cap {
        Err(AmmError::InvalidAmount)
    } else if initial_liquidity / 2 > MAX_RESERVE {
        Err(AmmError::InvalidAmount)
    } else {
        let half: int = initial_liquidity as int / 2;
        Ok(Pool {
            yes_reserve: half as u128,
            no_reserve: half as u128,
            total_liquidity: (half + half) as u128,
            created_at,
        })
    }
}

/// How `buy_shares` moves the state: the shares bought and the new pool
/// record on success, the exact error otherwise.
pub open spec fn spec_buy(
    pools: Map<MarketId, Pool>,
    fee_bps: u32,
    market_id: MarketId,
    outcome: u32,
    amount: u128,
    min_shares: u128,
) -> Result<(u128, Pool), AmmError> {
    if outcome > 1 {
        Err(AmmError::InvalidOutcome)
    } else if amount == 0 {
        Err(AmmError::InvalidAmount)
    } else if !pools.contains_key(market_id) {
        Err(AmmError::PoolNotFound)
    } else {
        let p = pools[market_id];
        match spec_quote_buy(p.yes_reserve, p.no_reserve, fee_bps, outcome, amount, min_shares) {
            Ok(q) => Ok((
                q.shares_out,
                Pool {
                    yes_reserve: q.new_yes,
                    no_reserve: q.new_no,
                    total_liquidity: (q.new_yes + q.new_no) as u128,
                    created_at: p.created_at,
                },
            )),
            Err(e) => Err(e),
        }
    }
}

/// How `sell_shares` moves the state: the net payout and the new pool record
/// on success, the exact error otherwise.
pub open spec fn spec_sell(
    pools: Map<MarketId, Pool>,
    fee_bps: u32,
    market_id: MarketId,
    outcome: u32,
    shares: u128,
    min_payout: u128,
) -> Result<(u128, Pool), AmmError> {
    if outcome > 1 {
        Err(AmmError::InvalidOutcome)
    } else if shares == 0 {
        Err(AmmError::InvalidAmount)
    } else if !pools.contains_key(market_id) {
        Err(AmmError::PoolNotFound)
    } else {
        let p = pools[market_id];
        match spec_quote_sell(p.yes_reserve, p.no_reserve, fee_bps, outcome, shares, min_payout) {
            Ok(q) => Ok((
                q.payout,
                Pool {
                    yes_reserve: q.new_yes,
                    no_reserve: q.new_no,
                    total_liquidity: (q.new_yes + q.new_no) as u128,
                    created_at: p.created_at,
                },
            )),
            Err(e) => Err(e),
        }
    }
}

/// What `get_odds` answers: 50/50 for a market without a pool, otherwise the
/// implied odds of its reserves.
pub open spec fn spec_get_odds(pools: Map<MarketId, Pool>, market_id: MarketId) -> (u32, u32) {
    if !pools.contains_key(market_id) {
        (5000u32, 5000u32)
    } else {
        spec_odds(pools[market_id].yes_reserve, pools[market_id].no_reserve)
    }
}

/// What `get_pool_state` answers: all zeros plus 50/50 odds for a market
/// without a pool, otherwise the reserves, their sum, and the implied odds.
pub open spec fn spec_get_pool_state(
    pools: Map<MarketId, Pool>,
    market_id: MarketId,
) -> (u128, u128, u128, u32, u32) {
    if !pools.contains_key(market_id) {
        (0u128, 0u128, 0u128, 5000u32, 5000u32)
    } else {
        let p = pools[market_id];
        let o = spec_odds(p.yes_reserve, p.no_reserve);
        (p.yes_reserve, p.no_reserve, (p.yes_reserve + p.no_reserve) as u128, o.0, o.1)
    }
}

/// The automated market maker: per-market liquidity pools and share trading.
pub struct AMM {
    config: Config,
    store: PoolStore,
}

impl AMM {
    /// The fee rate is a valid basis-point fraction and every stored pool
    /// keeps its reserves within the engine's representable range.
    #[verifier::type_invariant]
    spec fn inv(self) -> bool {
        &&& self.config.fee_bps <= 10000
        &&& forall|id: MarketId| #[trigger] self.store@.contains_key(id) ==> self.store@[id].wf()
    }

    /// The pools on record, as a map from market identifier to pool record.
    pub closed spec fn pools(self) -> Map<MarketId, Pool> {
        self.store@
    }

    /// The configured trading fee, in basis points.
    pub closed spec fn fee_bps(self) -> u32 {
        self.config.fee_bps
    }

    /// The configured advisory slippage-protection rate, in basis points.
    pub closed spec fn slippage_bps(self) -> u32 {
        self.config.slippage_bps
    }

    /// The configured cap on a pool's initial liquidity.
    pub closed spec fn max_liquidity_cap(self) -> u128 {
        self.config.max_liquidity_cap
    }

    /// Set up the market maker with no pools, the default fee and slippage
    /// rates, and the given cap on initial liquidity.
    pub fn initialize(max_liquidity_cap: u128) -> (amm: AMM)
        ensures
            amm.pools() == Map::<MarketId, Pool>::empty(),
            amm.fee_bps() == DEFAULT_FEE_BPS,
            amm.slippage_bps() == DEFAULT_SLIPPAGE_BPS,
            amm.max_liquidity_cap() == max_liquidity_cap,
    {
        AMM {
            config: Config {
                fee_bps: DEFAULT_FEE_BPS,
                slippage_bps: DEFAULT_SLIPPAGE_BPS,
                max_liquidity_cap,
            },
            store: PoolStore::new(),
        }
    }

    /// Store `pool` for `market_id`, keeping the configuration untouched.
    fn store_write(&mut self, market_id: MarketId, pool: Pool)
        requires
            pool.wf(),
        ensures
            final(self).pools() == old(self).pools().insert(market_id, pool),
            final(self).fee_bps() == old(self).fee_bps(),
            final(self).slippage_bps() == old(self).slippage_bps(),
            final(self).max_liquidity_cap() == old(self).max_liquidity_cap(),
    {
        proof {
            use_type_invariant(&*self);
        }
        let mut store = PoolStore::new();
        core::mem::swap(&mut store, &mut self.store);
        store.write(market_id, pool);
        self.store = store;
    }

    /// Create the liquidity pool for a market, splitting `initial_liquidity`
    /// evenly between the YES and NO reserves.
    ///
    /// Fails with `PoolAlreadyExists` if the market already has a pool, and
    /// with `InvalidAmount` if the liquidity is zero, above the configured
    /// cap, or too large to represent. On failure nothing changes.
    pub fn create_pool(
        &mut self,
        market_id: MarketId,
        initial_liquidity: u128,
        created_at: u64,
    ) -> (r: Result<(), AmmError>)
        ensures
            final(self).fee_bps() == old(self).fee_bps(),
            final(self).slippage_bps() == old(self).slippage_bps(),
            final(self).max_liquidity_cap() == old(self).max_liquidity_cap(),
            (match spec_create_pool(
                old(self).pools(),
                old(self).max_liquidity_cap(),
                market_id,
                initial_liquidity,
                created_at,
            ) {
                Ok(pool) => r == Ok::<(), AmmError>(()) && final(self).pools() == old(self).pools().insert(market_id, pool),
                Err(e) => r == Err::<(), AmmError>(e) && final(self).pools() == old(self).pools(),
            }),
            // The split is always even: both reserves start equal.
            r is Ok ==> final(self).pools()[market_id].yes_reserve == initial_liquidity / 2
                && final(self).pools()[market_id].no_reserve == initial_liquidity / 2,
    {
        proof {
            use_type_invariant(&*self);
        }
        if self.store.has(market_id) {
            return Err(AmmError::PoolAlreadyExists);
        }
        if initial_liquidity == 0 {
            return Err(AmmError::InvalidAmount);
        }
        if initial_liquidity > self.config.max_liquidity_cap {
            return Err(AmmError::InvalidAmount);
        }
        let half: u128 = initial_liquidity / 2;
        if half > MAX_RESERVE {
            return Err(AmmError::InvalidAmount);
        }
        let pool = Pool {
            yes_reserve: half,
            no_reserve: half,
            total_liquidity: half + half,
            created_at,
        };
        self.store_write(market_id, pool);
        Ok(())
    }

    /// Buy `outcome` shares (0 = NO, 1 = YES) for `amount`, requiring at
    /// least `min_shares` back.
    ///
    /// The fee is retained inside the pool, so the reserve product can only
    /// grow: the final clause states that no trade, on any market, ever
    /// decreases it. On failure nothing changes.
    pub fn buy_shares(
        &mut self,
        market_id: MarketId,
        outcome: u32,
        amount: u128,
        min_shares: u128,
    ) -> (r: Result<u128, AmmError>)
        ensures
            final(self).fee_bps() == old(self).fee_bps(),
            final(self).slippage_bps() == old(self).slippage_bps(),
            final(self).max_liquidity_cap() == old(self).max_liquidity_cap(),
            (match spec_buy(
                old(self).pools(),
                old(self).fee_bps(),
                market_id,
                outcome,
                amount,
                min_shares,
            ) {
                Ok((shares, pool)) => r == Ok::<u128, AmmError>(shares) && final(self).pools()
                    == old(self).pools().insert(market_id, pool),
                Err(e) => r == Err::<u128, AmmError>(e) && final(self).pools() == old(self).pools(),
            }),
            // Invariant monotonicity: no call decreases any pool's product.
            forall|m: MarketId| #[trigger] old(self).pools().contains_key(m) ==> final(self).pools().contains_key(m) && final(self).pools()[m].product() >= old(self).pools()[m].product(),
    {
        proof {
            use_type_invariant(&*self);
        }
        if outcome > 1 {
            return Err(AmmError::InvalidOutcome);
        }
        if amount == 0 {
            return Err(AmmError::InvalidAmount);
        }
        if !self.store.has(market_id) {
            return Err(AmmError::PoolNotFound);
        }
        let p = self.store.read(market_id);
        match quote_and_apply_buy(
            p.yes_reserve,
            p.no_reserve,
            self.config.fee_bps,
            outcome,
            amount,
            min_shares,
        ) {
            Ok(q) => {
                let new_pool = Pool {
                    yes_reserve: q.new_yes,
                    no_reserve: q.new_no,
                    total_liquidity: q.new_yes + q.new_no,
                    created_at: p.created_at,
                };
                self.store_write(market_id, new_pool);
                proof {
                    assert forall|m: MarketId| #[trigger] old(self).pools().contains_key(m)
                        implies self.pools().contains_key(m) && self.pools()[m].product() >= old(self).pools()[m].product() by {
                        if m == market_id {
                            assert(self.pools()[m] == new_pool);
                        }
                    }
                }
                Ok(q.shares_out)
            }
            Err(e) => Err(e),
        }
    }

    /// Sell `shares` of `outcome` back to the pool, requiring at least
    /// `min_payout` back net of the fee.
    ///
    /// The sold shares are credited to the sold side's reserve and the gross
    /// payout (fee included) leaves the other, so here too the reserve
    /// product never decreases. On failure nothing changes.
    pub fn sell_shares(
        &mut self,
        market_id: MarketId,
        outcome: u32,
        shares: u128,
        min_payout: u128,
    ) -> (r: Result<u128, AmmError>)
        ensures
            final(self).fee_bps() == old(self).fee_bps(),
            final(self).slippage_bps() == old(self).slippage_bps(),
            final(self).max_liquidity_cap() == old(self).max_liquidity_cap(),
            (match spec_sell(
                old(self).pools(),
                old(self).fee_bps(),
                market_id,
                outcome,
                shares,
                min_payout,
            ) {
                Ok((payout, pool)) => r == Ok::<u128, AmmError>(payout) && final(self).pools()
                    == old(self).pools().insert(market_id, pool),
                Err(e) => r == Err::<u128, AmmError>(e) && final(self).pools() == old(self).pools(),
            }),
            // Invariant monotonicity: no call decreases any pool's product.
            forall|m: MarketId| #[trigger] old(self).pools().contains_key(m) ==> final(self).pools().contains_key(m) && final(self).pools()[m].product() >= old(self).pools()[m].product(),
    {
        proof {
            use_type_invariant(&*self);
        }
        if outcome > 1 {
            return Err(AmmError::InvalidOutcome);
        }
        if shares == 0 {
            return Err(AmmError::InvalidAmount);
        }
        if !self.store.has(market_id) {
            return Err(AmmError::PoolNotFound);
        }
        let p = self.store.read(market_id);
        match quote_and_apply_sell(
            p.yes_reserve,
            p.no_reserve,
            self.config.fee_bps,
            outcome,
            shares,
            min_payout,
        ) {
            Ok(q) => {
                let new_pool = Pool {
                    yes_reserve: q.new_yes,
                    no_reserve: q.new_no,
                    total_liquidity: q.new_yes + q.new_no,
                    created_at: p.created_at,
                };
                self.store_write(market_id, new_pool);
                proof {
                    assert forall|m: MarketId| #[trigger] old(self).pools().contains_key(m)
                        implies self.pools().contains_key(m) && self.pools()[m].product() >= old(self).pools()[m].product() by {
                        if m == market_id {
                            assert(self.pools()[m] == new_pool);
                        }
                    }
                }
                Ok(q.payout)
            }
            Err(e) => Err(e),
        }
    }

    /// The implied odds for a market, in basis points. A market without a
    /// pool, or with an empty pool, is priced 50/50; the pair always sums to
    /// exactly 10000. Read-only.
    pub fn get_odds(&self, market_id: MarketId) -> (r: (u32, u32))
        ensures
            r == spec_get_odds(self.pools(), market_id),
            r.0 + r.1 == 10000,
    {
        proof {
            use_type_invariant(&*self);
        }
        if !self.store.has(market_id) {
            return (5000, 5000);
        }
        let p = self.store.read(market_id);
        compute_odds(p.yes_reserve, p.no_reserve)
    }

    /// The reserves, total liquidity, and implied odds for a market; all
    /// zeros plus 50/50 odds for a market without a pool. Read-only.
    pub fn get_pool_state(&self, market_id: MarketId) -> (r: (u128, u128, u128, u32, u32))
        ensures
            r == spec_get_pool_state(self.pools(), market_id),
            r.3 + r.4 == 10000,
    {
        proof {
            use_type_invariant(&*self);
        }
        if !self.store.has(market_id) {
            return (0, 0, 0, 5000, 5000);
        }
        let p = self.store.read(market_id);
        let total: u128 = p.yes_reserve + p.no_reserve;
        let (yes_odds, no_odds) = compute_odds(p.yes_reserve, p.no_reserve);
        (p.yes_reserve, p.no_reserve, total, yes_odds, no_odds)
    }
}

} // verus!
