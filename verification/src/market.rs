//! Market lifecycle, aggregate liquidity accounting and the collateral
//! vault reference record.
//!
//! A market is created in the active state, carries immutable distributional
//! parameters (a fixed-point prior over the outcome domain), and moves to
//! resolved exactly once. The middle lifecycle value is reserved: no
//! transition reaches it, but resolution still accepts it. Resolution trusts
//! its caller's outcome value: validating an external price attestation is
//! an explicit extension point, not implemented here.

use crate::events::LiquidityAdded;
use crate::events::LiquidityRemoved;
use crate::events::MarketCreated;
use crate::events::MarketInfrastructureInitialized;
use crate::events::MarketResolved;
use crate::events::PayoutClaimed;
use crate::orderbook::OrderBook;
use crate::AccountKey;
use crate::ErrorCode;
use vstd::prelude::*;

verus! {

/// Lifecycle of a market. `Reserved` is deliberately a dead state: creation
/// starts at `Active`, resolution ends at `Resolved`, and nothing sets
/// `Reserved` — but resolution still accepts it, keeping the transition
/// table total over all three states.
#[derive(Clone, Copy, PartialEq, Eq, Structural, Debug)]
pub enum MarketStatus {
    Active,
    Reserved,
    Resolved,
}

/// The immutable parameters a market is created with. Real-valued fields
/// (outcome domain, prior and stepping) are fixed point, scaled by
/// [`crate::math::SCALE`].
#[derive(Clone, Copy, PartialEq, Eq, Structural, Debug)]
pub struct MarketParams {
    pub slug: u64,
    pub outcome_min: i64,
    pub outcome_max: i64,
    pub unit: u64,
    pub dist_type: u8,
    pub mu: i64,
    pub sigma: i64,
    pub sigma_min: i64,
    pub step: i64,
    pub resolution_time: i64,
    /// Opaque reference to the oracle configuration record.
    pub oracle_config: u64,
    pub fee_bps_platform: u16,
    pub fee_bps_creator: u16,
}

/// One market record: identity, authority, distributional prior, fee
/// schedule, lifecycle state and references to its child records.
pub struct Market {
    pub authority: AccountKey,
    pub slug: u64,
    pub market_type: u8,
    pub outcome_min: i64,
    pub outcome_max: i64,
    pub unit: u64,
    pub dist_type: u8,
    pub mu: i64,
    pub sigma: i64,
    pub sigma_min: i64,
    pub step: i64,
    pub resolution_time: i64,
    pub oracle_config: u64,
    pub fee_bps_platform: u16,
    pub fee_bps_creator: u16,
    pub liquidity_pool: AccountKey,
    pub order_book: AccountKey,
    pub collateral_vault: AccountKey,
    pub status: MarketStatus,
}

/// Aggregate LP accounting for a market: a liquidity counter only, no token
/// transfer is modeled.
pub struct LiquidityPool {
    pub market: AccountKey,
    pub vault: AccountKey,
    pub total_liquidity: u64,
}

/// Reference record for a market's collateral vault.
pub struct CollateralVault {
    pub market: AccountKey,
}

impl Market {
    /// Creates a market in the active state with the given distributional
    /// parameters; child record references stay unset until
    /// [`Self::initialize_market_infrastructure`].
    pub fn create_market(market_key: AccountKey, authority: AccountKey, params: MarketParams, now: i64) -> (r: (Market, MarketCreated))
        ensures
            r.0 == (Market {
                authority,
                slug: params.slug,
                market_type: 0,
                outcome_min: params.outcome_min,
                outcome_max: params.outcome_max,
                unit: params.unit,
                dist_type: params.dist_type,
                mu: params.mu,
                sigma: params.sigma,
                sigma_min: params.sigma_min,
                step: params.step,
                resolution_time: params.resolution_time,
                oracle_config: params.oracle_config,
                fee_bps_platform: params.fee_bps_platform,
                fee_bps_creator: params.fee_bps_creator,
                liquidity_pool: 0,
                order_book: 0,
                collateral_vault: 0,
                status: MarketStatus::Active,
            }),
            r.1 == (MarketCreated {
                market: market_key,
                authority,
                slug: params.slug,
                outcome_min: params.outcome_min,
                outcome_max: params.outcome_max,
                unit: params.unit,
                ts: now,
            }),
    {
        let market = Market {
            authority,
            slug: params.slug,
            market_type: 0,
            outcome_min: params.outcome_min,
            outcome_max: params.outcome_max,
            unit: params.unit,
            dist_type: params.dist_type,
            mu: params.mu,
            sigma: params.sigma,
            sigma_min: params.sigma_min,
            step: params.step,
            resolution_time: params.resolution_time,
            oracle_config: params.oracle_config,
            fee_bps_platform: params.fee_bps_platform,
            fee_bps_creator: params.fee_bps_creator,
            liquidity_pool: 0,
            order_book: 0,
            collateral_vault: 0,
            status: MarketStatus::Active,
        };
        let event = MarketCreated {
            market: market_key,
            authority,
            slug: params.slug,
            outcome_min: params.outcome_min,
            outcome_max: params.outcome_max,
            unit: params.unit,
            ts: now,
        };
        (market, event)
    }

    /// Creates the market's child records — aggregate liquidity pool, order
    /// book and collateral vault — and stores their keys on the market.
    /// Only the market's authority may do this.
    pub fn initialize_market_infrastructure(&mut self, caller: AccountKey, market_key: AccountKey, liquidity_pool_key: AccountKey, order_book_key: AccountKey, collateral_vault_key: AccountKey, now: i64) -> (r: Result<(LiquidityPool, OrderBook, CollateralVault, MarketInfrastructureInitialized), ErrorCode>)
        ensures
            caller != old(self).authority ==> r == Err::<(LiquidityPool, OrderBook, CollateralVault, MarketInfrastructureInitialized), ErrorCode>(ErrorCode::Unauthorized) && *final(self) == *old(self),
            caller == old(self).authority ==> {
                &&& *final(self) == (Market {
                    liquidity_pool: liquidity_pool_key,
                    order_book: order_book_key,
                    collateral_vault: collateral_vault_key,
                    ..*old(self)
                })
                &&& r is Ok
                &&& r->Ok_0.0 == (LiquidityPool { market: market_key, vault: collateral_vault_key, total_liquidity: 0 })
                &&& r->Ok_0.1 == (OrderBook { market: market_key, best_bid: 0, best_ask: 0, event_counter: 0 })
                &&& r->Ok_0.2 == (CollateralVault { market: market_key })
                &&& r->Ok_0.3 == (MarketInfrastructureInitialized { market: market_key, ts: now })
            },
    {
        if caller != self.authority {
            return Err(ErrorCode::Unauthorized);
        }
        self.liquidity_pool = liquidity_pool_key;
        self.order_book = order_book_key;
        self.collateral_vault = collateral_vault_key;
        let lp = LiquidityPool { market: market_key, vault: collateral_vault_key, total_liquidity: 0 };
        let ob = OrderBook::new(market_key);
        let cv = CollateralVault { market: market_key };
        let event = MarketInfrastructureInitialized { market: market_key, ts: now };
        Ok((lp, ob, cv, event))
    }

    /// Resolves the market to an outcome value. Succeeds exactly once: a
    /// market that is already resolved fails with
    /// [`ErrorCode::MarketNotActive`]. The outcome value is taken on the
    /// caller's word: `_proof` carries an attestation that nothing validates
    /// yet — staleness and confidence checks against the oracle
    /// configuration are an extension point.
    pub fn resolve_market(&mut self, market_key: AccountKey, outcome_value: i64, _proof: Vec<u8>, now: i64) -> (r: Result<MarketResolved, ErrorCode>)
        ensures
            old(self).status == MarketStatus::Resolved ==> r == Err::<MarketResolved, ErrorCode>(ErrorCode::MarketNotActive) && *final(self) == *old(self),
            old(self).status != MarketStatus::Resolved ==> {
                &&& *final(self) == (Market { status: MarketStatus::Resolved, ..*old(self) })
                &&& r == Ok::<MarketResolved, ErrorCode>(MarketResolved { market: market_key, outcome_value, ts: now })
            },
    {
        match self.status {
            MarketStatus::Resolved => Err(ErrorCode::MarketNotActive),
            _ => {
                self.status = MarketStatus::Resolved;
                Ok(MarketResolved { market: market_key, outcome_value, ts: now })
            },
        }
    }

    /// Records a payout claim. Payout computation from the resolved outcome
    /// is not implemented in this core: the record deliberately carries
    /// zeroes.
    pub fn claim_payout(&self, now: i64) -> (r: PayoutClaimed)
        ensures
            r == (PayoutClaimed { owner: 0, market: 0, amount: 0, ts: now }),
    {
        PayoutClaimed { owner: 0, market: 0, amount: 0, ts: now }
    }
}

impl LiquidityPool {
    /// Adds liquidity to the aggregate counter, saturating at the machine
    /// word.
    pub fn add_liquidity(&mut self, provider: AccountKey, amount: u64, now: i64) -> (r: LiquidityAdded)
        ensures
            final(self).total_liquidity == if old(self).total_liquidity + amount > u64::MAX { u64::MAX as int } else { old(self).total_liquidity + amount },
            final(self).market == old(self).market,
            final(self).vault == old(self).vault,
            r == (LiquidityAdded { market: old(self).market, provider, amount, ts: now }),
    {
        self.total_liquidity = if amount <= u64::MAX - self.total_liquidity {
            self.total_liquidity + amount
        } else {
            u64::MAX
        };
        LiquidityAdded { market: self.market, provider, amount, ts: now }
    }

    /// Removes liquidity from the aggregate counter. Fails with
    /// [`ErrorCode::MarketNotActive`] — the error that doubles for
    /// insufficient liquidity — when the counter holds less than `amount`.
    pub fn remove_liquidity(&mut self, provider: AccountKey, amount: u64, now: i64) -> (r: Result<LiquidityRemoved, ErrorCode>)
        ensures
            old(self).total_liquidity < amount ==> r == Err::<LiquidityRemoved, ErrorCode>(ErrorCode::MarketNotActive) && *final(self) == *old(self),
            old(self).total_liquidity >= amount ==> {
                &&& final(self).total_liquidity == old(self).total_liquidity - amount
                &&& final(self).market == old(self).market
                &&& final(self).vault == old(self).vault
                &&& r == Ok::<LiquidityRemoved, ErrorCode>(LiquidityRemoved { market: old(self).market, provider, amount, ts: now })
            },
    {
        if self.total_liquidity < amount {
            return Err(ErrorCode::MarketNotActive);
        }
        self.total_liquidity = self.total_liquidity - amount;
        Ok(LiquidityRemoved { market: self.market, provider, amount, ts: now })
    }
}

} // verus!
