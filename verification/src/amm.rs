//! The pm-AMM: a constant-product market maker over two virtual reserves
//! with time-decaying effective liquidity.
//!
//! The pool stores integer reserves `x` and `y`. On every trade the current
//! effective liquidity is recomputed from the base constant `l0` (see
//! [`crate::math::effective_liquidity`]), half of it is added to each side to
//! form the virtual reserves, and the constant product of those virtual
//! reserves prices the fill. Fees accrue to the pool: a buyer pays the output
//! delta plus the fee, a seller receives the delta minus the fee. All
//! arithmetic saturates at the machine word and divisions floor, so a failed
//! or degenerate trade can never drive a reserve negative.

use crate::events::PmAmmInitialized;
use crate::events::TradeExecuted;
use crate::math::effective_liquidity;
use crate::math::effective_liquidity_spec;
use crate::AccountKey;
use crate::ErrorCode;
use crate::Side;
use vstd::math::max;
use vstd::math::min;
use vstd::prelude::*;

verus! {

/// Fee denominator: fees are quoted in basis points.
pub const BPS_DENOM: u64 = 10_000;

/// A value clamped into the `u64` range.
pub open spec fn cap_u64(v: int) -> int {
    if v > u64::MAX {
        u64::MAX as int
    } else if v < 0 {
        0
    } else {
        v
    }
}

/// A virtual reserve: the stored reserve plus half the effective liquidity,
/// clamped at the machine word.
pub open spec fn virtual_reserve(stored: int, l_eff: int) -> int {
    cap_u64(stored + l_eff / 2)
}

/// How much of a buy of `size` the pool can actually fill: at least one
/// virtual unit of `x` always stays in the pool.
pub open spec fn buy_take(vx: int, size: int) -> int {
    min(size, max(vx - 1, 0))
}

/// The virtual `x` reserve after a buy, floored at one unit.
pub open spec fn buy_new_vx(vx: int, size: int) -> int {
    max(vx - buy_take(vx, size), 1)
}

/// The `y` owed by a buyer before fees: the rise of the virtual `y` reserve
/// under the constant product, clamped at the machine word.
pub open spec fn buy_delta_y(vx: int, vy: int, size: int) -> int {
    cap_u64(max(vx * vy / buy_new_vx(vx, size) - vy, 0))
}

/// The fee on a notional delta, in basis points, rounded down.
pub open spec fn fee_on(delta_y: int, fee_bps: int) -> int {
    delta_y * fee_bps / BPS_DENOM as int
}

/// What a buyer pays in `y`: delta plus fee, clamped at the machine word.
pub open spec fn buy_charge(vx: int, vy: int, size: int, fee_bps: int) -> int {
    cap_u64(buy_delta_y(vx, vy, size) + fee_on(buy_delta_y(vx, vy, size), fee_bps))
}

/// The `y` released by a sell of `size` before fees: the fall of the virtual
/// `y` reserve under the constant product.
pub open spec fn sell_delta_y(vx: int, vy: int, size: int) -> int {
    cap_u64(max(vy - vx * vy / (vx + size), 0))
}

/// What a seller receives in `y`: delta minus fee, floored at zero.
pub open spec fn sell_payout(vx: int, vy: int, size: int, fee_bps: int) -> int {
    max(sell_delta_y(vx, vy, size) - fee_on(sell_delta_y(vx, vy, size), fee_bps), 0)
}

/// The reported average fill price in basis points: realized notional over
/// size, so it reflects slippage, clamped at the machine word.
pub open spec fn avg_price_bps(total_y: int, size: int) -> int {
    cap_u64(total_y * BPS_DENOM as int / size)
}

/// A buy moves the virtual reserves the right way: the virtual `x` reserve
/// never falls below one unit, it strictly falls whenever the pool holds more
/// than one unit, the buyer's delta is never negative, and the constant
/// product is conserved up to the floor of the division.
pub proof fn lemma_buy_moves_reserves(vx: int, vy: int, size: int)
    requires
        0 <= vx,
        0 <= vy,
        1 <= size,
    ensures
        1 <= buy_new_vx(vx, size),
        2 <= vx ==> buy_new_vx(vx, size) < vx,
        0 <= buy_delta_y(vx, vy, size),
        buy_new_vx(vx, size) * (vx * vy / buy_new_vx(vx, size)) <= vx * vy,
        vx * vy < buy_new_vx(vx, size) * (vx * vy / buy_new_vx(vx, size) + 1),
{
    let nvx = buy_new_vx(vx, size);
    let k = vx * vy;
    assert(vx * vy >= 0) by (nonlinear_arith)
        requires vx >= 0, vy >= 0,
    {}
    vstd::arithmetic::div_mod::lemma_fundamental_div_mod(k, nvx);
    assert(nvx * (k / nvx) <= k && k < nvx * (k / nvx + 1)) by (nonlinear_arith)
        requires
            k == nvx * (k / nvx) + k % nvx,
            0 <= k % nvx,
            (k % nvx) < nvx,
            1 <= nvx,
    {}
}

/// A sell moves the virtual reserves the right way: the virtual `x` reserve
/// strictly rises, the seller's delta lies between zero and the whole
/// virtual `y` reserve, and the constant product is conserved up to the
/// floor of the division.
pub proof fn lemma_sell_moves_reserves(vx: int, vy: int, size: int)
    requires
        0 <= vx,
        0 <= vy,
        1 <= size,
    ensures
        vx < vx + size,
        0 <= sell_delta_y(vx, vy, size) <= vy,
        (vx + size) * (vx * vy / (vx + size)) <= vx * vy,
        vx * vy < (vx + size) * (vx * vy / (vx + size) + 1),
{
    let nvx = vx + size;
    let k = vx * vy;
    assert(vx * vy >= 0) by (nonlinear_arith)
        requires vx >= 0, vy >= 0,
    {}
    vstd::arithmetic::div_mod::lemma_fundamental_div_mod(k, nvx);
    assert(nvx * (k / nvx) <= k && k < nvx * (k / nvx + 1)) by (nonlinear_arith)
        requires
            k == nvx * (k / nvx) + k % nvx,
            0 <= k % nvx,
            (k % nvx) < nvx,
            1 <= nvx,
    {}
    assert(k / nvx >= 0) by (nonlinear_arith)
        requires k >= 0, nvx >= 1,
    {}
}

/// No round-trip arbitrage: buying `size` units and immediately selling the
/// same `size` back — against the virtual reserves the buy left behind — is
/// strictly loss-making for the trader whenever the buy-side fee amounts to
/// at least one unit. (A fee that floors to zero can leave the trader one
/// unit ahead through rounding alone, so those inputs are excluded:
/// `vx = 1877, vy = 681, size = 12, fee_bps = 1` charges 4 and pays back 5.)
/// The preconditions keep every saturation clamp out of reach and ask for a
/// full fill: `size` is at most the virtual reserve less one and at most the
/// stored reserve, so the pool state after the buy has virtual reserves
/// `vx - size` and `vy + charge`.
pub proof fn lemma_round_trip_no_arbitrage(vx: int, vy: int, size: int, fee_bps: int)
    requires
        1 <= size,
        size + 1 <= vx,
        0 <= vy,
        0 <= fee_bps <= BPS_DENOM as int,
        vy + 2 * (vx * vy) <= u64::MAX,
        fee_on(buy_delta_y(vx, vy, size), fee_bps) >= 1,
    ensures
        sell_payout(vx - size, vy + buy_charge(vx, vy, size, fee_bps), size, fee_bps) < buy_charge(vx, vy, size, fee_bps),
{
    let t = BPS_DENOM as int;
    let b = vx - size;
    let k = vx * vy;
    assert(k >= 0 && k <= u64::MAX && b * vy <= k && size * vy <= k) by (nonlinear_arith)
        requires vx >= 1, vy >= 0, 1 <= size, b == vx - size, b >= 1, k == vx * vy, vy + 2 * (vx * vy) <= u64::MAX,
    {}

    // The buy side: the pool fills the whole size, so the new virtual x
    // reserve is exactly b, and the delta is k / b - vy.
    assert(buy_take(vx, size) == size);
    assert(buy_new_vx(vx, size) == b);
    vstd::arithmetic::div_mod::lemma_div_is_ordered_by_denominator(k, b, vx);
    vstd::arithmetic::div_mod::lemma_div_multiples_vanish(vy, vx);
    assert(k / vx == vy);
    let q1 = k / b;
    assert(q1 >= vy);
    vstd::arithmetic::div_mod::lemma_fundamental_div_mod(k, b);
    vstd::arithmetic::div_mod::lemma_mod_division_less_than_divisor(k, b);
    let rho1 = k % b;
    let dy1 = q1 - vy;
    assert(dy1 <= k);
    assert(buy_delta_y(vx, vy, size) == dy1);
    let fee1 = dy1 * fee_bps / t;
    assert(0 <= fee1 <= dy1) by (nonlinear_arith)
        requires fee1 == dy1 * fee_bps / t, 0 <= dy1, 0 <= fee_bps, fee_bps <= t, t == 10_000,
    {}
    let charge = dy1 + fee1;
    assert(buy_charge(vx, vy, size, fee_bps) == charge);
    assert(fee1 >= 1);

    // b * dy1 == size * vy - rho1: the exact notional the buy moved.
    assert(b * dy1 == size * vy - rho1) by (nonlinear_arith)
        requires
            k == b * q1 + rho1,
            dy1 == q1 - vy,
            k == vx * vy,
            b == vx - size,
    {}

    // The sell side against the post-buy reserves (b, vy + charge).
    let v2 = vy + charge;
    assert(0 <= v2 && v2 <= u64::MAX);
    let q2 = b * v2 / (b + size);
    assert(b + size == vx);
    vstd::arithmetic::div_mod::lemma_fundamental_div_mod(b * v2, vx);
    vstd::arithmetic::div_mod::lemma_mod_division_less_than_divisor(b * v2, vx);
    let r2 = (b * v2) % vx;
    assert(b * v2 >= 0) by (nonlinear_arith)
        requires b >= 1, v2 >= 0,
    {}
    assert(b * v2 <= vx * v2) by (nonlinear_arith)
        requires b <= vx, v2 >= 0,
    {}
    vstd::arithmetic::div_mod::lemma_div_is_ordered(b * v2, vx * v2, vx);
    vstd::arithmetic::div_mod::lemma_div_multiples_vanish(v2, vx);
    assert(vx * v2 / vx == v2);
    assert(q2 <= v2);
    let dy2 = v2 - q2;
    assert(sell_delta_y(b, v2, size) == dy2);
    let fee2 = dy2 * fee_bps / t;
    assert(0 <= fee2 <= dy2) by (nonlinear_arith)
        requires fee2 == dy2 * fee_bps / t, 0 <= dy2, 0 <= fee_bps, fee_bps <= t, t == 10_000,
    {}

    // vx * dy2 == size * v2 + r2: the exact notional the sell moves back.
    assert(vx * dy2 == size * v2 + r2) by (nonlinear_arith)
        requires
            b * v2 == vx * q2 + r2,
            dy2 == v2 - q2,
            b == vx - size,
    {}

    // The sell moves at least as much notional as the buy did — the charge
    // the buy added to the y reserve works in the seller's favour — so the
    // sell-side fee is at least the buy-side fee, hence at least one unit.
    assert(vx * (dy2 - dy1) == rho1 + size * fee1 + r2) by (nonlinear_arith)
        requires
            vx * dy2 == size * v2 + r2,
            v2 == vy + dy1 + fee1,
            b * dy1 == size * vy - rho1,
            b == vx - size,
    {}
    assert(dy2 >= dy1) by (nonlinear_arith)
        requires
            vx * (dy2 - dy1) == rho1 + size * fee1 + r2,
            rho1 >= 0,
            r2 >= 0,
            size >= 1,
            fee1 >= 0,
            vx >= 1,
    {}
    assert(dy1 * fee_bps <= dy2 * fee_bps) by (nonlinear_arith)
        requires dy1 <= dy2, fee_bps >= 0,
    {}
    vstd::arithmetic::div_mod::lemma_div_is_ordered(dy1 * fee_bps, dy2 * fee_bps, t);
    assert(fee2 >= fee1);
    assert(fee2 >= 1);

    // The exact ledger of the round trip: what the trader loses, scaled by
    // vx, is the two fees less the two division remainders.
    let loss = charge - dy2 + fee2;
    assert(vx * loss == b * fee1 + vx * fee2 - rho1 - r2) by (nonlinear_arith)
        requires
            loss == charge - dy2 + fee2,
            charge == dy1 + fee1,
            vx * dy2 == size * v2 + r2,
            v2 == vy + charge,
            b * dy1 == size * vy - rho1,
            b == vx - size,
    {}
    assert(rho1 <= b - 1);
    assert(r2 <= vx - 1);
    assert(vx * loss >= b * (fee1 - 1) + vx * (fee2 - 1) + 2) by (nonlinear_arith)
        requires
            vx * loss == b * fee1 + vx * fee2 - rho1 - r2,
            rho1 <= b - 1,
            r2 <= vx - 1,
    {}
    assert(loss >= 1) by (nonlinear_arith)
        requires
            vx * loss >= b * (fee1 - 1) + vx * (fee2 - 1) + 2,
            fee1 >= 1,
            fee2 >= 1,
            b >= 1,
            vx >= 2,
    {}
    if fee2 <= dy2 {
        assert(sell_payout(b, v2, size, fee_bps) == dy2 - fee2);
    } else {
        assert(sell_payout(b, v2, size, fee_bps) == 0);
        assert(charge >= 1);
    }
}

/// One constant-product pool per market.
pub struct PmAmmPool {
    pub market: AccountKey,
    /// Stored outcome-token reserve.
    pub x: u64,
    /// Stored quote-token reserve.
    pub y: u64,
    /// Base liquidity constant.
    pub l0: u64,
    /// Whether effective liquidity decays with time to expiry.
    pub dynamic_on: bool,
    /// Fee in basis points, retained by the pool.
    pub fee_bps: u16,
    /// Trades are accepted strictly before this timestamp.
    pub expiry_ts: i64,
}

impl PmAmmPool {
    /// The effective liquidity this pool quotes at time `now`.
    pub open spec fn liquidity_at(self, now: i64) -> int {
        effective_liquidity_spec(self.l0, self.dynamic_on, self.expiry_ts, now)
    }

    /// The virtual `x` reserve at time `now`.
    pub open spec fn vx_at(self, now: i64) -> int {
        virtual_reserve(self.x as int, self.liquidity_at(now))
    }

    /// The virtual `y` reserve at time `now`.
    pub open spec fn vy_at(self, now: i64) -> int {
        virtual_reserve(self.y as int, self.liquidity_at(now))
    }

    /// The stored reserves after a buy of `size` at time `now`: `x` gives up
    /// what the pool filled, `y` gains the charge, both saturating.
    pub open spec fn after_buy(self, size: u64, now: i64) -> PmAmmPool {
        let vx = self.vx_at(now);
        let vy = self.vy_at(now);
        let take = buy_take(vx, size as int);
        let charge = buy_charge(vx, vy, size as int, self.fee_bps as int);
        PmAmmPool {
            x: cap_u64(self.x - take) as u64,
            y: cap_u64(self.y + charge) as u64,
            ..self
        }
    }

    /// The stored reserves after a sell of `size` at time `now`: `x` gains
    /// the size, `y` gives up the payout, both saturating.
    pub open spec fn after_sell(self, size: u64, now: i64) -> PmAmmPool {
        let vx = self.vx_at(now);
        let vy = self.vy_at(now);
        let payout = sell_payout(vx, vy, size as int, self.fee_bps as int);
        PmAmmPool {
            x: cap_u64(self.x + size) as u64,
            y: cap_u64(self.y - payout) as u64,
            ..self
        }
    }

    /// The event a successful trade of `size` at time `now` reports: the
    /// price is derived from the realized notional, never a pre-trade quote.
    pub open spec fn trade_event(self, side: Side, size: u64, taker: AccountKey, now: i64) -> TradeExecuted {
        let vx = self.vx_at(now);
        let vy = self.vy_at(now);
        let total = if side == Side::Buy {
            buy_charge(vx, vy, size as int, self.fee_bps as int)
        } else {
            sell_payout(vx, vy, size as int, self.fee_bps as int)
        };
        TradeExecuted {
            market: self.market,
            taker,
            side,
            price_bps: avg_price_bps(total, size as int) as u64,
            size,
            ts: now,
        }
    }

    /// Executes a trade against the pool. A zero size is rejected as
    /// [`ErrorCode::InvalidAmount`] and a trade at or past expiry as
    /// [`ErrorCode::MarketNotActive`]; every other request fills, moving the
    /// stored reserves exactly as [`Self::after_buy`] or [`Self::after_sell`]
    /// says and reporting the realized average price. A failed trade leaves
    /// the pool unchanged.
    pub fn trade_pmamm(&mut self, side: Side, size: u64, taker: AccountKey, now: i64) -> (r: Result<TradeExecuted, ErrorCode>)
        ensures
            size == 0 ==> r == Err::<TradeExecuted, ErrorCode>(ErrorCode::InvalidAmount) && *final(self) == *old(self),
            size > 0 && now >= old(self).expiry_ts ==> r == Err::<TradeExecuted, ErrorCode>(ErrorCode::MarketNotActive) && *final(self) == *old(self),
            size > 0 && now < old(self).expiry_ts ==> {
                &&& r == Ok::<TradeExecuted, ErrorCode>(old(self).trade_event(side, size, taker, now))
                &&& side == Side::Buy ==> *final(self) == old(self).after_buy(size, now)
                &&& side != Side::Buy ==> *final(self) == old(self).after_sell(size, now)
            },
            final(self).market == old(self).market,
            final(self).l0 == old(self).l0,
            final(self).dynamic_on == old(self).dynamic_on,
            final(self).fee_bps == old(self).fee_bps,
            final(self).expiry_ts == old(self).expiry_ts,
            r is Ok && side == Side::Buy ==> final(self).x <= old(self).x && final(self).y >= old(self).y,
            r is Ok && side != Side::Buy ==> final(self).x >= old(self).x && final(self).y <= old(self).y,
    {
        if size == 0 {
            return Err(ErrorCode::InvalidAmount);
        }
        if now >= self.expiry_ts {
            return Err(ErrorCode::MarketNotActive);
        }
        let l_eff: u64 = effective_liquidity(self.l0, self.dynamic_on, self.expiry_ts, now);
        let half: u64 = l_eff / 2;
        let vx128: u128 = self.x as u128 + half as u128;
        let vx: u64 = if vx128 > u64::MAX as u128 {
            u64::MAX
        } else {
            vx128 as u64
        };
        let vy128: u128 = self.y as u128 + half as u128;
        let vy: u64 = if vy128 > u64::MAX as u128 {
            u64::MAX
        } else {
            vy128 as u64
        };
        proof {
            assert(vx as int * vy as int <= u128::MAX) by (nonlinear_arith)
                requires vx <= u64::MAX, vy <= u64::MAX,
            {}
        }
        let k: u128 = vx as u128 * vy as u128;
        if side == Side::Buy {
            let max_take: u64 = if vx >= 1 {
                vx - 1
            } else {
                0
            };
            let take: u64 = if size <= max_take {
                size
            } else {
                max_take
            };
            let nvx: u64 = if vx >= 1 {
                vx - take
            } else {
                1
            };
            proof {
                assert(nvx as int == buy_new_vx(vx as int, size as int));
            }
            let nvy: u128 = k / (nvx as u128);
            let dy128: u128 = if nvy > vy as u128 {
                nvy - vy as u128
            } else {
                0
            };
            let dy: u64 = if dy128 > u64::MAX as u128 {
                u64::MAX
            } else {
                dy128 as u64
            };
            proof {
                assert(dy as int == buy_delta_y(vx as int, vy as int, size as int));
            }
            proof {
                assert(dy as int * self.fee_bps as int <= u128::MAX) by (nonlinear_arith)
                    requires dy <= u64::MAX, self.fee_bps <= u16::MAX,
                {}
            }
            let fee: u128 = dy as u128 * self.fee_bps as u128 / (BPS_DENOM as u128);
            let charge128: u128 = dy as u128 + fee;
            let charge: u64 = if charge128 > u64::MAX as u128 {
                u64::MAX
            } else {
                charge128 as u64
            };
            proof {
                assert(charge as int == buy_charge(vx as int, vy as int, size as int, self.fee_bps as int));
            }
            self.x = if take <= self.x {
                self.x - take
            } else {
                0
            };
            self.y = if charge <= u64::MAX - self.y {
                self.y + charge
            } else {
                u64::MAX
            };
            let pb128: u128 = charge as u128 * BPS_DENOM as u128 / (size as u128);
            let price_bps: u64 = if pb128 > u64::MAX as u128 {
                u64::MAX
            } else {
                pb128 as u64
            };
            Ok(TradeExecuted { market: self.market, taker, side, price_bps, size, ts: now })
        } else {
            let nvx128: u128 = vx as u128 + size as u128;
            let nvy: u128 = k / nvx128;
            proof {
                assert((k as int) / (nvx128 as int) <= vy as int) by (nonlinear_arith)
                    requires
                        k == vx as int * vy as int,
                        nvx128 as int >= vx as int,
                        nvx128 as int >= 1,
                        0 <= (vx as int),
                        0 <= (vy as int),
                {}
            }
            let dy: u64 = if (vy as u128) > nvy {
                (vy as u128 - nvy) as u64
            } else {
                0
            };
            proof {
                assert(dy as int == sell_delta_y(vx as int, vy as int, size as int));
            }
            proof {
                assert(dy as int * self.fee_bps as int <= u128::MAX) by (nonlinear_arith)
                    requires dy <= u64::MAX, self.fee_bps <= u16::MAX,
                {}
            }
            let fee: u128 = dy as u128 * self.fee_bps as u128 / (BPS_DENOM as u128);
            let payout: u64 = if fee <= dy as u128 {
                dy - fee as u64
            } else {
                0
            };
            proof {
                assert(payout as int == sell_payout(vx as int, vy as int, size as int, self.fee_bps as int));
            }
            self.x = if size <= u64::MAX - self.x {
                self.x + size
            } else {
                u64::MAX
            };
            self.y = if payout <= self.y {
                self.y - payout
            } else {
                0
            };
            let pb128: u128 = payout as u128 * BPS_DENOM as u128 / (size as u128);
            let price_bps: u64 = if pb128 > u64::MAX as u128 {
                u64::MAX
            } else {
                pb128 as u64
            };
            Ok(TradeExecuted { market: self.market, taker, side, price_bps, size, ts: now })
        }
    }

    /// The round-trip law at the pool level: buying `size` and then selling
    /// `size` against the pool the buy left behind returns strictly less
    /// than the buy charged, whenever the buy-side fee amounts to at least
    /// one unit. The bounds keep every saturation clamp out of reach, and
    /// the fill must be full (`size` within both the virtual and the stored
    /// `x` reserve).
    pub proof fn lemma_round_trip_on_pool(self, size: u64, now: i64)
        requires
            1 <= size,
            size as int + 1 <= self.vx_at(now),
            size <= self.x,
            self.fee_bps as int <= BPS_DENOM as int,
            self.x as int + self.liquidity_at(now) / 2 <= u64::MAX,
            self.y as int + self.liquidity_at(now) / 2 + 2 * (self.vx_at(now) * self.vy_at(now)) <= u64::MAX,
            fee_on(buy_delta_y(self.vx_at(now), self.vy_at(now), size as int), self.fee_bps as int) >= 1,
        ensures
            sell_payout(
                self.after_buy(size, now).vx_at(now),
                self.after_buy(size, now).vy_at(now),
                size as int,
                self.fee_bps as int,
            ) < buy_charge(self.vx_at(now), self.vy_at(now), size as int, self.fee_bps as int),
    {
        let l = self.liquidity_at(now);
        let vx = self.vx_at(now);
        let vy = self.vy_at(now);
        let charge = buy_charge(vx, vy, size as int, self.fee_bps as int);
        let p2 = self.after_buy(size, now);
        assert(vx == self.x as int + l / 2);
        assert(vy == self.y as int + l / 2);
        let k = vx * vy;
        assert(k >= 0 && k <= u64::MAX) by (nonlinear_arith)
            requires vx >= 1, vy >= 0, k == vx * vy, vy + 2 * k <= u64::MAX,
        {}
        lemma_buy_moves_reserves(vx, vy, size as int);
        assert(buy_take(vx, size as int) == size as int);
        assert(buy_delta_y(vx, vy, size as int) <= k);
        let dy1 = buy_delta_y(vx, vy, size as int);
        assert(fee_on(dy1, self.fee_bps as int) <= dy1 && fee_on(dy1, self.fee_bps as int) >= 0) by (nonlinear_arith)
            requires 0 <= dy1, 0 <= (self.fee_bps as int), self.fee_bps as int <= 10_000, fee_on(dy1, self.fee_bps as int) == dy1 * (self.fee_bps as int) / 10_000,
        {}
        assert(charge <= 2 * k);
        assert(p2.x as int == self.x as int - size as int);
        assert(p2.y as int == self.y as int + charge);
        assert(p2.liquidity_at(now) == l);
        assert(p2.vx_at(now) == vx - size as int);
        assert(p2.vy_at(now) == vy + charge);
        lemma_round_trip_no_arbitrage(vx, vy, size as int, self.fee_bps as int);
    }

    /// Creates the pool for a market, splitting the base liquidity constant
    /// between the two stored reserves so neither starts at zero.
    pub fn init_pmamm(market: AccountKey, l0: u64, dynamic_on: bool, fee_bps: u16, expiry_ts: i64, now: i64) -> (r: (PmAmmPool, PmAmmInitialized))
        ensures
            r.0 == (PmAmmPool {
                market,
                x: (l0 / 2) as u64,
                y: (l0 - l0 / 2) as u64,
                l0,
                dynamic_on,
                fee_bps,
                expiry_ts,
            }),
            r.0.x + r.0.y == l0,
            r.1 == (PmAmmInitialized { market, l0, dynamic_on, fee_bps, expiry_ts, ts: now }),
    {
        let x: u64 = l0 / 2;
        let pool = PmAmmPool { market, x, y: l0 - x, l0, dynamic_on, fee_bps, expiry_ts };
        let event = PmAmmInitialized { market, l0, dynamic_on, fee_bps, expiry_ts, ts: now };
        (pool, event)
    }
}

} // verus!

