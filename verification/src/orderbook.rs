//! Best-of-book order tracking and market-order routing.
//!
//! The book keeps only the best bid and best ask seen from the stream of
//! limit-order submissions, plus a strictly increasing order-id counter. It
//! never matches resting orders against each other and never uncrosses;
//! cancellation is recorded but does not recompute the quotes. Prices are
//! held directly in basis points; an ask of `0` means no ask was posted.

use crate::events::OrderCancelled;
use crate::events::OrderPlaced;
use crate::events::TradeExecuted;
use crate::AccountKey;
use crate::Side;
use vstd::prelude::*;

verus! {

/// One best-of-book tracker per market.
pub struct OrderBook {
    pub market: AccountKey,
    /// Highest buy price seen, in basis points; `0` until a bid arrives.
    pub best_bid: u64,
    /// Lowest sell price seen, in basis points; `0` means no ask posted.
    pub best_ask: u64,
    /// Source of order identifiers; each submission takes the current value.
    pub event_counter: u64,
}

impl OrderBook {
    /// A fresh book for a market: no quotes, counter at zero.
    pub fn new(market: AccountKey) -> (book: OrderBook)
        ensures
            book == (OrderBook { market, best_bid: 0, best_ask: 0, event_counter: 0 }),
    {
        OrderBook { market, best_bid: 0, best_ask: 0, event_counter: 0 }
    }

    /// The best bid after a submission: a buy order raises it when it prices
    /// above the current best.
    pub open spec fn bid_after(self, side: Side, price_bps: u64) -> u64 {
        if side == Side::Buy && price_bps > self.best_bid {
            price_bps
        } else {
            self.best_bid
        }
    }

    /// The best ask after a submission: a sell order lowers it when the ask
    /// is unset or the order prices below the current best.
    pub open spec fn ask_after(self, side: Side, price_bps: u64) -> u64 {
        if side != Side::Buy && (self.best_ask == 0 || price_bps < self.best_ask) {
            price_bps
        } else {
            self.best_ask
        }
    }

    /// Accepts a limit order: allocates the next order id, updates the
    /// best-of-book quote on the order's side, and reports the submission.
    /// No matching happens here; the expiry is carried for the caller only.
    pub fn place_limit_order(&mut self, owner: AccountKey, side: Side, price_bps: u64, size: u64, expiry: i64, now: i64) -> (r: (u64, OrderPlaced))
        requires
            old(self).event_counter < u64::MAX,
        ensures
            r.0 == old(self).event_counter,
            final(self).event_counter == old(self).event_counter + 1,
            final(self).best_bid == old(self).bid_after(side, price_bps),
            final(self).best_ask == old(self).ask_after(side, price_bps),
            final(self).market == old(self).market,
            r.1 == (OrderPlaced {
                order_id: old(self).event_counter,
                market: old(self).market,
                owner,
                side,
                price_bps,
                size,
                ts: now,
            }),
    {
        let order_id: u64 = self.event_counter;
        self.event_counter = self.event_counter + 1;
        match side {
            Side::Buy => {
                if price_bps > self.best_bid {
                    self.best_bid = price_bps;
                }
            },
            Side::Sell => {
                if self.best_ask == 0 || price_bps < self.best_ask {
                    self.best_ask = price_bps;
                }
            },
        }
        let event = OrderPlaced { order_id, market: self.market, owner, side, price_bps, size, ts: now };
        (order_id, event)
    }

    /// Records a cancellation. The best-of-book quotes are left as they are:
    /// recomputing them would need the full depth this tracker does not keep.
    pub fn cancel_order(&self, order_id: u64, now: i64) -> (r: OrderCancelled)
        ensures
            r == (OrderCancelled { order_id, ts: now }),
    {
        OrderCancelled { order_id, ts: now }
    }

    /// The price a marketable order is quoted at: a buy takes the best ask,
    /// a sell the best bid, straight from the book's snapshot.
    pub open spec fn market_quote(self, side: Side) -> u64 {
        if side == Side::Buy {
            self.best_ask
        } else {
            self.best_bid
        }
    }

    /// Routes a market order. The routing today always settles at the
    /// best-of-book snapshot price without filling any resting order: true
    /// crossing against the book is a documented extension point, not
    /// implemented here.
    pub fn execute_market_order(&self, taker: AccountKey, side: Side, size: u64, now: i64) -> (r: TradeExecuted)
        ensures
            r == (TradeExecuted {
                market: self.market,
                taker,
                side,
                price_bps: self.market_quote(side),
                size,
                ts: now,
            }),
    {
        let price_bps: u64 = match side {
            Side::Buy => self.best_ask,
            Side::Sell => self.best_bid,
        };
        TradeExecuted { market: self.market, taker, side, price_bps, size, ts: now }
    }
}

} // verus!
