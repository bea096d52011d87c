use prediction_core::amm::PmAmmPool;
use prediction_core::market::Market;
use prediction_core::market::MarketParams;
use prediction_core::market::MarketStatus;
use prediction_core::orderbook::OrderBook;
use prediction_core::positions::Position;
use prediction_core::positions::UserProfile;
use prediction_core::registry::Registry;
use prediction_core::registry::Strategy;
use prediction_core::ErrorCode;
use prediction_core::Side;

fn sample_params() -> MarketParams {
    MarketParams {
        slug: 42,
        outcome_min: 0,
        outcome_max: 100_000_000,
        unit: 7,
        dist_type: 0,
        mu: 50_000_000,
        sigma: 10_000_000,
        sigma_min: 1_000_000,
        step: 1_000_000,
        resolution_time: 1_000,
        oracle_config: 99,
        fee_bps_platform: 20,
        fee_bps_creator: 10,
    }
}

#[test]
fn amm_buy_scenario_exact() {
    // l0 = 1000, dynamic off, fee 30 bps, buy 100 on a 500/500 pool:
    // l_eff = 1000, vx = vy = 1000, k = 1_000_000, new_vx = 900,
    // new_vy = 1111, delta_y = 111, fee floors to 0, buyer pays 111,
    // stored reserves end at x = 400, y = 611.
    let (mut pool, init_ev) = PmAmmPool::init_pmamm(5, 1_000, false, 30, 1_000, 0);
    assert_eq!(pool.x, 500);
    assert_eq!(pool.y, 500);
    assert_eq!(init_ev.l0, 1_000);
    let fill = pool.trade_pmamm(Side::Buy, 100, 77, 10).unwrap();
    assert_eq!(pool.x, 400);
    assert_eq!(pool.y, 611);
    assert_eq!(fill.price_bps, 11_100);
    assert_eq!(fill.size, 100);
    assert_eq!(fill.side, Side::Buy);
    assert_eq!(fill.market, 5);
    assert_eq!(fill.taker, 77);
    assert_eq!(fill.ts, 10);
}

#[test]
fn amm_round_trip_is_loss_making() {
    // With a 10% fee the buy charges 122 (delta 111 + fee 11); selling the
    // same size back pays out only 102: the trader loses 20.
    let (mut pool, _) = PmAmmPool::init_pmamm(5, 1_000, false, 1_000, 1_000, 0);
    let buy = pool.trade_pmamm(Side::Buy, 100, 77, 10).unwrap();
    assert_eq!(pool.x, 400);
    assert_eq!(pool.y, 622);
    assert_eq!(buy.price_bps, 12_200);
    let sell = pool.trade_pmamm(Side::Sell, 100, 77, 10).unwrap();
    assert_eq!(pool.x, 500);
    assert_eq!(pool.y, 520);
    assert_eq!(sell.price_bps, 10_200);
    // Charged 122, received 102; the pool is 20 ahead of its start.
    assert!(pool.y > 500);
}

#[test]
fn amm_buy_then_sell_moves_reserves_opposite_ways() {
    let (mut pool, _) = PmAmmPool::init_pmamm(9, 10_000, false, 30, 1_000, 0);
    let x0 = pool.x;
    let y0 = pool.y;
    pool.trade_pmamm(Side::Buy, 500, 1, 10).unwrap();
    assert!(pool.x < x0);
    assert!(pool.y > y0);
    let x1 = pool.x;
    let y1 = pool.y;
    pool.trade_pmamm(Side::Sell, 250, 1, 11).unwrap();
    assert!(pool.x > x1);
    assert!(pool.y < y1);
}

#[test]
fn amm_partial_fill_keeps_one_virtual_unit() {
    // A buy larger than the pool can fill takes only vx - 1 = 999 units,
    // leaving one virtual unit of x; the stored x reserve saturates at zero.
    let (mut pool, _) = PmAmmPool::init_pmamm(5, 1_000, false, 30, 1_000, 0);
    let fill = pool.trade_pmamm(Side::Buy, 5_000, 77, 10).unwrap();
    assert_eq!(pool.x, 0);
    assert_eq!(pool.y, 1_002_497);
    assert_eq!(fill.price_bps, 2_003_994);
}

#[test]
fn amm_degenerate_pool_trades_nothing() {
    // An empty pool with no liquidity constant moves nothing either way.
    let (mut pool, _) = PmAmmPool::init_pmamm(5, 0, false, 30, 1_000, 0);
    let buy = pool.trade_pmamm(Side::Buy, 10, 77, 1).unwrap();
    assert_eq!((pool.x, pool.y), (0, 0));
    assert_eq!(buy.price_bps, 0);
    let sell = pool.trade_pmamm(Side::Sell, 10, 77, 2).unwrap();
    assert_eq!((pool.x, pool.y), (10, 0));
    assert_eq!(sell.price_bps, 0);
}

#[test]
fn amm_rejects_zero_size() {
    let (mut pool, _) = PmAmmPool::init_pmamm(5, 1_000, false, 30, 1_000, 0);
    assert_eq!(pool.trade_pmamm(Side::Buy, 0, 77, 10), Err(ErrorCode::InvalidAmount));
    assert_eq!(pool.x, 500);
    assert_eq!(pool.y, 500);
}

#[test]
fn amm_rejects_trade_at_or_after_expiry() {
    let (mut pool, _) = PmAmmPool::init_pmamm(5, 1_000, false, 30, 1_000, 0);
    assert_eq!(pool.trade_pmamm(Side::Sell, 10, 77, 1_000), Err(ErrorCode::MarketNotActive));
    assert_eq!(pool.trade_pmamm(Side::Buy, 10, 77, 2_000), Err(ErrorCode::MarketNotActive));
    assert_eq!(pool.x, 500);
    assert_eq!(pool.y, 500);
}

#[test]
fn amm_dynamic_liquidity_reduces_slippage() {
    // Same trade, same reserves; the dynamic pool quotes deeper liquidity
    // far from expiry, so the buyer pays less.
    let (mut static_pool, _) = PmAmmPool::init_pmamm(5, 1_000, false, 0, 1_000_000, 0);
    let (mut dynamic_pool, _) = PmAmmPool::init_pmamm(5, 1_000, true, 0, 1_000_000, 0);
    let a = static_pool.trade_pmamm(Side::Buy, 100, 1, 0).unwrap();
    let b = dynamic_pool.trade_pmamm(Side::Buy, 100, 1, 0).unwrap();
    assert!(b.price_bps < a.price_bps);
}

#[test]
fn order_book_tracks_best_of_book() {
    let mut book = OrderBook::new(3);
    assert_eq!(book.best_bid, 0);
    assert_eq!(book.best_ask, 0);
    let (id0, ev0) = book.place_limit_order(11, Side::Buy, 5_000, 10, 999, 1);
    assert_eq!(id0, 0);
    assert_eq!(ev0.order_id, 0);
    assert_eq!(book.best_bid, 5_000);
    // A lower bid does not displace the best.
    let (id1, _) = book.place_limit_order(11, Side::Buy, 4_000, 10, 999, 2);
    assert_eq!(id1, 1);
    assert_eq!(book.best_bid, 5_000);
    // First ask sets the quote even though the sentinel is zero.
    let (id2, _) = book.place_limit_order(12, Side::Sell, 7_000, 10, 999, 3);
    assert_eq!(id2, 2);
    assert_eq!(book.best_ask, 7_000);
    // A lower ask improves it; a higher one does not.
    book.place_limit_order(12, Side::Sell, 6_500, 10, 999, 4);
    assert_eq!(book.best_ask, 6_500);
    book.place_limit_order(12, Side::Sell, 9_000, 10, 999, 5);
    assert_eq!(book.best_ask, 6_500);
    assert_eq!(book.event_counter, 5);
}

#[test]
fn order_book_cancel_leaves_quotes_stale() {
    let mut book = OrderBook::new(3);
    let (id, _) = book.place_limit_order(11, Side::Buy, 5_000, 10, 999, 1);
    let ev = book.cancel_order(id, 2);
    assert_eq!(ev.order_id, id);
    assert_eq!(ev.ts, 2);
    // Known simplification: the best bid is not recomputed.
    assert_eq!(book.best_bid, 5_000);
}

#[test]
fn market_order_prices_from_snapshot() {
    let mut book = OrderBook::new(3);
    book.place_limit_order(11, Side::Buy, 5_000, 10, 999, 1);
    book.place_limit_order(12, Side::Sell, 7_000, 10, 999, 2);
    let buy = book.execute_market_order(21, Side::Buy, 40, 9);
    assert_eq!(buy.price_bps, 7_000);
    assert_eq!(buy.size, 40);
    assert_eq!(buy.market, 3);
    let sell = book.execute_market_order(22, Side::Sell, 40, 9);
    assert_eq!(sell.price_bps, 5_000);
}

#[test]
fn market_resolves_exactly_once() {
    let (mut market, created) = Market::create_market(50, 8, sample_params(), 100);
    assert_eq!(market.status, MarketStatus::Active);
    assert_eq!(created.market, 50);
    assert_eq!(created.slug, 42);
    let ev = market.resolve_market(50, 55_000_000, vec![], 200).unwrap();
    assert_eq!(ev.outcome_value, 55_000_000);
    assert_eq!(market.status, MarketStatus::Resolved);
    // The second resolution must fail: the market is no longer active.
    assert_eq!(market.resolve_market(50, 60_000_000, vec![], 300), Err(ErrorCode::MarketNotActive));
    assert_eq!(market.status, MarketStatus::Resolved);
}

#[test]
fn market_infrastructure_requires_authority() {
    let (mut market, _) = Market::create_market(50, 8, sample_params(), 100);
    assert_eq!(
        market.initialize_market_infrastructure(9, 50, 51, 52, 53, 101).err(),
        Some(ErrorCode::Unauthorized)
    );
    let (lp, ob, cv, ev) = market.initialize_market_infrastructure(8, 50, 51, 52, 53, 101).unwrap();
    assert_eq!(market.liquidity_pool, 51);
    assert_eq!(market.order_book, 52);
    assert_eq!(market.collateral_vault, 53);
    assert_eq!(lp.total_liquidity, 0);
    assert_eq!(lp.vault, 53);
    assert_eq!(ob.event_counter, 0);
    assert_eq!(cv.market, 50);
    assert_eq!(ev.market, 50);
}

#[test]
fn claim_payout_is_a_stub_record() {
    let (market, _) = Market::create_market(50, 8, sample_params(), 100);
    let ev = market.claim_payout(500);
    assert_eq!(ev.amount, 0);
    assert_eq!(ev.ts, 500);
}

#[test]
fn liquidity_counter_adds_and_removes() {
    let (mut market, _) = Market::create_market(50, 8, sample_params(), 100);
    let (mut lp, _, _, _) = market.initialize_market_infrastructure(8, 50, 51, 52, 53, 101).unwrap();
    lp.add_liquidity(70, 400, 102);
    assert_eq!(lp.total_liquidity, 400);
    // Removing more than the counter holds fails, with the lifecycle error
    // doubling for insufficient liquidity.
    assert_eq!(lp.remove_liquidity(70, 500, 103), Err(ErrorCode::MarketNotActive));
    assert_eq!(lp.total_liquidity, 400);
    lp.remove_liquidity(70, 150, 104).unwrap();
    assert_eq!(lp.total_liquidity, 250);
    // The counter saturates instead of wrapping.
    lp.add_liquidity(70, u64::MAX, 105);
    assert_eq!(lp.total_liquidity, u64::MAX);
}

#[test]
fn position_adjustments_saturate_at_zero() {
    let mut user = UserProfile::init_user(31);
    let (mut pos, opened) = Position::open_position(31, 50, 100, 1_000, &mut user, 7).unwrap();
    assert_eq!(opened.size, 100);
    assert_eq!(user.open_positions, 1);
    // A delta far larger in magnitude than the current value floors at zero.
    pos.adjust_position(31, -1_000_000, -5_000_000, 8).unwrap();
    assert_eq!(pos.size, 0);
    assert_eq!(pos.collateral_locked, 0);
    // Positive deltas add, saturating at the machine word.
    pos.adjust_position(31, 40, i64::MAX, 9).unwrap();
    pos.adjust_position(31, 2, i64::MAX, 10).unwrap();
    assert_eq!(pos.size, 42);
    assert_eq!(pos.collateral_locked, u64::MAX - 1);
    pos.adjust_position(31, 0, i64::MAX, 11).unwrap();
    assert_eq!(pos.collateral_locked, u64::MAX);
    // i64::MIN is a legal delta: it takes 2^63 off, never panicking.
    pos.adjust_position(31, i64::MIN, i64::MIN, 12).unwrap();
    assert_eq!(pos.size, 0);
    assert_eq!(pos.collateral_locked, i64::MAX as u64);
    pos.adjust_position(31, i64::MIN, i64::MIN, 13).unwrap();
    assert_eq!(pos.collateral_locked, 0);
}

#[test]
fn position_adjust_requires_owner() {
    let mut user = UserProfile::init_user(31);
    let (mut pos, _) = Position::open_position(31, 50, 100, 1_000, &mut user, 7).unwrap();
    assert_eq!(pos.adjust_position(32, 1, 1, 8), Err(ErrorCode::Unauthorized));
    assert_eq!(pos.size, 100);
}

#[test]
fn open_positions_counter_never_underflows() {
    let mut user = UserProfile::init_user(31);
    let (pos, _) = Position::open_position(31, 50, 10, 10, &mut user, 1).unwrap();
    assert_eq!(user.open_positions, 1);
    pos.close_position(31, &mut user, 2).unwrap();
    assert_eq!(user.open_positions, 0);
    // A close with no matching open leaves the counter at zero.
    let closed = pos.close_position(31, &mut user, 3).unwrap();
    assert_eq!(user.open_positions, 0);
    assert_eq!(closed.size, 10);
    assert_eq!(closed.realized_pnl, 0);
}

#[test]
fn open_position_requires_profile_owner() {
    let mut user = UserProfile::init_user(31);
    assert_eq!(
        Position::open_position(32, 50, 10, 10, &mut user, 1).err(),
        Some(ErrorCode::Unauthorized)
    );
    assert_eq!(user.open_positions, 0);
}

#[test]
fn registry_gates_upserts_and_execution() {
    let reg = Registry::init_registry(200);
    assert_eq!(reg.upsert_strategy(201, 90, 5, 300).err(), Some(ErrorCode::Unauthorized));
    let strat: Strategy = reg.upsert_strategy(200, 90, 5, 300).unwrap();
    assert_eq!(strat.registry, 90);
    assert_eq!(strat.target_program, 300);
    assert_eq!(
        strat.execute_strategy(91, 400, 5, true, vec![], 10).err(),
        Some(ErrorCode::RegistryMismatch)
    );
    assert_eq!(
        strat.execute_strategy(90, 400, 5, false, vec![], 10).err(),
        Some(ErrorCode::NotApproved)
    );
    assert_eq!(
        strat.execute_strategy(90, 400, 6, true, vec![], 10).err(),
        Some(ErrorCode::StrategyKeyMismatch)
    );
    let ev = strat.execute_strategy(90, 400, 5, true, vec![1, 2, 3], 10).unwrap();
    assert_eq!(ev.user, 400);
    assert_eq!(ev.strategy, 5);
    assert_eq!(ev.target_program, 300);
}
