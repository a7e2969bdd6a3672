use polybot::{
    build_ladder, calc_max_bid, calc_size, calc_size_15m, calc_size_5m, calc_size_with_limit,
    can_place, check_rebalance, crash_filtered, reconcile, Action, Book, Fixed, Market, MarketDuration,
    OrderTracker, Position, Side, StrategyConfig,
};

fn shares(n: i64) -> Fixed {
    Fixed::from_int(n)
}

fn config_with(rungs: u16, spacing: u16) -> StrategyConfig {
    StrategyConfig {
        ladder_rungs: rungs,
        rung_spacing: spacing,
        ..Default::default()
    }
}

#[test]
fn test_place_action() {
    let action = Action::place(Side::Yes, 450, shares(12));
    assert!(action.is_place());
    assert!(!action.is_cancel());
    assert!(!action.is_take());

    if let Action::Place { side, price, size } = action {
        assert_eq!(side, Side::Yes);
        assert_eq!(price, 450);
        assert_eq!(size, shares(12));
    } else {
        panic!("Expected Place action");
    }
}

#[test]
fn test_cancel_action() {
    let action = Action::cancel("order123");
    assert!(action.is_cancel());

    if let Action::Cancel { order_id } = action {
        assert_eq!(order_id, "order123");
    } else {
        panic!("Expected Cancel action");
    }
}

#[test]
fn test_cancel_all_action() {
    let action = Action::cancel_all();
    assert!(action.is_cancel());
    assert!(matches!(action, Action::CancelAll));
}

#[test]
fn test_take_action() {
    let action = Action::take(Side::No, shares(10), 550);
    assert!(action.is_take());

    if let Action::Take {
        side,
        size,
        max_price,
    } = action
    {
        assert_eq!(side, Side::No);
        assert_eq!(size, shares(10));
        assert_eq!(max_price, 550);
    } else {
        panic!("Expected Take action");
    }
}

#[test]
fn test_build_ladder_basic() {
    let config = config_with(3, 10);

    let ladder = build_ladder(480, shares(12), &config);

    assert_eq!(ladder.len(), 3);
    assert_eq!(ladder.get(480), Some(shares(12)));
    assert_eq!(ladder.get(470), Some(shares(12)));
    assert_eq!(ladder.get(460), Some(shares(12)));
}

#[test]
fn test_build_ladder_empty_on_zero() {
    let config = StrategyConfig::default();

    let ladder = build_ladder(0, shares(12), &config);
    assert!(ladder.is_empty());

    let ladder = build_ladder(480, Fixed::zero(), &config);
    assert!(ladder.is_empty());
}

#[test]
fn test_build_ladder_respects_min_price() {
    let config = config_with(5, 10);

    let ladder = build_ladder(120, shares(12), &config);

    assert_eq!(ladder.len(), 3);
    assert!(ladder.contains_key(120));
    assert!(ladder.contains_key(110));
    assert!(ladder.contains_key(100));
    assert!(!ladder.contains_key(90));
}

#[test]
fn test_strategy_config_default() {
    let config = StrategyConfig::default();

    assert_eq!(config.margin_ticks, 5);
    assert_eq!(config.ladder_rungs, 3);
    assert_eq!(config.rung_spacing, 10);
    assert_eq!(config.duration, MarketDuration::FiveMin);
}

#[test]
fn ladder_scenario_exact_rungs() {
    let ladder = build_ladder(120, shares(12), &config_with(5, 10));
    let prices: Vec<u16> = ladder.rungs.iter().map(|r| r.price).collect();
    assert_eq!(prices, vec![120, 110, 100]);
    assert!(ladder.rungs.iter().all(|r| r.size == shares(12)));
}

#[test]
fn ladder_without_spacing_has_one_rung() {
    let ladder = build_ladder(480, shares(12), &config_with(3, 0));
    assert_eq!(ladder.len(), 1);
    assert_eq!(ladder.get(480), Some(shares(12)));
}

#[test]
fn ladder_with_huge_spacing_stops_at_floor() {
    let ladder = build_ladder(1000, shares(1), &config_with(4, 40000));
    assert_eq!(ladder.len(), 1);
    let ladder = build_ladder(99, shares(1), &config_with(4, 1));
    assert!(ladder.is_empty());
}

#[test]
fn test_calc_max_bid_basic() {
    let mut book = Book::default();
    book.update(Side::Yes, 480, 490, 1000);
    book.update(Side::No, 500, 510, 1001);

    assert_eq!(calc_max_bid(Side::Yes, &book, 5), 485);
    assert_eq!(calc_max_bid(Side::No, &book, 5), 505);
}

#[test]
fn test_calc_max_bid_no_data() {
    let book = Book::default();

    assert_eq!(calc_max_bid(Side::Yes, &book, 5), 0);
    assert_eq!(calc_max_bid(Side::No, &book, 5), 0);
}

#[test]
fn test_calc_max_bid_different_margins() {
    let mut book = Book::default();
    book.update(Side::Yes, 480, 490, 1000);
    book.update(Side::No, 500, 510, 1001);

    assert_eq!(calc_max_bid(Side::Yes, &book, 5), 485);
    assert_eq!(calc_max_bid(Side::Yes, &book, 10), 480);
    assert_eq!(calc_max_bid(Side::Yes, &book, 0), 490);
}

#[test]
fn test_calc_max_bid_extreme_prices() {
    let mut book = Book::default();

    book.update(Side::Yes, 90, 100, 1000);
    book.update(Side::No, 890, 900, 1001);

    assert_eq!(calc_max_bid(Side::Yes, &book, 5), 95);
    assert_eq!(calc_max_bid(Side::No, &book, 5), 895);
}

#[test]
fn max_bid_clamps_at_zero() {
    let mut book = Book::default();
    book.update(Side::No, 990, 998, 1);
    assert_eq!(calc_max_bid(Side::Yes, &book, 5), 0);
    book.update(Side::No, 990, 1500, 2);
    assert_eq!(calc_max_bid(Side::Yes, &book, 0), 0);
    // only the opposite ask counts
    assert_eq!(calc_max_bid(Side::No, &book, 5), 0);
}

#[test]
fn test_5m_sizing() {
    assert_eq!(calc_size_5m(250), shares(12));
    assert_eq!(calc_size_5m(181), shares(12));

    assert_eq!(calc_size_5m(180), shares(11));
    assert_eq!(calc_size_5m(121), shares(11));

    assert_eq!(calc_size_5m(120), shares(9));
    assert_eq!(calc_size_5m(61), shares(9));

    assert_eq!(calc_size_5m(60), shares(7));
    assert_eq!(calc_size_5m(30), shares(7));
    assert_eq!(calc_size_5m(1), shares(7));
}

#[test]
fn test_15m_sizing() {
    assert_eq!(calc_size_15m(600), shares(24));
    assert_eq!(calc_size_15m(541), shares(24));

    assert_eq!(calc_size_15m(540), shares(20));
    assert_eq!(calc_size_15m(361), shares(20));

    assert_eq!(calc_size_15m(360), shares(16));
    assert_eq!(calc_size_15m(181), shares(16));

    assert_eq!(calc_size_15m(180), shares(12));
    assert_eq!(calc_size_15m(60), shares(12));
}

#[test]
fn test_calc_size_dispatch() {
    assert_eq!(calc_size(200, MarketDuration::FiveMin), shares(12));
    assert_eq!(calc_size(200, MarketDuration::FifteenMin), shares(16));
}

#[test]
fn size_tier_boundaries() {
    assert_eq!(calc_size(181, MarketDuration::FiveMin), shares(12));
    assert_eq!(calc_size(180, MarketDuration::FiveMin), shares(11));
    assert_eq!(calc_size(61, MarketDuration::FiveMin), shares(9));
    assert_eq!(calc_size(60, MarketDuration::FiveMin), shares(7));
    assert_eq!(calc_size(-5, MarketDuration::FifteenMin), shares(12));
    assert_eq!(MarketDuration::FiveMin.total_secs(), 300);
    assert_eq!(MarketDuration::FifteenMin.total_secs(), 900);
}

#[test]
fn test_can_place_within_limit() {
    let mut position = Position::default();
    position.apply_fill(Side::Yes, 500, shares(30));
    position.apply_fill(Side::No, 500, shares(20));

    let max_pos = shares(50);

    assert!(can_place(Side::Yes, &position, max_pos));
    assert!(can_place(Side::No, &position, max_pos));
}

#[test]
fn test_can_place_at_limit() {
    let mut position = Position::default();
    position.apply_fill(Side::Yes, 500, shares(50));

    let max_pos = shares(50);

    assert!(!can_place(Side::Yes, &position, max_pos));
    assert!(can_place(Side::No, &position, max_pos));
}

#[test]
fn can_place_no_side_at_limit() {
    let mut position = Position::default();
    position.apply_fill(Side::No, 500, shares(50));
    assert!(!can_place(Side::No, &position, shares(50)));
    assert!(can_place(Side::No, &position, Fixed::from_micros(50_000_001)));
}

#[test]
fn test_calc_size_with_limit() {
    let mut position = Position::default();
    position.apply_fill(Side::Yes, 500, shares(60));

    let max_pos = shares(50);

    assert_eq!(
        calc_size_with_limit(Side::Yes, &position, 200, MarketDuration::FiveMin, max_pos),
        Fixed::zero()
    );

    assert_eq!(
        calc_size_with_limit(Side::No, &position, 200, MarketDuration::FiveMin, max_pos),
        shares(12)
    );
}

fn market_ending_at(end_ms: i64) -> Market {
    Market::new(
        "cond".to_string(),
        "yes-token".to_string(),
        "no-token".to_string(),
        "btc-updown-5m-0".to_string(),
        end_ms,
    )
}

#[test]
fn time_remaining_counts_whole_seconds() {
    let market = market_ending_at(300_000);
    assert_eq!(market.time_remaining_secs(0), 300);
    assert_eq!(market.time_remaining_secs(119_500), 180);
    assert_eq!(market.time_remaining_secs(300_000), 0);
    assert_eq!(market.time_remaining_secs(400_000), 0);
    assert_eq!(market_ending_at(i64::MAX).time_remaining_secs(i64::MIN), i64::MAX / 500);
}

#[test]
fn reconcile_scenario_full() {
    let mut book = Book::default();
    book.update(Side::No, 500, 515, 1);
    book.update(Side::Yes, 990, 1000, 2);
    let position = Position::default();
    let mut orders = OrderTracker::new();
    orders.add(Side::Yes, "at480".to_string(), 480, shares(12));
    orders.add(Side::Yes, "at490".to_string(), 490, shares(5));
    let market = market_ending_at(300_000);
    let config = StrategyConfig::default();

    let actions = reconcile(&book, &position, &orders, &market, &config, 0);

    assert_eq!(
        actions,
        vec![
            Action::cancel("at490"),
            Action::place(Side::Yes, 470, shares(12)),
            Action::place(Side::Yes, 460, shares(12)),
        ]
    );
}

#[test]
fn reconcile_tops_up_short_rungs_only_by_enough() {
    let mut book = Book::default();
    book.update(Side::No, 500, 515, 1);
    book.update(Side::Yes, 990, 1000, 2);
    let position = Position::default();
    let mut orders = OrderTracker::new();
    orders.add(Side::Yes, "a".to_string(), 480, shares(5));
    orders.add(Side::Yes, "b".to_string(), 470, shares(9));
    let market = market_ending_at(300_000);
    let config = StrategyConfig::default();

    let actions = reconcile(&book, &position, &orders, &market, &config, 0);

    // 480 is short by 7 (placed), 470 by 3 (under the minimum of 5)
    assert_eq!(
        actions,
        vec![
            Action::place(Side::Yes, 480, shares(7)),
            Action::place(Side::Yes, 460, shares(12)),
        ]
    );
}

#[test]
fn reconcile_is_deterministic_and_rebalances_last() {
    let mut book = Book::default();
    book.update(Side::Yes, 480, 490, 1);
    book.update(Side::No, 500, 510, 2);
    let mut position = Position::default();
    position.apply_fill(Side::Yes, 480, shares(40));
    let orders = OrderTracker::new();
    let market = market_ending_at(300_000);
    let config = StrategyConfig::default();

    let first = reconcile(&book, &position, &orders, &market, &config, 250_000);
    let second = reconcile(&book, &position, &orders, &market, &config, 250_000);
    assert_eq!(first, second);

    // 50 s left: size 7 on both sides; YES is 40 heavy, still under 150
    assert_eq!(
        first,
        vec![
            Action::place(Side::Yes, 485, shares(7)),
            Action::place(Side::Yes, 475, shares(7)),
            Action::place(Side::Yes, 465, shares(7)),
            Action::place(Side::No, 505, shares(7)),
            Action::place(Side::No, 495, shares(7)),
            Action::place(Side::No, 485, shares(7)),
            Action::take(Side::No, Fixed::from_micros(12_000_000), 510),
        ]
    );
}

#[test]
fn rebalance_rules() {
    let mut book = Book::default();
    book.update(Side::Yes, 480, 490, 1);
    book.update(Side::No, 500, 510, 2);
    let config = StrategyConfig::default();

    let mut position = Position::default();
    position.apply_fill(Side::No, 500, shares(30));
    assert_eq!(check_rebalance(&position, &book, &config), None);

    position.apply_fill(Side::No, 500, shares(1));
    assert_eq!(
        check_rebalance(&position, &book, &config),
        Some(Action::take(Side::Yes, Fixed::from_micros(10_333_333), 490))
    );

    book.update(Side::Yes, 600, 601, 3);
    assert_eq!(check_rebalance(&position, &book, &config), None);
    book.update(Side::Yes, 590, 600, 4);
    assert!(check_rebalance(&position, &book, &config).is_some());
}

#[test]
fn crash_filter_suppresses_a_crashing_side() {
    let mut book = Book::default();
    book.update(Side::Yes, 30, 40, 1);
    book.update(Side::No, 490, 500, 2);
    let position = Position::default();
    let orders = OrderTracker::default();
    let market = market_ending_at(300_000);
    let config = StrategyConfig {
        crash_floor_ticks: Some(50),
        ..Default::default()
    };

    assert!(crash_filtered(Side::Yes, &book, Some(50)));
    assert!(!crash_filtered(Side::No, &book, Some(50)));
    assert!(!crash_filtered(Side::Yes, &book, None));

    let actions = reconcile(&book, &position, &orders, &market, &config, 0);
    // without the filter YES would bid 1000 - 500 - 5 = 495; NO bids 955
    assert_eq!(
        actions,
        vec![
            Action::place(Side::No, 955, shares(12)),
            Action::place(Side::No, 945, shares(12)),
            Action::place(Side::No, 935, shares(12)),
        ]
    );

    let unfiltered = reconcile(&book, &position, &orders, &market, &StrategyConfig::default(), 0);
    assert_eq!(unfiltered.len(), 6);
    assert_eq!(unfiltered[0], Action::place(Side::Yes, 495, shares(12)));

    book.update(Side::No, 40, 45, 3);
    let actions = reconcile(&book, &position, &orders, &market, &config, 0);
    assert!(actions.is_empty());
}
