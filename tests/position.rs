use polybot::{Fixed, Position, Side};

fn shares(n: i64) -> Fixed {
    Fixed::from_int(n)
}

#[test]
fn test_empty_position() {
    let pos = Position::default();
    assert!(pos.is_empty());
    assert_eq!(pos.net_position(), Fixed::zero());
    assert_eq!(pos.imbalance(), Fixed::zero());
    assert_eq!(pos.pair_cost(), None);
}

#[test]
fn test_apply_fill() {
    let mut pos = Position::default();

    pos.apply_fill(Side::Yes, 450, shares(10));
    assert_eq!(pos.qty_yes, shares(10));
    assert_eq!(pos.cost_yes, shares(4500));
    assert_eq!(pos.avg_price_yes(), Some(shares(450)));

    pos.apply_fill(Side::No, 520, shares(10));
    assert_eq!(pos.qty_no, shares(10));
    assert_eq!(pos.cost_no, shares(5200));

    assert_eq!(pos.pair_cost(), Some(shares(970)));
}

#[test]
fn test_net_position_and_imbalance() {
    let mut pos = Position::default();

    pos.apply_fill(Side::Yes, 500, shares(30));
    pos.apply_fill(Side::No, 500, shares(20));

    assert_eq!(pos.net_position(), shares(10));
    assert_eq!(pos.imbalance(), shares(10));
}

#[test]
fn test_min_pnl() {
    let mut pos = Position::default();

    pos.apply_fill(Side::Yes, 450, shares(10));
    pos.apply_fill(Side::No, 520, shares(10));

    assert_eq!(pos.min_pnl_ticks(), shares(300));
    assert_eq!(pos.min_pnl_usd(), Fixed::from_micros(300_000));
}

#[test]
fn test_imbalanced_pnl() {
    let mut pos = Position::default();

    pos.apply_fill(Side::Yes, 450, shares(20));
    pos.apply_fill(Side::No, 520, shares(10));

    assert_eq!(pos.min_pnl_ticks(), shares(-4200));
    assert_eq!(pos.min_pnl_usd(), Fixed::from_micros(-4_200_000));
}

#[test]
fn min_pnl_scenario_from_fields() {
    let pos = Position {
        qty_yes: shares(20),
        cost_yes: shares(9000),
        qty_no: shares(10),
        cost_no: shares(5200),
    };
    assert_eq!(pos.min_pnl_ticks(), shares(-4200));
}

#[test]
fn min_pnl_over_many_fills() {
    let mut pos = Position::default();
    pos.apply_fill(Side::Yes, 400, Fixed::from_micros(2_500_000));
    pos.apply_fill(Side::No, 550, shares(3));
    pos.apply_fill(Side::Yes, 410, Fixed::from_micros(1_500_000));
    // qty_yes = 4, qty_no = 3; cost_yes = 1000 + 615 = 1615, cost_no = 1650
    assert_eq!(pos.qty_yes, shares(4));
    assert_eq!(pos.cost_yes, shares(1615));
    assert_eq!(pos.min_pnl_ticks(), shares(3000 - 1615 - 1650));
}

#[test]
fn fractional_average_rounds_toward_zero() {
    let mut pos = Position::default();
    pos.apply_fill(Side::Yes, 1, shares(1));
    pos.apply_fill(Side::Yes, 0, shares(2));
    // 1 tick over 3 shares
    assert_eq!(pos.avg_price_yes(), Some(Fixed::from_micros(333_333)));
    assert_eq!(pos.avg_price_no(), None);
}

#[test]
fn reset_clears_everything() {
    let mut pos = Position::default();
    pos.apply_fill(Side::No, 300, shares(7));
    assert!(!pos.is_empty());
    assert!(!pos.has_both_sides());
    pos.reset();
    assert!(pos.is_empty());
    assert_eq!(pos.cost_no, Fixed::zero());
    assert_eq!(pos.qty(Side::No), Fixed::zero());
}

#[test]
fn has_both_sides_after_two_fills() {
    let mut pos = Position::default();
    pos.apply_fill(Side::Yes, 300, shares(1));
    pos.apply_fill(Side::No, 300, shares(1));
    assert!(pos.has_both_sides());
    assert_eq!(pos.qty(Side::Yes), shares(1));
}
