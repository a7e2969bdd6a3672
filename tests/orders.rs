use polybot::{Fixed, OrderTracker, Side};

fn shares(n: i64) -> Fixed {
    Fixed::from_int(n)
}

#[test]
fn test_add_and_query() {
    let mut tracker = OrderTracker::new();

    tracker.add(Side::Yes, "order1".to_string(), 450, shares(10));
    tracker.add(Side::Yes, "order2".to_string(), 440, shares(10));
    tracker.add(Side::No, "order3".to_string(), 540, shares(10));

    assert_eq!(tracker.count(Side::Yes), 2);
    assert_eq!(tracker.count(Side::No), 1);
    assert_eq!(tracker.total_count(), 3);

    assert_eq!(tracker.total_size_at_price(Side::Yes, 450), shares(10));
    assert_eq!(tracker.total_size_at_price(Side::Yes, 999), shares(0));
}

#[test]
fn test_stacking() {
    let mut tracker = OrderTracker::new();

    tracker.add(Side::Yes, "order1".to_string(), 450, shares(10));
    tracker.add(Side::Yes, "order2".to_string(), 450, shares(5));

    assert_eq!(tracker.count(Side::Yes), 2);
    assert_eq!(tracker.total_size_at_price(Side::Yes, 450), shares(15));
    assert_eq!(tracker.orders_at_price(Side::Yes, 450).len(), 2);
}

#[test]
fn test_remove_by_id() {
    let mut tracker = OrderTracker::new();

    tracker.add(Side::Yes, "order1".to_string(), 450, shares(10));
    tracker.add(Side::Yes, "order2".to_string(), 450, shares(5));

    let removed = tracker.remove_by_id(Side::Yes, "order1");
    assert!(removed.is_some());
    assert_eq!(removed.unwrap().remaining_size, shares(10));

    assert_eq!(tracker.count(Side::Yes), 1);
    assert_eq!(tracker.total_size_at_price(Side::Yes, 450), shares(5));
}

#[test]
fn test_update_fill_partial() {
    let mut tracker = OrderTracker::new();

    tracker.add(Side::Yes, "order1".to_string(), 450, shares(10));

    tracker.update_fill(Side::Yes, "order1", shares(3));

    let orders = tracker.orders_at_price(Side::Yes, 450);
    assert_eq!(orders.len(), 1);
    assert_eq!(orders[0].remaining_size, shares(7));
}

#[test]
fn test_update_fill_complete() {
    let mut tracker = OrderTracker::new();

    tracker.add(Side::Yes, "order1".to_string(), 450, shares(10));

    tracker.update_fill(Side::Yes, "order1", shares(10));

    assert_eq!(tracker.count(Side::Yes), 0);
    assert!(!tracker.has_orders(Side::Yes));
}

#[test]
fn test_prices() {
    let mut tracker = OrderTracker::new();

    tracker.add(Side::Yes, "o1".to_string(), 450, shares(10));
    tracker.add(Side::Yes, "o2".to_string(), 440, shares(10));
    tracker.add(Side::Yes, "o3".to_string(), 430, shares(10));

    let mut prices = tracker.prices(Side::Yes);
    prices.sort();
    assert_eq!(prices, vec![430, 440, 450]);

    assert_eq!(tracker.top_price(Side::Yes), Some(450));
    assert_eq!(tracker.bottom_price(Side::Yes), Some(430));
}

#[test]
fn test_total_exposure() {
    let mut tracker = OrderTracker::new();

    tracker.add(Side::Yes, "o1".to_string(), 450, shares(10));
    tracker.add(Side::Yes, "o2".to_string(), 440, shares(12));
    tracker.add(Side::Yes, "o3".to_string(), 430, shares(8));

    assert_eq!(tracker.total_exposure(Side::Yes), shares(30));
}

#[test]
fn test_clear() {
    let mut tracker = OrderTracker::new();

    tracker.add(Side::Yes, "o1".to_string(), 450, shares(10));
    tracker.add(Side::No, "o2".to_string(), 540, shares(10));

    tracker.clear(Side::Yes);
    assert_eq!(tracker.count(Side::Yes), 0);
    assert_eq!(tracker.count(Side::No), 1);

    tracker.clear_all();
    assert_eq!(tracker.total_count(), 0);
}

#[test]
fn add_then_remove_restores_state() {
    let mut tracker = OrderTracker::new();
    tracker.add(Side::No, "a".to_string(), 500, shares(4));
    tracker.add(Side::No, "b".to_string(), 510, shares(6));
    let before = tracker.all_order_ids(Side::No);

    tracker.add(Side::No, "fresh".to_string(), 505, shares(9));
    let removed = tracker.remove_by_id(Side::No, "fresh").unwrap();
    assert_eq!(removed.price, 505);
    assert_eq!(removed.original_size, shares(9));

    assert_eq!(tracker.all_order_ids(Side::No), before);
    assert_eq!(tracker.total_exposure(Side::No), shares(10));
    assert_eq!(tracker.prices(Side::No), vec![500, 510]);
}

#[test]
fn size_at_price_sums_stacked_orders_after_fills() {
    let mut tracker = OrderTracker::new();
    tracker.add(Side::Yes, "a".to_string(), 450, shares(10));
    tracker.add(Side::Yes, "b".to_string(), 450, shares(5));
    tracker.add(Side::Yes, "c".to_string(), 460, shares(7));
    tracker.update_fill(Side::Yes, "a", shares(4));
    assert_eq!(tracker.total_size_at_price(Side::Yes, 450), shares(11));
    tracker.remove_at_price(Side::Yes, 460);
    assert_eq!(tracker.total_size_at_price(Side::Yes, 460), shares(0));
    assert_eq!(tracker.total_exposure(Side::Yes), shares(11));
}

#[test]
fn fill_shrinks_then_removes() {
    let mut tracker = OrderTracker::new();
    tracker.add(Side::No, "x".to_string(), 300, shares(5));
    tracker.update_fill(Side::No, "x", shares(2));
    assert_eq!(tracker.orders_at_price(Side::No, 300)[0].remaining_size, shares(3));
    tracker.update_fill(Side::No, "x", shares(5));
    assert!(tracker.orders_at_price(Side::No, 300).is_empty());
    assert_eq!(tracker.find_price_by_id(Side::No, "x"), None);
    assert!(tracker.prices(Side::No).is_empty());
}

#[test]
fn zero_fill_is_a_no_op() {
    let mut tracker = OrderTracker::new();
    tracker.add(Side::Yes, "x".to_string(), 300, shares(5));
    tracker.update_fill(Side::Yes, "x", Fixed::zero());
    assert_eq!(tracker.total_exposure(Side::Yes), shares(5));
    tracker.update_fill(Side::Yes, "unknown", shares(1));
    assert_eq!(tracker.total_exposure(Side::Yes), shares(5));
}

#[test]
fn remove_at_price_returns_orders_in_order() {
    let mut tracker = OrderTracker::new();
    tracker.add(Side::Yes, "a".to_string(), 450, shares(1));
    tracker.add(Side::Yes, "b".to_string(), 460, shares(2));
    tracker.add(Side::Yes, "c".to_string(), 450, shares(3));
    let removed = tracker.remove_at_price(Side::Yes, 450);
    assert_eq!(removed.len(), 2);
    assert_eq!(removed[0].order_id, "a");
    assert_eq!(removed[1].order_id, "c");
    assert_eq!(tracker.all_orders(Side::Yes).len(), 1);
    assert_eq!(tracker.find_price_by_id(Side::Yes, "b"), Some(460));
    assert_eq!(tracker.remove_by_id(Side::Yes, "a").map(|o| o.price), None);
}

#[test]
fn empty_side_has_no_top_or_bottom() {
    let tracker = OrderTracker::new();
    assert_eq!(tracker.top_price(Side::No), None);
    assert_eq!(tracker.bottom_price(Side::No), None);
    assert_eq!(tracker.total_exposure(Side::No), Fixed::zero());
}
