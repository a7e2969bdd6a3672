use polybot::{Book, Side};

#[test]
fn test_default_not_synced() {
    let book = Book::default();
    assert!(!book.is_synced());
}

#[test]
fn test_partial_sync() {
    let mut book = Book::default();

    book.update(Side::Yes, 480, 490, 1000);
    assert!(!book.is_synced());

    book.update(Side::No, 500, 510, 1001);
    assert!(book.is_synced());
}

#[test]
fn test_update() {
    let mut book = Book::default();

    book.update(Side::Yes, 480, 490, 1000);
    assert_eq!(book.yes_bid, Some(480));
    assert_eq!(book.yes_ask, Some(490));
    assert_eq!(book.last_update_ms, 1000);

    book.update(Side::No, 500, 510, 1001);
    assert_eq!(book.no_bid, Some(500));
    assert_eq!(book.no_ask, Some(510));
    assert_eq!(book.last_update_ms, 1001);
}

#[test]
fn test_opposite_ask() {
    let mut book = Book::default();
    book.update(Side::Yes, 480, 490, 1000);
    book.update(Side::No, 500, 510, 1001);

    assert_eq!(book.opposite_ask(Side::Yes), Some(510));
    assert_eq!(book.opposite_ask(Side::No), Some(490));
}

#[test]
fn test_reset() {
    let mut book = Book::default();
    book.update(Side::Yes, 480, 490, 1000);
    book.update(Side::No, 500, 510, 1001);

    book.reset();
    assert!(!book.is_synced());
    assert_eq!(book.yes_ask, None);
    assert_eq!(book.no_ask, None);
}

#[test]
fn synced_needs_both_asks() {
    let mut book = Book::default();
    book.update(Side::No, 500, 510, 5);
    assert!(!book.is_synced());
    book.update(Side::Yes, 0, 0, 6);
    assert!(book.is_synced());
}

#[test]
fn update_keeps_other_side() {
    let mut book = Book::default();
    book.update(Side::Yes, 480, 490, 1000);
    book.update(Side::No, 500, 510, 1001);
    book.update(Side::Yes, 470, 480, 1002);
    assert_eq!(book.best_bid(Side::No), Some(500));
    assert_eq!(book.best_ask(Side::No), Some(510));
    assert_eq!(book.best_bid(Side::Yes), Some(470));
    assert_eq!(book.best_ask(Side::Yes), Some(480));
    assert_eq!(book.last_update_ms, 1002);
}

#[test]
fn opposite_of_each_side() {
    assert_eq!(Side::Yes.opposite(), Side::No);
    assert_eq!(Side::No.opposite(), Side::Yes);
}
