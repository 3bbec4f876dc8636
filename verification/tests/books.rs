//! The order-book mirror: level parsing with malformed levels dropped,
//! the sortedness checks, wholesale replacement, and best bid/ask.

use hyperliquid_rust_sdk_utils::orderbook::{
    levels_sorted_asc, levels_sorted_desc, parse_levels, Orderbook, OrderbookLevel,
};

fn lvl(price: u64, size: u64) -> OrderbookLevel {
    OrderbookLevel { price, size }
}

fn raw(pairs: &[(&str, &str)]) -> Vec<(String, String)> {
    pairs.iter().map(|(p, s)| (p.to_string(), s.to_string())).collect()
}

#[test]
fn malformed_levels_are_dropped_not_defaulted() {
    let levels = parse_levels(&raw(&[
        ("100.5", "2"),
        ("bad", "1"),
        ("99.5", "3"),
        ("98", "oops"),
    ]));
    assert_eq!(levels.len(), 2);
    assert_eq!(levels[0].price, 10_050_000_000);
    assert_eq!(levels[0].size, 200_000_000);
    assert_eq!(levels[1].price, 9_950_000_000);
    assert_eq!(levels[1].size, 300_000_000);
}

#[test]
fn sortedness_checks_match_the_definitions() {
    let desc = vec![lvl(3, 1), lvl(2, 1), lvl(1, 1)];
    let asc = vec![lvl(1, 1), lvl(2, 1), lvl(3, 1)];
    let flat = vec![lvl(2, 1), lvl(2, 1)];
    assert!(levels_sorted_desc(&desc));
    assert!(!levels_sorted_desc(&asc));
    assert!(!levels_sorted_desc(&flat));
    assert!(levels_sorted_asc(&asc));
    assert!(!levels_sorted_asc(&desc));
    assert!(!levels_sorted_asc(&flat));
    assert!(levels_sorted_desc(&Vec::new()));
    assert!(levels_sorted_asc(&Vec::new()));
}

#[test]
fn updates_replace_the_book_wholesale_and_keep_it_sorted() {
    let mut book = Orderbook::new("ETH".to_string());
    assert!(book.best_bid().is_none());
    assert!(book.best_ask().is_none());

    book.update(vec![lvl(101, 5), lvl(100, 7)], vec![lvl(102, 1), lvl(103, 2)]);
    assert_eq!(book.best_bid().unwrap().price, 101);
    assert_eq!(book.best_ask().unwrap().price, 102);

    // A second snapshot replaces everything; nothing is merged.
    book.update(vec![lvl(90, 1)], vec![lvl(95, 4), lvl(96, 4)]);
    assert_eq!(book.bids.len(), 1);
    assert_eq!(book.best_bid().unwrap().price, 90);
    assert_eq!(book.best_ask().unwrap().price, 95);
    assert_eq!(book.coin.as_str(), "ETH");
}

#[test]
fn update_from_stream_converts_unit_pairs() {
    let mut book = Orderbook::new("ETH".to_string());
    book.update_from_stream(vec![(101, 5), (100, 7)], vec![(102, 1)]);
    assert_eq!(book.bids.len(), 2);
    assert_eq!(book.bids[1].price, 100);
    assert_eq!(book.bids[1].size, 7);
    assert_eq!(book.asks[0].price, 102);
}
