//! Seeding the price tables from fetched listings, merging batches, the
//! pair-label views, the classifier, and the metadata getters.

use hyperliquid_rust_sdk_utils::catalog::{
    CatalogError, PerpUniverseEntry, PerpsMeta, SpotMeta, SpotUniverseEntry, TokenInfo,
};
use hyperliquid_rust_sdk_utils::classify::{classify, classify_book, BookOutcome, FeedMessage, FeedOutcome};
use hyperliquid_rust_sdk_utils::context::{Context, SpotAssetContext};
use hyperliquid_rust_sdk_utils::meta::Meta;
use hyperliquid_rust_sdk_utils::pair::Pair;
use hyperliquid_rust_sdk_utils::table::NameToPriceMap;
use hyperliquid_rust_sdk_utils::price::Price;

fn perp_entry(name: &str, sz_decimals: u16) -> PerpUniverseEntry {
    PerpUniverseEntry {
        name: name.to_string(),
        sz_decimals,
        max_leverage: 50,
        only_isolated: false,
    }
}

fn token(name: &str, index: u16, sz_decimals: u16) -> TokenInfo {
    TokenInfo {
        name: name.to_string(),
        sz_decimals,
        wei_decimals: 8,
        index,
        is_canonical: true,
    }
}

fn batch(entries: &[(&str, u64)]) -> Vec<(String, u64)> {
    entries.iter().map(|(n, v)| (n.to_string(), *v)).collect()
}

fn spot_meta() -> SpotMeta {
    SpotMeta {
        universe: vec![SpotUniverseEntry {
            name: "@37".to_string(),
            quote_token: 0,
            base_token: 1,
            index: 37,
            is_canonical: true,
        }],
        tokens: vec![token("PURR", 0, 2), token("USDC", 1, 8)],
    }
}

#[test]
fn perps_seeding_joins_listing_and_snapshot() {
    let meta = PerpsMeta {
        universe: vec![perp_entry("BTC", 5), perp_entry("ETH", 4)],
    };
    let prices = batch(&[("BTC", 10_302_032_323_000), ("ETH", 323_020_000_000)]);
    let data = meta.get_perps_prices_data(&prices).unwrap();
    assert_eq!(data.map.len(), 2);
    // BTC: cap 6 - 5 = 1 place, magnitude already beyond five digits.
    assert_eq!(data.map.get(&"BTC".to_string()).unwrap().get_value(), 10_302_000_000_000);
    // ETH: 3230.2 is already five significant digits.
    assert_eq!(data.map.get(&"ETH".to_string()).unwrap().get_value(), 323_020_000_000);
    assert!(data.map.get(&"SOL".to_string()).is_none());
}

#[test]
fn perps_seeding_fails_loudly_on_a_missing_price() {
    let meta = PerpsMeta { universe: vec![perp_entry("BTC", 5)] };
    let err = meta.get_perps_prices_data(&batch(&[("ETH", 1)])).unwrap_err();
    assert_eq!(err, CatalogError::MissingPrice);
}

#[test]
fn perps_seeding_fails_loudly_on_oversized_precision() {
    let meta = PerpsMeta { universe: vec![perp_entry("BTC", 7)] };
    let err = meta.get_perps_prices_data(&batch(&[("BTC", 1)])).unwrap_err();
    assert_eq!(err, CatalogError::InvalidPrecision);
}

#[test]
fn batch_updates_keep_entries_missing_from_the_batch() {
    let meta = PerpsMeta {
        universe: vec![perp_entry("BTC", 5), perp_entry("ETH", 4)],
    };
    let prices = batch(&[("BTC", 10_302_032_323_000), ("ETH", 323_020_000_000)]);
    let mut data = meta.get_perps_prices_data(&prices).unwrap();
    data.update(&batch(&[("BTC", 10_410_000_000_000)]));
    assert_eq!(data.map.get(&"BTC".to_string()).unwrap().get_value(), 10_410_000_000_000);
    // ETH was not in the batch: prior value retained.
    assert_eq!(data.map.get(&"ETH".to_string()).unwrap().get_value(), 323_020_000_000);
}

#[test]
fn spot_seeding_resolves_tokens_and_rounds_by_the_quote() {
    let prices = batch(&[("@37", 12_345_600)]);
    let data = spot_meta().get_spot_price_data(&prices).unwrap();
    // Quote token PURR has sz_decimals 2, so the cap 8 - 2 = 6 places is
    // looser than the five-significant-digit target: 0.123456 rounds to
    // 0.12346.
    let p = data.map.get(&"@37".to_string()).unwrap();
    assert_eq!(p.get_value(), 12_346_000);
    let m = p.get_meta();
    assert!(m.is_spot());
    assert_eq!(m.get_sz_decimals(), 2);
}

#[test]
fn spot_seeding_fails_loudly_on_an_unresolved_token() {
    let mut meta = spot_meta();
    meta.tokens.remove(1);
    let err = meta.get_spot_price_data(&batch(&[("@37", 1)])).unwrap_err();
    assert_eq!(err, CatalogError::MissingToken);
}

#[test]
fn pair_views_label_quote_slash_base() {
    let data = spot_meta().get_spot_price_data(&batch(&[("@37", 12_345_600)])).unwrap();
    let names = data.get_pair_to_name_map();
    assert_eq!(names.len(), 1);
    assert_eq!(names[0].0.as_str(), "PURR/USDC");
    assert_eq!(names[0].1.as_str(), "@37");
    let raw = data.get_pair_to_raw_price_map();
    assert_eq!(raw[0].0.as_str(), "PURR/USDC");
    assert_eq!(raw[0].1, 12_346_000);
    assert_eq!(data.get_price_from_pair("PURR/USDC".to_string()), 12_346_000);
}

#[test]
fn duplicate_pair_labels_collapse_to_the_last_listing_entry() {
    // Two listing entries resolve to the same PURR/USDC label: the views
    // keep one row per label, the later entry overwriting the earlier.
    let meta = SpotMeta {
        universe: vec![
            SpotUniverseEntry {
                name: "@37".to_string(),
                quote_token: 0,
                base_token: 1,
                index: 37,
                is_canonical: true,
            },
            SpotUniverseEntry {
                name: "@99".to_string(),
                quote_token: 0,
                base_token: 1,
                index: 99,
                is_canonical: false,
            },
        ],
        tokens: vec![token("PURR", 0, 2), token("USDC", 1, 8)],
    };
    let data = meta
        .get_spot_price_data(&batch(&[("@37", 12_345_600), ("@99", 400_000_000)]))
        .unwrap();
    let names = data.get_pair_to_name_map();
    assert_eq!(names.len(), 1);
    assert_eq!(names[0].0.as_str(), "PURR/USDC");
    assert_eq!(names[0].1.as_str(), "@99");
    let raw = data.get_pair_to_raw_price_map();
    assert_eq!(raw.len(), 1);
    assert_eq!(raw[0].1, 400_000_000);
    // The label listing now carries unique labels, so the pair lookup
    // resolves to the overwriting entry's key.
    let p = Pair { name: "PURR/USDC".to_string(), size: 1 };
    assert_eq!(p.convert_to_name(&names).name.as_str(), "@99");
}

#[test]
fn seeding_errors_report_the_first_failing_check() {
    // A perpetual entry that both exceeds the cap and lacks a price
    // reports the precision check, which comes first.
    let meta = PerpsMeta { universe: vec![perp_entry("BTC", 7)] };
    let err = meta.get_perps_prices_data(&batch(&[])).unwrap_err();
    assert_eq!(err, CatalogError::InvalidPrecision);
    // A spot entry missing both its price and a token reports the price
    // lookup, which comes first.
    let mut meta = spot_meta();
    meta.tokens.clear();
    let err = meta.get_spot_price_data(&batch(&[])).unwrap_err();
    assert_eq!(err, CatalogError::MissingPrice);
}

#[test]
fn pairs_translate_through_the_label_listing() {
    let listing = vec![("PURR/USDC".to_string(), "@37".to_string())];
    let p = Pair { name: "PURR/USDC".to_string(), size: 7 };
    let translated = p.convert_to_name(&listing);
    assert_eq!(translated.name.as_str(), "@37");
    assert_eq!(translated.size, 7);
    let unknown = Pair { name: "FOO/BAR".to_string(), size: 7 };
    assert_eq!(unknown.convert_to_name(&listing).name.as_str(), "");
}

#[test]
fn classifier_parses_batches_and_defaults_bad_numbers_to_zero() {
    let msg = FeedMessage::AllMids(vec![
        ("BTC".to_string(), "103020.32323".to_string()),
        ("ETH".to_string(), "not-a-number".to_string()),
    ]);
    match classify(msg) {
        FeedOutcome::PriceBatch(b) => {
            assert_eq!(b.len(), 2);
            assert_eq!(b[0].0.as_str(), "BTC");
            assert_eq!(b[0].1, 10_302_032_323_000);
            assert_eq!(b[1].0.as_str(), "ETH");
            assert_eq!(b[1].1, 0);
        },
        _ => panic!("a mid-price batch must classify as a price batch"),
    }
    assert!(matches!(classify(FeedMessage::NoData), FeedOutcome::NoData));
    assert!(matches!(
        classify(FeedMessage::ProtocolError("boom".to_string())),
        FeedOutcome::ProtocolError
    ));
    assert!(matches!(classify(FeedMessage::Other), FeedOutcome::Unrecognized));
    assert!(matches!(
        classify(FeedMessage::Book { bids: Vec::new(), asks: Vec::new() }),
        FeedOutcome::Unrecognized
    ));
}

#[test]
fn book_classifier_parses_snapshots_and_flags_errors() {
    let msg = FeedMessage::Book {
        bids: vec![("100.5".to_string(), "2".to_string()), ("bad".to_string(), "1".to_string())],
        asks: vec![("101".to_string(), "3".to_string())],
    };
    match classify_book(msg) {
        BookOutcome::Snapshot { bids, asks } => {
            assert_eq!(bids.len(), 1);
            assert_eq!(bids[0].price, 10_050_000_000);
            assert_eq!(asks.len(), 1);
            assert_eq!(asks[0].size, 300_000_000);
        },
        _ => panic!("a book message must classify as a snapshot"),
    }
    assert!(matches!(classify_book(FeedMessage::NoData), BookOutcome::NoData));
    assert!(matches!(
        classify_book(FeedMessage::ProtocolError("boom".to_string())),
        BookOutcome::ProtocolError
    ));
    assert!(matches!(
        classify_book(FeedMessage::AllMids(Vec::new())),
        BookOutcome::Unrecognized
    ));
}

#[test]
fn table_insert_get_and_replace() {
    let mut table = NameToPriceMap::new();
    assert_eq!(table.len(), 0);
    let meta = Meta::Perp {
        name: "BTC".to_string(),
        sz_decimals: 5,
        max_leverage: 50,
        only_isolated: None,
        is_delisted: None,
    };
    table.insert("BTC".to_string(), Price::new_perp(0, meta.duplicate()));
    assert_eq!(table.len(), 1);
    assert_eq!(table.get(&"BTC".to_string()).unwrap().get_value(), 0);
    table.insert("BTC".to_string(), Price::new_perp(10_302_032_323_000, meta));
    assert_eq!(table.len(), 1);
    assert_eq!(table.get(&"BTC".to_string()).unwrap().get_value(), 10_302_000_000_000);
}

#[test]
fn metadata_getters_report_their_variant() {
    let spot = Meta::Spot {
        name: "@37".to_string(),
        quote: hyperliquid_rust_sdk_utils::meta::SpotAssetMeta {
            sz_decimals: 2,
            wei_decimals: 8,
            name: "PURR".to_string(),
            index: 0,
        },
        base: hyperliquid_rust_sdk_utils::meta::SpotAssetMeta {
            sz_decimals: 8,
            wei_decimals: 8,
            name: "USDC".to_string(),
            index: 1,
        },
    };
    assert!(spot.is_spot());
    assert!(!spot.is_perp());
    assert_eq!(spot.get_sz_decimals(), 2);
    assert_eq!(spot.get_name().as_str(), "@37");

    let ctx = Context::Perp { name: "ETH".to_string(), sz_decimals: 4 };
    assert!(ctx.is_perp());
    assert!(!ctx.is_spot());
    assert_eq!(ctx.get_sz_decimals(), 4);
    assert_eq!(ctx.get_name().as_str(), "ETH");

    let spot_ctx = Context::Spot {
        name: "@37".to_string(),
        quote: SpotAssetContext {
            sz_decimals: 2,
            wei_decimals: 8,
            name: "PURR".to_string(),
            index: 0,
        },
        base: SpotAssetContext::default(),
    };
    assert!(spot_ctx.is_spot());
    assert_eq!(spot_ctx.get_sz_decimals(), 2);
}
