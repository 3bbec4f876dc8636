//! The streaming pipelines walked through their scenarios: seeding and
//! ingesting a batch, surviving a protocol error with the table intact,
//! and renewing the subscription exactly once at the tick boundary.

use hyperliquid_rust_sdk_utils::catalog::{PerpUniverseEntry, PerpsMeta};
use hyperliquid_rust_sdk_utils::classify::{classify, classify_book, BookOutcome, FeedMessage, FeedOutcome};
use hyperliquid_rust_sdk_utils::orderbook::{levels_sorted_asc, levels_sorted_desc};
use hyperliquid_rust_sdk_utils::orderbook::OrderbookLevel;
use hyperliquid_rust_sdk_utils::pipeline::{
    BookEvent, BookPipeline, PipelineAction, PipelineEvent, PipelineState, PricePipeline,
    RESUBSCRIBE_TICKS,
};

fn seeded_btc_pipeline() -> PricePipeline {
    let meta = PerpsMeta {
        universe: vec![PerpUniverseEntry {
            name: "BTC".to_string(),
            sz_decimals: 5,
            max_leverage: 50,
            only_isolated: false,
        }],
    };
    let seed = meta.get_perps_prices_data(&vec![("BTC".to_string(), 0)]).unwrap();
    let mut pipeline = PricePipeline::new();
    let actions = pipeline.step(PipelineEvent::SeedOk(seed.map));
    assert!(actions.is_empty());
    assert_eq!(pipeline.state, PipelineState::Streaming { ticks: 0 });
    pipeline
}

fn btc_value(p: &PricePipeline) -> u64 {
    p.table.get(&"BTC".to_string()).unwrap().get_value()
}

#[test]
fn seeding_then_ingesting_a_batch_rounds_into_the_table() {
    // Seed the table with BTC at the zero sentinel, then ingest one raw
    // batch from the feed. With sz_decimals 5 the perpetual cap is one
    // decimal place, and the significant-digit clamp leaves zero places,
    // so 103020.32323 lands as 103020 whole units.
    let mut pipeline = seeded_btc_pipeline();
    assert_eq!(btc_value(&pipeline), 0);

    let msg = FeedMessage::AllMids(vec![("BTC".to_string(), "103020.32323".to_string())]);
    let outcome = classify(msg);
    let actions = pipeline.step(PipelineEvent::Feed(outcome));
    assert_eq!(actions, vec![PipelineAction::Publish, PipelineAction::SleepTick]);
    assert_eq!(pipeline.publishes, 1);
    assert_eq!(btc_value(&pipeline), 103_020 * 100_000_000);
}

#[test]
fn no_data_publishes_the_unchanged_table() {
    let mut pipeline = seeded_btc_pipeline();
    let actions = pipeline.step(PipelineEvent::Feed(FeedOutcome::NoData));
    assert_eq!(actions, vec![PipelineAction::Publish, PipelineAction::SleepTick]);
    assert_eq!(pipeline.publishes, 1);
    assert_eq!(btc_value(&pipeline), 0);
    let actions = pipeline.step(PipelineEvent::Feed(FeedOutcome::Unrecognized));
    assert_eq!(actions, vec![PipelineAction::Publish, PipelineAction::SleepTick]);
    assert_eq!(pipeline.publishes, 2);
}

#[test]
fn protocol_error_backs_off_and_preserves_the_table() {
    // Mid-stream protocol error: the pipeline unsubscribes, waits out the
    // backoff and seeds afresh, and the table it owned survives untouched
    // until a new seed replaces it.
    let mut pipeline = seeded_btc_pipeline();
    let batch = FeedOutcome::PriceBatch(vec![("BTC".to_string(), 10_302_032_323_000)]);
    pipeline.step(PipelineEvent::Feed(batch));
    let before = btc_value(&pipeline);

    let actions = pipeline.step(PipelineEvent::Feed(FeedOutcome::ProtocolError));
    assert_eq!(actions, vec![PipelineAction::Unsubscribe, PipelineAction::SleepBackoff]);
    assert_eq!(pipeline.state, PipelineState::Backoff);
    assert_eq!(btc_value(&pipeline), before);

    let actions = pipeline.step(PipelineEvent::BackoffElapsed);
    assert_eq!(actions, vec![PipelineAction::Seed]);
    assert_eq!(pipeline.state, PipelineState::Seeding);
    assert_eq!(btc_value(&pipeline), before);

    // A fresh seed resumes streaming and publishing continues.
    let meta = PerpsMeta {
        universe: vec![PerpUniverseEntry {
            name: "BTC".to_string(),
            sz_decimals: 5,
            max_leverage: 50,
            only_isolated: false,
        }],
    };
    let reseed = meta
        .get_perps_prices_data(&vec![("BTC".to_string(), 10_302_032_323_000)])
        .unwrap();
    pipeline.step(PipelineEvent::SeedOk(reseed.map));
    assert_eq!(pipeline.state, PipelineState::Streaming { ticks: 0 });
    let publishes_before = pipeline.publishes;
    let actions = pipeline.step(PipelineEvent::Feed(FeedOutcome::NoData));
    assert_eq!(actions, vec![PipelineAction::Publish, PipelineAction::SleepTick]);
    assert_eq!(pipeline.publishes, publishes_before + 1);
}

#[test]
fn publish_failure_is_fatal_for_the_iteration() {
    let mut pipeline = seeded_btc_pipeline();
    let actions = pipeline.step(PipelineEvent::PublishFailed);
    assert_eq!(actions, vec![PipelineAction::Unsubscribe, PipelineAction::SleepBackoff]);
    assert_eq!(pipeline.state, PipelineState::Backoff);
}

#[test]
fn tick_boundary_renews_the_subscription_exactly_once() {
    // Drive the tick counter to the resubscription boundary: that tick
    // still publishes exactly once (sequence numbers neither skip nor
    // repeat) and issues exactly one unsubscribe/resubscribe pair; the
    // next tick is ordinary again.
    let mut pipeline = seeded_btc_pipeline();
    pipeline.state = PipelineState::Streaming { ticks: RESUBSCRIBE_TICKS - 1 };
    let publishes_before = pipeline.publishes;

    let batch = FeedOutcome::PriceBatch(vec![("BTC".to_string(), 10_302_032_323_000)]);
    let actions = pipeline.step(PipelineEvent::Feed(batch));
    assert_eq!(
        actions,
        vec![
            PipelineAction::Publish,
            PipelineAction::SleepTick,
            PipelineAction::Unsubscribe,
            PipelineAction::Resubscribe,
        ]
    );
    assert_eq!(actions.iter().filter(|a| **a == PipelineAction::Unsubscribe).count(), 1);
    assert_eq!(actions.iter().filter(|a| **a == PipelineAction::Resubscribe).count(), 1);
    assert_eq!(pipeline.publishes, publishes_before + 1);
    assert_eq!(pipeline.resubscriptions, 1);
    assert_eq!(pipeline.state, PipelineState::Streaming { ticks: 0 });

    let actions = pipeline.step(PipelineEvent::Feed(FeedOutcome::NoData));
    assert_eq!(actions, vec![PipelineAction::Publish, PipelineAction::SleepTick]);
    assert_eq!(pipeline.publishes, publishes_before + 2);
    assert_eq!(pipeline.resubscriptions, 1);
}

#[test]
fn book_mirror_publishes_snapshots_and_survives_failures() {
    let mut mirror = BookPipeline::new("ETH".to_string());

    let msg = FeedMessage::Book {
        bids: vec![("101".to_string(), "2".to_string()), ("100".to_string(), "1".to_string())],
        asks: vec![("102".to_string(), "5".to_string())],
    };
    let outcome = classify_sorted(msg);
    let actions = mirror.step(BookEvent::Feed(outcome));
    assert_eq!(actions, vec![PipelineAction::Publish, PipelineAction::SleepTick]);
    assert_eq!(mirror.publishes, 1);
    assert_eq!(mirror.book.best_bid().unwrap().price, 10_100_000_000);

    // No data only costs a tick; the mirror publishes books on snapshots.
    let actions = mirror.step(BookEvent::Feed(BookOutcome::NoData));
    assert_eq!(actions, vec![PipelineAction::SleepTick]);
    assert_eq!(mirror.publishes, 1);

    // A closed channel ends the iteration; the backoff resubscribes and
    // the last book is still there.
    let actions = mirror.step(BookEvent::ChannelClosed);
    assert_eq!(actions, vec![PipelineAction::Unsubscribe, PipelineAction::SleepBackoff]);
    assert_eq!(mirror.state, PipelineState::Backoff);
    let actions = mirror.step(BookEvent::BackoffElapsed);
    assert_eq!(actions, vec![PipelineAction::Resubscribe]);
    assert_eq!(mirror.state, PipelineState::Streaming { ticks: 0 });
    assert_eq!(mirror.book.best_ask().unwrap().price, 10_200_000_000);
}

#[test]
fn book_mirror_renews_at_the_tick_boundary() {
    let mut mirror = BookPipeline::new("ETH".to_string());
    mirror.state = PipelineState::Streaming { ticks: RESUBSCRIBE_TICKS - 1 };
    let actions = mirror.step(BookEvent::Feed(BookOutcome::NoData));
    assert_eq!(
        actions,
        vec![
            PipelineAction::SleepTick,
            PipelineAction::Unsubscribe,
            PipelineAction::Resubscribe,
        ]
    );
    assert_eq!(mirror.resubscriptions, 1);
    assert_eq!(mirror.state, PipelineState::Streaming { ticks: 0 });
}

/// Classifies a book message, checking the parsed sides are sorted as the
/// feed promises before handing them to the mirror.
fn classify_sorted(msg: FeedMessage) -> BookOutcome {
    let outcome = classify_book(msg);
    if let BookOutcome::Snapshot { bids, asks } = &outcome {
        let b: Vec<OrderbookLevel> = bids.clone();
        let a: Vec<OrderbookLevel> = asks.clone();
        assert!(levels_sorted_desc(&b));
        assert!(levels_sorted_asc(&a));
    }
    outcome
}
