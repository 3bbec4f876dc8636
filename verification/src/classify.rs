//! The feed-message classifier: the single seam between the subscription
//! transport and the ingestion logic. The surrounding program reduces
//! each transport message to the plain [`FeedMessage`] values below; the
//! classifier maps them to the outcomes the pipelines act on, parsing
//! string-encoded prices as it goes.

use vstd::prelude::*;

use crate::decimal::MAX_UNITS;
use crate::numeral::{is_price_literal, literal_units, parse_units};
use crate::orderbook::{spec_parsed_levels, parse_levels, OrderbookLevel};

verus! {

/// One message from the live subscription, freed of transport types:
/// a full mid-price batch, an L2 book snapshot, the feed's "no data"
/// report, an exchange-reported error, or anything else.
pub enum FeedMessage {
    AllMids(Vec<(String, String)>),
    Book { bids: Vec<(String, String)>, asks: Vec<(String, String)> },
    NoData,
    ProtocolError(String),
    Other,
}

/// What the price-ingestion loop does with a message: merge a batch,
/// absorb a no-op tick, restart on a protocol error, or ignore it.
pub enum FeedOutcome {
    PriceBatch(Vec<(String, u64)>),
    NoData,
    ProtocolError,
    Unrecognized,
}

/// The unit count a raw mid-price entry contributes to a batch:
/// non-numeric entries default to the zero sentinel.
pub open spec fn spec_mid_units(raw: Seq<char>) -> u64 {
    if is_price_literal(raw) {
        literal_units(raw) as u64
    } else {
        0u64
    }
}

/// Classifies one feed message for the price-ingestion loop.
///
/// A mid-price batch keeps every instrument key, in order, with each
/// string-encoded price parsed and non-numeric entries defaulting to 0;
/// "no data" and exchange errors map to their own outcomes; a book
/// snapshot or any other shape is unrecognized and ignored.
pub fn classify(msg: FeedMessage) -> (r: FeedOutcome)
    ensures
        match msg {
            FeedMessage::AllMids(raw) => match r {
                FeedOutcome::PriceBatch(batch) => {
                    &&& batch@.len() == raw@.len()
                    &&& forall|i: int| 0 <= i < raw@.len() ==> (#[trigger] batch@[i]).0@
                        == raw@[i].0@ && batch@[i].1 == spec_mid_units(raw@[i].1@)
                },
                _ => false,
            },
            FeedMessage::NoData => r is NoData,
            FeedMessage::ProtocolError(_) => r is ProtocolError,
            FeedMessage::Book { .. } => r is Unrecognized,
            FeedMessage::Other => r is Unrecognized,
        },
        r is PriceBatch ==> forall|i: int| 0 <= i < r->PriceBatch_0@.len() ==> (
        #[trigger] r->PriceBatch_0@[i]).1 <= MAX_UNITS,
{
    match msg {
        FeedMessage::AllMids(raw) => {
            let mut batch: Vec<(String, u64)> = Vec::new();
            let mut i: usize = 0;
            while i < raw.len()
                invariant
                    i <= raw@.len(),
                    batch@.len() == i,
                    forall|j: int| 0 <= j < i ==> (#[trigger] batch@[j]).0@ == raw@[j].0@
                        && batch@[j].1 == spec_mid_units(raw@[j].1@),
                    forall|j: int| 0 <= j < i ==> (#[trigger] batch@[j]).1 <= MAX_UNITS,
                decreases raw@.len() - i,
            {
                let units: u64 = match parse_units(raw[i].1.as_str()) {
                    Some(v) => v,
                    Option::None => 0,
                };
                let key = raw[i].0.clone();
                batch.push((key, units));
                i = i + 1;
            }
            FeedOutcome::PriceBatch(batch)
        },
        FeedMessage::NoData => FeedOutcome::NoData,
        FeedMessage::ProtocolError(_) => FeedOutcome::ProtocolError,
        FeedMessage::Book { .. } => FeedOutcome::Unrecognized,
        FeedMessage::Other => FeedOutcome::Unrecognized,
    }
}

/// What the order-book mirror does with a message: replace the book,
/// absorb a no-op tick, restart on a protocol error, or ignore it.
pub enum BookOutcome {
    Snapshot { bids: Vec<OrderbookLevel>, asks: Vec<OrderbookLevel> },
    NoData,
    ProtocolError,
    Unrecognized,
}

/// Classifies one feed message for the order-book mirror.
///
/// A book snapshot has both sides parsed level by level, dropping
/// malformed levels; everything else maps as for the price loop, with
/// a mid-price batch unrecognized here.
pub fn classify_book(msg: FeedMessage) -> (r: BookOutcome)
    ensures
        match msg {
            FeedMessage::Book { bids, asks } => match r {
                BookOutcome::Snapshot { bids: pb, asks: pa } => pb@ == spec_parsed_levels(bids@)
                    && pa@ == spec_parsed_levels(asks@),
                _ => false,
            },
            FeedMessage::NoData => r is NoData,
            FeedMessage::ProtocolError(_) => r is ProtocolError,
            FeedMessage::AllMids(_) => r is Unrecognized,
            FeedMessage::Other => r is Unrecognized,
        },
{
    match msg {
        FeedMessage::Book { bids, asks } => {
            let pb = parse_levels(&bids);
            let pa = parse_levels(&asks);
            BookOutcome::Snapshot { bids: pb, asks: pa }
        },
        FeedMessage::NoData => BookOutcome::NoData,
        FeedMessage::ProtocolError(_) => BookOutcome::ProtocolError,
        FeedMessage::AllMids(_) => BookOutcome::Unrecognized,
        FeedMessage::Other => BookOutcome::Unrecognized,
    }
}

} // verus!
