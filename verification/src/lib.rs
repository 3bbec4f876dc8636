//! Verified core of a market-data utility library: exact decimal price
//! values with exchange-style significant-digit rounding, per-instrument
//! metadata, a live price table, an order-book mirror, a feed-message
//! classifier, and the control logic of the streaming ingestion pipelines.

pub mod catalog;
pub mod classify;
pub mod context;
pub mod decimal;
pub mod meta;
pub mod numeral;
pub mod orderbook;
pub mod pair;
pub mod pipeline;
pub mod price;
pub mod table;
