//! Per-coin mirror of the exchange's two-sided level book: bids kept
//! strictly descending by price, asks strictly ascending, replaced
//! wholesale on every snapshot the feed delivers.

use vstd::prelude::*;

use crate::numeral::{is_price_literal, literal_units, parse_units};

verus! {

/// One price level: a price and the size resting at it, both in `10^-8`
/// units.
#[derive(Clone, Copy, Debug)]
pub struct OrderbookLevel {
    pub price: u64,
    pub size: u64,
}

/// Bid levels sorted strictly descending by price.
pub open spec fn sorted_desc(levels: Seq<OrderbookLevel>) -> bool {
    forall|i: int, j: int| 0 <= i < j < levels.len() ==> levels[i].price > levels[j].price
}

/// Ask levels sorted strictly ascending by price.
pub open spec fn sorted_asc(levels: Seq<OrderbookLevel>) -> bool {
    forall|i: int, j: int| 0 <= i < j < levels.len() ==> levels[i].price < levels[j].price
}

/// The level a raw `(price, size)` string pair denotes, if both strings
/// are price literals.
pub open spec fn spec_parse_level(raw: (String, String)) -> Option<OrderbookLevel> {
    if is_price_literal(raw.0@) && is_price_literal(raw.1@) {
        Some(
            OrderbookLevel {
                price: literal_units(raw.0@) as u64,
                size: literal_units(raw.1@) as u64,
            },
        )
    } else {
        Option::None
    }
}

/// The levels a raw snapshot side denotes: malformed pairs are dropped,
/// not defaulted.
pub open spec fn spec_parsed_levels(raw: Seq<(String, String)>) -> Seq<OrderbookLevel>
    decreases raw.len(),
{
    if raw.len() == 0 {
        Seq::empty()
    } else {
        spec_parsed_levels(raw.drop_last()) + match spec_parse_level(raw.last()) {
            Some(l) => seq![l],
            Option::None => Seq::empty(),
        }
    }
}

/// Parses one side of a raw level snapshot, dropping malformed pairs.
pub fn parse_levels(raw: &Vec<(String, String)>) -> (r: Vec<OrderbookLevel>)
    ensures
        r@ == spec_parsed_levels(raw@),
{
    let mut out: Vec<OrderbookLevel> = Vec::new();
    let mut i: usize = 0;
    while i < raw.len()
        invariant
            i <= raw@.len(),
            out@ == spec_parsed_levels(raw@.subrange(0, i as int)),
        decreases raw@.len() - i,
    {
        let px = parse_units(raw[i].0.as_str());
        let sz = parse_units(raw[i].1.as_str());
        match (px, sz) {
            (Some(p), Some(s)) => {
                out.push(OrderbookLevel { price: p, size: s });
            },
            _ => {},
        }
        proof {
            let pre = raw@.subrange(0, i + 1 as int);
            assert(pre.drop_last() =~= raw@.subrange(0, i as int));
            assert(pre.last() == raw@[i as int]);
        }
        i = i + 1;
    }
    proof {
        assert(raw@.subrange(0, raw@.len() as int) =~= raw@);
    }
    out
}

/// Run-time check that levels are strictly descending by price.
pub fn levels_sorted_desc(levels: &Vec<OrderbookLevel>) -> (r: bool)
    ensures
        r == sorted_desc(levels@),
{
    let mut i: usize = 1;
    if levels.len() == 0 {
        return true;
    }
    while i < levels.len()
        invariant
            1 <= i <= levels@.len(),
            forall|a: int, b: int| 0 <= a < b < i ==> levels@[a].price > levels@[b].price,
        decreases levels@.len() - i,
    {
        if levels[i - 1].price <= levels[i].price {
            return false;
        }
        proof {
            let ghost cur = levels@[i as int];
            assert forall|a: int| 0 <= a < i implies levels@[a].price > cur.price by {
                if a < i - 1 {
                    assert(levels@[a].price > levels@[i - 1].price);
                }
            }
        }
        i = i + 1;
    }
    true
}

/// Run-time check that levels are strictly ascending by price.
pub fn levels_sorted_asc(levels: &Vec<OrderbookLevel>) -> (r: bool)
    ensures
        r == sorted_asc(levels@),
{
    let mut i: usize = 1;
    if levels.len() == 0 {
        return true;
    }
    while i < levels.len()
        invariant
            1 <= i <= levels@.len(),
            forall|a: int, b: int| 0 <= a < b < i ==> levels@[a].price < levels@[b].price,
        decreases levels@.len() - i,
    {
        if levels[i - 1].price >= levels[i].price {
            return false;
        }
        proof {
            let ghost cur = levels@[i as int];
            assert forall|a: int| 0 <= a < i implies levels@[a].price < cur.price by {
                if a < i - 1 {
                    assert(levels@[a].price < levels@[i - 1].price);
                }
            }
        }
        i = i + 1;
    }
    true
}

/// The full book for one coin.
#[derive(Clone, Debug)]
pub struct Orderbook {
    /// Bid levels, highest price first.
    pub bids: Vec<OrderbookLevel>,
    /// Ask levels, lowest price first.
    pub asks: Vec<OrderbookLevel>,
    /// The coin this book mirrors.
    pub coin: String,
}

impl Orderbook {
    /// The book invariant: each side is strictly sorted the right way.
    /// The feed delivers pre-sorted levels and the mirror never re-sorts,
    /// so every update demands sorted input and the invariant holds after
    /// any sequence of updates.
    pub open spec fn wf(&self) -> bool {
        sorted_desc(self.bids@) && sorted_asc(self.asks@)
    }

    /// A fresh, empty book for `coin`.
    pub fn new(coin: String) -> (r: Orderbook)
        ensures
            r.wf(),
            r.bids@.len() == 0,
            r.asks@.len() == 0,
            r.coin@ == coin@,
    {
        Orderbook { bids: Vec::new(), asks: Vec::new(), coin }
    }

    /// Replaces both sides wholesale with pre-sorted levels.
    pub fn update(&mut self, bids: Vec<OrderbookLevel>, asks: Vec<OrderbookLevel>)
        requires
            sorted_desc(bids@),
            sorted_asc(asks@),
        ensures
            final(self).wf(),
            final(self).bids@ == bids@,
            final(self).asks@ == asks@,
            final(self).coin@ == old(self).coin@,
    {
        self.bids = bids;
        self.asks = asks;
    }

    /// Replaces both sides from raw `(price, size)` unit pairs.
    pub fn update_from_stream(&mut self, bids: Vec<(u64, u64)>, asks: Vec<(u64, u64)>)
        requires
            ({
                let b = bids@.map_values(|t: (u64, u64)| OrderbookLevel { price: t.0, size: t.1 });
                sorted_desc(b)
            }),
            ({
                let a = asks@.map_values(|t: (u64, u64)| OrderbookLevel { price: t.0, size: t.1 });
                sorted_asc(a)
            }),
        ensures
            final(self).wf(),
            final(self).bids@ == bids@.map_values(
                |t: (u64, u64)| OrderbookLevel { price: t.0, size: t.1 },
            ),
            final(self).asks@ == asks@.map_values(
                |t: (u64, u64)| OrderbookLevel { price: t.0, size: t.1 },
            ),
            final(self).coin@ == old(self).coin@,
    {
        let new_bids = levels_from_pairs(bids);
        let new_asks = levels_from_pairs(asks);
        self.bids = new_bids;
        self.asks = new_asks;
    }

    /// The best (highest) bid: the first level, which the invariant makes
    /// the maximum of the side.
    pub fn best_bid(&self) -> (r: Option<&OrderbookLevel>)
        requires
            self.wf(),
        ensures
            match r {
                Some(l) => {
                    &&& self.bids@.len() > 0
                    &&& *l == self.bids@[0]
                    &&& forall|i: int| 0 <= i < self.bids@.len() ==> l.price >= #[trigger] self
                        .bids@[i].price
                },
                Option::None => self.bids@.len() == 0,
            },
    {
        if self.bids.len() == 0 {
            Option::None
        } else {
            Some(&self.bids[0])
        }
    }

    /// The best (lowest) ask: the first level, which the invariant makes
    /// the minimum of the side.
    pub fn best_ask(&self) -> (r: Option<&OrderbookLevel>)
        requires
            self.wf(),
        ensures
            match r {
                Some(l) => {
                    &&& self.asks@.len() > 0
                    &&& *l == self.asks@[0]
                    &&& forall|i: int| 0 <= i < self.asks@.len() ==> l.price <= #[trigger] self
                        .asks@[i].price
                },
                Option::None => self.asks@.len() == 0,
            },
    {
        if self.asks.len() == 0 {
            Option::None
        } else {
            Some(&self.asks[0])
        }
    }
}

/// Converts `(price, size)` pairs into levels, in order.
fn levels_from_pairs(pairs: Vec<(u64, u64)>) -> (r: Vec<OrderbookLevel>)
    ensures
        r@ == pairs@.map_values(|t: (u64, u64)| OrderbookLevel { price: t.0, size: t.1 }),
{
    let mut out: Vec<OrderbookLevel> = Vec::new();
    let mut i: usize = 0;
    while i < pairs.len()
        invariant
            i <= pairs@.len(),
            out@ == pairs@.subrange(0, i as int).map_values(
                |t: (u64, u64)| OrderbookLevel { price: t.0, size: t.1 },
            ),
        decreases pairs@.len() - i,
    {
        let (p, s) = pairs[i];
        out.push(OrderbookLevel { price: p, size: s });
        proof {
            assert(pairs@.subrange(0, i + 1 as int).map_values(
                |t: (u64, u64)| OrderbookLevel { price: t.0, size: t.1 },
            ) =~= pairs@.subrange(0, i as int).map_values(
                |t: (u64, u64)| OrderbookLevel { price: t.0, size: t.1 },
            ) + seq![OrderbookLevel { price: pairs@[i as int].0, size: pairs@[i as int].1 }]);
        }
        i = i + 1;
    }
    proof {
        assert(pairs@.subrange(0, pairs@.len() as int) =~= pairs@);
    }
    out
}

} // verus!
