//! The metadata catalog: joins a fetched instrument listing with a raw
//! price snapshot into a fully-populated price table. The catalog and the
//! snapshot are assumed to come from one consistent fetch, so a lookup
//! miss is a contract violation and fails loudly with an error.

use vstd::prelude::*;

use crate::decimal::{spec_round_price, MAX_UNITS};
use crate::meta::{Meta, SpotAssetMeta, MAX_DECIMALS_PERP, MAX_DECIMALS_SPOT};
use crate::price::Price;
use crate::table::{batch_lookup, first_key_index, lemma_first_key_index, NameToPriceMap};

verus! {

/// Why seeding a price table failed.
#[derive(Clone, Copy, Debug, PartialEq, Eq, Structural)]
pub enum CatalogError {
    /// An instrument in the listing has no price in the snapshot.
    MissingPrice,
    /// A spot instrument references a token index the listing lacks.
    MissingToken,
    /// An instrument's size decimals exceed its market's decimal cap.
    InvalidPrecision,
}

/// One perpetual contract in the fetched listing.
#[derive(Clone, Debug)]
pub struct PerpUniverseEntry {
    pub name: String,
    pub sz_decimals: u16,
    pub max_leverage: u16,
    pub only_isolated: bool,
}

/// The fetched perpetual-market listing.
#[derive(Clone, Debug)]
pub struct PerpsMeta {
    pub universe: Vec<PerpUniverseEntry>,
}

/// The metadata a perpetual listing entry induces.
pub open spec fn perp_meta_of(e: PerpUniverseEntry) -> Meta {
    Meta::Perp {
        name: e.name,
        sz_decimals: e.sz_decimals,
        max_leverage: e.max_leverage,
        only_isolated: Some(e.only_isolated),
        is_delisted: Option::None,
    }
}

/// A listed perpetual seeds cleanly when its precision is within the
/// perpetual decimal cap and the snapshot holds its price.
pub open spec fn perp_entry_ok(e: PerpUniverseEntry, prices: Seq<(String, u64)>) -> bool {
    e.sz_decimals <= MAX_DECIMALS_PERP && batch_lookup(prices, e.name@) is Some
}

/// Seeding succeeds when every listed perpetual seeds cleanly.
pub open spec fn perp_seed_ok(universe: Seq<PerpUniverseEntry>, prices: Seq<(String, u64)>) -> bool {
    forall|i: int| 0 <= i < universe.len() ==> perp_entry_ok(#[trigger] universe[i], prices)
}

/// Index of the first listed perpetual that does not seed cleanly, or -1.
pub open spec fn first_perp_defect(
    universe: Seq<PerpUniverseEntry>,
    prices: Seq<(String, u64)>,
) -> int
    decreases universe.len(),
{
    if universe.len() == 0 {
        -1
    } else if !perp_entry_ok(universe[0], prices) {
        0
    } else {
        let r = first_perp_defect(universe.drop_first(), prices);
        if r < 0 {
            -1
        } else {
            r + 1
        }
    }
}

/// The error a defective perpetual entry reports: the precision check
/// comes before the price lookup.
pub open spec fn perp_defect_error(e: PerpUniverseEntry) -> CatalogError {
    if e.sz_decimals > MAX_DECIMALS_PERP {
        CatalogError::InvalidPrecision
    } else {
        CatalogError::MissingPrice
    }
}

/// If `i` is the first defective position, it is the first defect index.
proof fn lemma_first_perp_defect_is(
    universe: Seq<PerpUniverseEntry>,
    prices: Seq<(String, u64)>,
    i: int,
)
    requires
        0 <= i < universe.len(),
        !perp_entry_ok(universe[i], prices),
        forall|j: int| 0 <= j < i ==> perp_entry_ok(#[trigger] universe[j], prices),
    ensures
        first_perp_defect(universe, prices) == i,
    decreases universe.len(),
{
    if i == 0 {
    } else {
        assert(perp_entry_ok(universe[0], prices));
        let t = universe.drop_first();
        assert(forall|j: int| 0 <= j < t.len() ==> #[trigger] t[j] == universe[j + 1]);
        lemma_first_perp_defect_is(t, prices, i - 1);
    }
}

/// The price a listed perpetual seeds to.
pub open spec fn perp_price_of(e: PerpUniverseEntry, prices: Seq<(String, u64)>) -> Price {
    Price::Perp {
        price: spec_round_price(
            batch_lookup(prices, e.name@)->Some_0 as nat,
            MAX_DECIMALS_PERP as int,
            e.sz_decimals as int,
        ) as u64,
        meta: perp_meta_of(e),
    }
}

/// No two listing entries share a name.
pub open spec fn unique_perp_names(universe: Seq<PerpUniverseEntry>) -> bool {
    forall|i: int, j: int| 0 <= i < j < universe.len() ==> universe[i].name@ != universe[j].name@
}

impl PerpsMeta {
    /// Joins the listing with a raw price snapshot into the initial
    /// perpetual price table: one entry per listed name, each seeded
    /// with its rounded snapshot price. A missing price or an oversized
    /// precision fails loudly.
    pub fn get_perps_prices_data(self, prices: &Vec<(String, u64)>) -> (r: Result<
        PerpsPriceData,
        CatalogError,
    >)
        requires
            forall|i: int| 0 <= i < prices@.len() ==> (#[trigger] prices@[i]).1 <= MAX_UNITS,
        ensures
            r is Ok <==> perp_seed_ok(self.universe@, prices@),
            r is Err ==> ({
                let d = first_perp_defect(self.universe@, prices@);
                &&& d >= 0
                &&& r->Err_0 == perp_defect_error(self.universe@[d])
            }),
            r is Ok ==> {
                let m = r->Ok_0.map;
                &&& m.wf()
                &&& forall|k: Seq<char>| m.contains_key(k) <==> exists|i: int|
                    0 <= i < self.universe@.len() && (#[trigger] self.universe@[i]).name@ == k
                &&& unique_perp_names(self.universe@) ==> forall|i: int|
                    0 <= i < self.universe@.len() ==> m.spec_price(
                        m.spec_index_of((#[trigger] self.universe@[i]).name@),
                    ) == perp_price_of(self.universe@[i], prices@)
            },
    {
        let mut map = NameToPriceMap::new();
        let n = self.universe.len();
        let mut i: usize = 0;
        while i < n
            invariant
                i <= n == self.universe@.len(),
                forall|j: int| 0 <= j < prices@.len() ==> (#[trigger] prices@[j]).1 <= MAX_UNITS,
                map.wf(),
                forall|j: int| 0 <= j < i ==> (#[trigger] self.universe@[j]).sz_decimals
                    <= MAX_DECIMALS_PERP && batch_lookup(prices@, self.universe@[j].name@)
                    is Some,
                forall|k: Seq<char>| map.contains_key(k) <==> exists|j: int|
                    0 <= j < i && (#[trigger] self.universe@[j]).name@ == k,
                unique_perp_names(self.universe@) ==> forall|j: int| 0 <= j < i
                    ==> map.spec_price(map.spec_index_of((#[trigger] self.universe@[j]).name@))
                    == perp_price_of(self.universe@[j], prices@),
            decreases n - i,
        {
            let entry = &self.universe[i];
            if entry.sz_decimals > MAX_DECIMALS_PERP {
                proof {
                    lemma_first_perp_defect_is(self.universe@, prices@, i as int);
                }
                return Err(CatalogError::InvalidPrecision);
            }
            let units = match crate::table::batch_get(prices, &entry.name) {
                Some(v) => v,
                Option::None => {
                    proof {
                        lemma_first_perp_defect_is(self.universe@, prices@, i as int);
                    }
                    return Err(CatalogError::MissingPrice);
                },
            };
            proof {
                lemma_first_key_index(prices@, entry.name@);
            }
            let meta = Meta::Perp {
                name: entry.name.clone(),
                sz_decimals: entry.sz_decimals,
                max_leverage: entry.max_leverage,
                only_isolated: Some(entry.only_isolated),
                is_delisted: Option::None,
            };
            let price = Price::new_perp(units, meta);
            let ghost map0 = map;
            let key = entry.name.clone();
            map.insert(key, price);
            proof {
                let uni = self.universe@;
                let namev = uni[i as int].name@;
                assert(price == perp_price_of(uni[i as int], prices@));
                assert forall|k: Seq<char>| map.contains_key(k) implies exists|j: int|
                    0 <= j < i + 1 && (#[trigger] uni[j]).name@ == k by {
                    if k == namev {
                        assert(uni[i as int].name@ == k);
                    } else {
                        assert(map0.contains_key(k));
                        let j0 = choose|j: int| 0 <= j < i && (#[trigger] uni[j]).name@ == k;
                        assert(0 <= j0 < i + 1 && uni[j0].name@ == k);
                    }
                }
                assert forall|k: Seq<char>| (exists|j: int|
                    0 <= j < i + 1 && (#[trigger] uni[j]).name@ == k) implies map.contains_key(
                    k,
                ) by {
                    let j0 = choose|j: int| 0 <= j < i + 1 && (#[trigger] uni[j]).name@ == k;
                    if j0 < i {
                        assert(map0.contains_key(k));
                        if k != namev {
                        }
                    }
                }
                if unique_perp_names(uni) {
                    assert forall|j: int| 0 <= j < i + 1 implies map.spec_price(
                        map.spec_index_of((#[trigger] uni[j]).name@),
                    ) == perp_price_of(uni[j], prices@) by {
                        if j < i {
                            assert(uni[j].name@ != namev);
                            assert(map0.contains_key(uni[j].name@));
                            assert(map.spec_price(map.spec_index_of(uni[j].name@))
                                == map0.spec_price(map0.spec_index_of(uni[j].name@)));
                        }
                    }
                }
            }
            i = i + 1;
        }
        Ok(PerpsPriceData { map })
    }
}

/// The live perpetual price table, as seeded from the catalog.
#[derive(Debug)]
pub struct PerpsPriceData {
    pub map: NameToPriceMap,
}

impl PerpsPriceData {
    /// Merges one raw price batch into the table; instruments absent
    /// from the batch keep their prior price.
    pub fn update(&mut self, price_map: &Vec<(String, u64)>)
        requires
            old(self).map.wf(),
            forall|i: int| 0 <= i < price_map@.len() ==> (#[trigger] price_map@[i]).1
                <= MAX_UNITS,
        ensures
            final(self).map.wf(),
            final(self).map.spec_len() == old(self).map.spec_len(),
            forall|i: int| 0 <= i < old(self).map.spec_len() ==> final(self).map.spec_key(i)
                == old(self).map.spec_key(i),
            forall|i: int| 0 <= i < old(self).map.spec_len() ==> #[trigger] final(self).map.spec_price(i) == {
                let p = old(self).map.spec_price(i);
                match batch_lookup(price_map@, old(self).map.spec_key(i)) {
                    Some(v) => crate::table::spec_updated_price(p, v),
                    Option::None => p,
                }
            },
    {
        self.map.update_from_batch(price_map);
    }
}

/// One spot pair in the fetched listing, referencing its quote and base
/// tokens by index.
#[derive(Clone, Debug)]
pub struct SpotUniverseEntry {
    pub name: String,
    pub quote_token: u16,
    pub base_token: u16,
    pub index: u16,
    pub is_canonical: bool,
}

/// One token in the fetched listing.
#[derive(Clone, Debug)]
pub struct TokenInfo {
    pub name: String,
    pub sz_decimals: u16,
    pub wei_decimals: u16,
    pub index: u16,
    pub is_canonical: bool,
}

/// The fetched spot-market listing: pairs and the tokens they reference.
#[derive(Clone, Debug)]
pub struct SpotMeta {
    pub universe: Vec<SpotUniverseEntry>,
    pub tokens: Vec<TokenInfo>,
}

/// First position of the token carrying exchange index `idx`, or -1.
pub open spec fn first_token_index(tokens: Seq<TokenInfo>, idx: u16) -> int
    decreases tokens.len(),
{
    if tokens.len() == 0 {
        -1
    } else if tokens[0].index == idx {
        0
    } else {
        let r = first_token_index(tokens.drop_first(), idx);
        if r < 0 {
            -1
        } else {
            r + 1
        }
    }
}

/// What `first_token_index` means.
pub proof fn lemma_first_token_index(tokens: Seq<TokenInfo>, idx: u16)
    ensures
        first_token_index(tokens, idx) >= 0 ==> {
            &&& first_token_index(tokens, idx) < tokens.len()
            &&& tokens[first_token_index(tokens, idx)].index == idx
            &&& forall|j: int| 0 <= j < first_token_index(tokens, idx) ==> (
            #[trigger] tokens[j]).index != idx
        },
        first_token_index(tokens, idx) < 0 ==> forall|j: int|
            0 <= j < tokens.len() ==> (#[trigger] tokens[j]).index != idx,
    decreases tokens.len(),
{
    if tokens.len() > 0 && tokens[0].index != idx {
        let t = tokens.drop_first();
        lemma_first_token_index(t, idx);
        let r = first_token_index(t, idx);
        if r >= 0 {
            assert(tokens[r + 1] == t[r]);
            assert forall|j: int| 0 <= j < r + 1 implies (#[trigger] tokens[j]).index != idx by {
                if j > 0 {
                    assert(t[j - 1] == tokens[j]);
                    assert(t[j - 1].index != idx);
                }
            }
        } else {
            assert forall|j: int| 0 <= j < tokens.len() implies (#[trigger] tokens[j]).index
                != idx by {
                if j > 0 {
                    assert(t[j - 1] == tokens[j]);
                    assert(t[j - 1].index != idx);
                }
            }
        }
    }
}

/// Finds the position of the first token with exchange index `idx`.
pub fn find_token(tokens: &Vec<TokenInfo>, idx: u16) -> (r: Option<usize>)
    ensures
        match r {
            Some(i) => i == first_token_index(tokens@, idx) && i < tokens@.len(),
            Option::None => first_token_index(tokens@, idx) < 0,
        },
{
    proof {
        lemma_first_token_index(tokens@, idx);
    }
    let mut i: usize = 0;
    while i < tokens.len()
        invariant
            i <= tokens@.len(),
            forall|j: int| 0 <= j < i ==> (#[trigger] tokens@[j]).index != idx,
            first_token_index(tokens@, idx) >= 0 ==> first_token_index(tokens@, idx)
                < tokens@.len() && tokens@[first_token_index(tokens@, idx)].index == idx,
            first_token_index(tokens@, idx) >= 0 ==> forall|j: int|
                0 <= j < first_token_index(tokens@, idx) ==> (#[trigger] tokens@[j]).index
                != idx,
            first_token_index(tokens@, idx) < 0 ==> forall|j: int|
                0 <= j < tokens@.len() ==> (#[trigger] tokens@[j]).index != idx,
        decreases tokens@.len() - i,
    {
        if tokens[i].index == idx {
            proof {
                let f = first_token_index(tokens@, idx);
                if f != i as int {
                    if f < 0 || f > i as int {
                        assert(tokens@[i as int].index == idx);
                    } else {
                        assert(tokens@[f].index != idx);
                    }
                }
            }
            return Some(i);
        }
        i = i + 1;
    }
    Option::None
}

/// The per-token descriptor a listed token induces.
pub open spec fn token_asset_meta(t: TokenInfo) -> SpotAssetMeta {
    SpotAssetMeta {
        sz_decimals: t.sz_decimals,
        wei_decimals: t.wei_decimals,
        name: t.name,
        index: t.index,
    }
}

/// Exact copy of a token's descriptor fields.
fn token_to_asset(t: &TokenInfo) -> (r: SpotAssetMeta)
    ensures
        r == token_asset_meta(*t),
{
    SpotAssetMeta {
        sz_decimals: t.sz_decimals,
        wei_decimals: t.wei_decimals,
        name: t.name.clone(),
        index: t.index,
    }
}

/// The metadata a spot listing entry induces once its token references
/// resolve.
pub open spec fn spot_meta_of(e: SpotUniverseEntry, tokens: Seq<TokenInfo>) -> Meta
    recommends
        first_token_index(tokens, e.quote_token) >= 0,
        first_token_index(tokens, e.base_token) >= 0,
{
    Meta::Spot {
        name: e.name,
        quote: token_asset_meta(tokens[first_token_index(tokens, e.quote_token)]),
        base: token_asset_meta(tokens[first_token_index(tokens, e.base_token)]),
    }
}

/// A listed pair seeds cleanly when the snapshot holds its price, both
/// token references resolve, and the quote token's precision is within
/// the spot decimal cap.
pub open spec fn spot_entry_ok(
    e: SpotUniverseEntry,
    tokens: Seq<TokenInfo>,
    prices: Seq<(String, u64)>,
) -> bool {
    &&& batch_lookup(prices, e.name@) is Some
    &&& first_token_index(tokens, e.quote_token) >= 0
    &&& first_token_index(tokens, e.base_token) >= 0
    &&& tokens[first_token_index(tokens, e.quote_token)].sz_decimals <= MAX_DECIMALS_SPOT
}

/// Seeding succeeds when every listed pair seeds cleanly.
pub open spec fn spot_seed_ok(
    universe: Seq<SpotUniverseEntry>,
    tokens: Seq<TokenInfo>,
    prices: Seq<(String, u64)>,
) -> bool {
    forall|i: int| 0 <= i < universe.len() ==> spot_entry_ok(
        #[trigger] universe[i],
        tokens,
        prices,
    )
}

/// Index of the first listed pair that does not seed cleanly, or -1.
pub open spec fn first_spot_defect(
    universe: Seq<SpotUniverseEntry>,
    tokens: Seq<TokenInfo>,
    prices: Seq<(String, u64)>,
) -> int
    decreases universe.len(),
{
    if universe.len() == 0 {
        -1
    } else if !spot_entry_ok(universe[0], tokens, prices) {
        0
    } else {
        let r = first_spot_defect(universe.drop_first(), tokens, prices);
        if r < 0 {
            -1
        } else {
            r + 1
        }
    }
}

/// The error a defective pair entry reports: the price lookup comes
/// first, then the quote and base token references, then the precision
/// check.
pub open spec fn spot_defect_error(
    e: SpotUniverseEntry,
    tokens: Seq<TokenInfo>,
    prices: Seq<(String, u64)>,
) -> CatalogError {
    if !(batch_lookup(prices, e.name@) is Some) {
        CatalogError::MissingPrice
    } else if first_token_index(tokens, e.quote_token) < 0 {
        CatalogError::MissingToken
    } else if first_token_index(tokens, e.base_token) < 0 {
        CatalogError::MissingToken
    } else {
        CatalogError::InvalidPrecision
    }
}

/// If `i` is the first defective position, it is the first defect index.
proof fn lemma_first_spot_defect_is(
    universe: Seq<SpotUniverseEntry>,
    tokens: Seq<TokenInfo>,
    prices: Seq<(String, u64)>,
    i: int,
)
    requires
        0 <= i < universe.len(),
        !spot_entry_ok(universe[i], tokens, prices),
        forall|j: int| 0 <= j < i ==> spot_entry_ok(#[trigger] universe[j], tokens, prices),
    ensures
        first_spot_defect(universe, tokens, prices) == i,
    decreases universe.len(),
{
    if i == 0 {
    } else {
        assert(spot_entry_ok(universe[0], tokens, prices));
        let t = universe.drop_first();
        assert(forall|j: int| 0 <= j < t.len() ==> #[trigger] t[j] == universe[j + 1]);
        lemma_first_spot_defect_is(t, tokens, prices, i - 1);
    }
}

/// The price a listed spot pair seeds to.
pub open spec fn spot_price_of(
    e: SpotUniverseEntry,
    tokens: Seq<TokenInfo>,
    prices: Seq<(String, u64)>,
) -> Price {
    Price::Spot {
        price: spec_round_price(
            batch_lookup(prices, e.name@)->Some_0 as nat,
            MAX_DECIMALS_SPOT as int,
            tokens[first_token_index(tokens, e.quote_token)].sz_decimals as int,
        ) as u64,
        meta: spot_meta_of(e, tokens),
    }
}

/// No two listing entries share a name.
pub open spec fn unique_spot_names(universe: Seq<SpotUniverseEntry>) -> bool {
    forall|i: int, j: int| 0 <= i < j < universe.len() ==> universe[i].name@ != universe[j].name@
}

impl SpotMeta {
    /// Joins the listing with a raw price snapshot into the initial spot
    /// price table: one entry per listed pair, seeded with its rounded
    /// snapshot price under metadata resolved from the token listing.
    /// A missing price, an unresolved token or an oversized precision
    /// fails loudly.
    pub fn get_spot_price_data(self, prices: &Vec<(String, u64)>) -> (r: Result<
        SpotPriceData,
        CatalogError,
    >)
        requires
            forall|i: int| 0 <= i < prices@.len() ==> (#[trigger] prices@[i]).1 <= MAX_UNITS,
        ensures
            r is Ok <==> spot_seed_ok(self.universe@, self.tokens@, prices@),
            r is Err ==> ({
                let d = first_spot_defect(self.universe@, self.tokens@, prices@);
                &&& d >= 0
                &&& r->Err_0 == spot_defect_error(self.universe@[d], self.tokens@, prices@)
            }),
            r is Ok ==> {
                let d = r->Ok_0;
                &&& d.meta == self
                &&& d.map.wf()
                &&& forall|k: Seq<char>| d.map.contains_key(k) <==> exists|i: int|
                    0 <= i < self.universe@.len() && (#[trigger] self.universe@[i]).name@ == k
                &&& unique_spot_names(self.universe@) ==> forall|i: int|
                    0 <= i < self.universe@.len() ==> d.map.spec_price(
                        d.map.spec_index_of((#[trigger] self.universe@[i]).name@),
                    ) == spot_price_of(self.universe@[i], self.tokens@, prices@)
            },
    {
        let mut map = NameToPriceMap::new();
        let n = self.universe.len();
        let mut i: usize = 0;
        while i < n
            invariant
                i <= n == self.universe@.len(),
                forall|j: int| 0 <= j < prices@.len() ==> (#[trigger] prices@[j]).1 <= MAX_UNITS,
                map.wf(),
                forall|j: int| 0 <= j < i ==> {
                    let e = #[trigger] self.universe@[j];
                    &&& batch_lookup(prices@, e.name@) is Some
                    &&& first_token_index(self.tokens@, e.quote_token) >= 0
                    &&& first_token_index(self.tokens@, e.base_token) >= 0
                    &&& self.tokens@[first_token_index(self.tokens@, e.quote_token)].sz_decimals
                        <= MAX_DECIMALS_SPOT
                },
                forall|k: Seq<char>| map.contains_key(k) <==> exists|j: int|
                    0 <= j < i && (#[trigger] self.universe@[j]).name@ == k,
                unique_spot_names(self.universe@) ==> forall|j: int| 0 <= j < i
                    ==> map.spec_price(map.spec_index_of((#[trigger] self.universe@[j]).name@))
                    == spot_price_of(self.universe@[j], self.tokens@, prices@),
            decreases n - i,
        {
            let entry = &self.universe[i];
            let units = match crate::table::batch_get(prices, &entry.name) {
                Some(v) => v,
                Option::None => {
                    proof {
                        lemma_first_spot_defect_is(self.universe@, self.tokens@, prices@, i as int);
                    }
                    return Err(CatalogError::MissingPrice);
                },
            };
            proof {
                lemma_first_key_index(prices@, entry.name@);
            }
            let qi = match find_token(&self.tokens, entry.quote_token) {
                Some(t) => t,
                Option::None => {
                    proof {
                        lemma_first_spot_defect_is(self.universe@, self.tokens@, prices@, i as int);
                    }
                    return Err(CatalogError::MissingToken);
                },
            };
            let bi = match find_token(&self.tokens, entry.base_token) {
                Some(t) => t,
                Option::None => {
                    proof {
                        lemma_first_spot_defect_is(self.universe@, self.tokens@, prices@, i as int);
                    }
                    return Err(CatalogError::MissingToken);
                },
            };
            if self.tokens[qi].sz_decimals > MAX_DECIMALS_SPOT {
                proof {
                    lemma_first_spot_defect_is(self.universe@, self.tokens@, prices@, i as int);
                }
                return Err(CatalogError::InvalidPrecision);
            }
            let meta = Meta::Spot {
                name: entry.name.clone(),
                quote: token_to_asset(&self.tokens[qi]),
                base: token_to_asset(&self.tokens[bi]),
            };
            let price = Price::new_spot(units, meta);
            let ghost map0 = map;
            let key = entry.name.clone();
            map.insert(key, price);
            proof {
                let uni = self.universe@;
                let namev = uni[i as int].name@;
                assert(price == spot_price_of(uni[i as int], self.tokens@, prices@));
                assert forall|k: Seq<char>| map.contains_key(k) implies exists|j: int|
                    0 <= j < i + 1 && (#[trigger] uni[j]).name@ == k by {
                    if k == namev {
                        assert(uni[i as int].name@ == k);
                    } else {
                        assert(map0.contains_key(k));
                        let j0 = choose|j: int| 0 <= j < i && (#[trigger] uni[j]).name@ == k;
                        assert(0 <= j0 < i + 1 && uni[j0].name@ == k);
                    }
                }
                assert forall|k: Seq<char>| (exists|j: int|
                    0 <= j < i + 1 && (#[trigger] uni[j]).name@ == k) implies map.contains_key(
                    k,
                ) by {
                    let j0 = choose|j: int| 0 <= j < i + 1 && (#[trigger] uni[j]).name@ == k;
                    if j0 < i {
                        assert(map0.contains_key(k));
                        if k != namev {
                        }
                    }
                }
                if unique_spot_names(uni) {
                    assert forall|j: int| 0 <= j < i + 1 implies map.spec_price(
                        map.spec_index_of((#[trigger] uni[j]).name@),
                    ) == spot_price_of(uni[j], self.tokens@, prices@) by {
                        if j < i {
                            assert(uni[j].name@ != namev);
                            assert(map0.contains_key(uni[j].name@));
                            assert(map.spec_price(map.spec_index_of(uni[j].name@))
                                == map0.spec_price(map0.spec_index_of(uni[j].name@)));
                        }
                    }
                }
            }
            i = i + 1;
        }
        Ok(SpotPriceData { meta: self, map })
    }
}

/// The live spot price table together with the listing it was seeded
/// from, which the pair-name views below are derived from.
#[derive(Debug)]
pub struct SpotPriceData {
    pub meta: SpotMeta,
    pub map: NameToPriceMap,
}

/// The display name of the token with exchange index `idx`, or the empty
/// string when the listing lacks it.
pub open spec fn spec_token_name(tokens: Seq<TokenInfo>, idx: u16) -> Seq<char> {
    if first_token_index(tokens, idx) >= 0 {
        tokens[first_token_index(tokens, idx)].name@
    } else {
        Seq::empty()
    }
}

/// The `quote/base` pair label of a listed spot entry.
pub open spec fn spec_pair_name(tokens: Seq<TokenInfo>, e: SpotUniverseEntry) -> Seq<char> {
    spec_token_name(tokens, e.quote_token) + "/"@ + spec_token_name(tokens, e.base_token)
}

/// Index of the last listing entry whose pair label reads `label`, or -1.
pub open spec fn last_pair_index(
    tokens: Seq<TokenInfo>,
    uni: Seq<SpotUniverseEntry>,
    label: Seq<char>,
) -> int
    decreases uni.len(),
{
    if uni.len() == 0 {
        -1
    } else if spec_pair_name(tokens, uni.last()) == label {
        uni.len() - 1
    } else {
        last_pair_index(tokens, uni.drop_last(), label)
    }
}

/// The raw unit price the table holds for a listing entry's instrument
/// (0 when the table lacks it).
pub open spec fn spec_pair_price(map: NameToPriceMap, e: SpotUniverseEntry) -> u64 {
    if map.contains_key(e.name@) {
        map.spec_price(map.spec_index_of(e.name@)).spec_value()
    } else {
        0u64
    }
}

/// Inserts `(label, value)` into a unique-key listing, replacing the row
/// already carrying `label` if there is one (map semantics: one row per
/// distinct key, the newest value winning).
fn upsert_entry<V>(out: &mut Vec<(String, V)>, label: String, value: V)
    requires
        forall|a: int, b: int| 0 <= a < b < old(out)@.len() ==> old(out)@[a].0@
            != old(out)@[b].0@,
    ensures
        ({
            let f = crate::table::first_key_index(old(out)@, label@);
            if f >= 0 {
                final(out)@ == old(out)@.update(f, (label, value))
            } else {
                final(out)@ == old(out)@.push((label, value))
            }
        }),
        forall|a: int, b: int| 0 <= a < b < final(out)@.len() ==> final(out)@[a].0@
            != final(out)@[b].0@,
{
    proof {
        lemma_first_key_index(out@, label@);
    }
    let n = out.len();
    let mut i: usize = 0;
    while i < n
        invariant
            i <= n == out@.len(),
            out@ == old(out)@,
            forall|a: int, b: int| 0 <= a < b < out@.len() ==> out@[a].0@ != out@[b].0@,
            forall|j: int| 0 <= j < i ==> (#[trigger] out@[j]).0@ != label@,
        decreases n - i,
    {
        if out[i].0 == label {
            proof {
                crate::table::lemma_first_key_index_is(out@, label@, i as int);
                let s1 = out@.update(i as int, (label, value));
                assert forall|a: int, b: int| 0 <= a < b < s1.len() implies s1[a].0@
                    != s1[b].0@ by {
                    assert(out@[a].0@ != out@[b].0@);
                }
            }
            out.set(i, (label, value));
            return ;
        }
        i = i + 1;
    }
    proof {
        assert(crate::table::first_key_index(out@, label@) < 0) by {
            if crate::table::first_key_index(out@, label@) >= 0 {
                assert(out@[crate::table::first_key_index(out@, label@)].0@ == label@);
            }
        }
        let s1 = out@.push((label, value));
        assert forall|a: int, b: int| 0 <= a < b < s1.len() implies s1[a].0@ != s1[b].0@ by {
            if b < out@.len() {
                assert(out@[a].0@ != out@[b].0@);
            } else {
                assert(s1[b] == (label, value));
                assert(out@[a].0@ != label@);
            }
        }
    }
    out.push((label, value));
}

/// What one `upsert_entry` of listing entry `i`'s label does to a pair
/// view: labels already present stay present, the new label is present,
/// rows decompose into the upserted row and untouched old rows, and the
/// last-occurrence index over the longer listing prefix steps as the new
/// entry dictates.
proof fn lemma_pair_view_step<V>(
    tokens: Seq<TokenInfo>,
    uni: Seq<SpotUniverseEntry>,
    i: int,
    out0: Seq<(String, V)>,
    out1: Seq<(String, V)>,
    label: String,
    value: V,
)
    requires
        0 <= i < uni.len(),
        label@ == spec_pair_name(tokens, uni[i]),
        forall|a: int, b: int| 0 <= a < b < out0.len() ==> out0[a].0@ != out0[b].0@,
        ({
            let f = crate::table::first_key_index(out0, label@);
            if f >= 0 {
                out1 == out0.update(f, (label, value))
            } else {
                out1 == out0.push((label, value))
            }
        }),
    ensures
        forall|k: Seq<char>| #[trigger] crate::table::first_key_index(out0, k) >= 0
            ==> crate::table::first_key_index(out1, k) >= 0,
        crate::table::first_key_index(out1, label@) >= 0,
        forall|j: int| 0 <= j < out1.len() ==> if (#[trigger] out1[j]).0@ == label@ {
            out1[j] == (label, value)
        } else {
            j < out0.len() && out1[j] == out0[j]
        },
        forall|k: Seq<char>|
            #[trigger] last_pair_index(tokens, uni.subrange(0, i + 1), k) == if k == label@ {
                i
            } else {
                last_pair_index(tokens, uni.subrange(0, i), k)
            },
{
    let f = crate::table::first_key_index(out0, label@);
    lemma_first_key_index(out0, label@);
    if f >= 0 {
        assert(out0[f].0@ == label@);
        assert(forall|x: int| 0 <= x < out1.len() ==> (#[trigger] out1[x]).0@ == out0[x].0@);
        assert forall|k: Seq<char>|
            #[trigger] crate::table::first_key_index(out0, k) >= 0 implies crate::table::first_key_index(
            out1,
            k,
        ) >= 0 by {
            crate::table::lemma_first_key_index_same_keys(out0, out1, k);
        }
        crate::table::lemma_first_key_index_same_keys(out0, out1, label@);
        assert forall|j: int| 0 <= j < out1.len() implies if (#[trigger] out1[j]).0@
            == label@ {
            out1[j] == (label, value)
        } else {
            j < out0.len() && out1[j] == out0[j]
        } by {
            if j != f {
                assert(out1[j] == out0[j]);
                if out0[j].0@ == label@ {
                    if j < f {
                        assert(out0[j].0@ != out0[f].0@);
                    } else {
                        assert(out0[f].0@ != out0[j].0@);
                    }
                }
            }
        }
    } else {
        assert forall|j: int| 0 <= j < out0.len() implies (#[trigger] out0[j]).0@ != label@ by {}
        assert forall|k: Seq<char>|
            #[trigger] crate::table::first_key_index(out0, k) >= 0 implies crate::table::first_key_index(
            out1,
            k,
        ) >= 0 by {
            crate::table::lemma_first_key_index_push(out0, (label, value), k);
        }
        crate::table::lemma_first_key_index_push(out0, (label, value), label@);
        assert(out1[out0.len() as int] == (label, value));
    }
    let cur = uni.subrange(0, i + 1);
    let pre = uni.subrange(0, i);
    assert(cur.last() == uni[i]);
    assert(cur.drop_last() =~= pre);
    assert forall|k: Seq<char>|
        #[trigger] last_pair_index(tokens, cur, k) == if k == label@ {
            i
        } else {
            last_pair_index(tokens, pre, k)
        } by {
        assert(spec_pair_name(tokens, cur.last()) == label@);
        if k != label@ {
            assert(last_pair_index(tokens, cur, k) == last_pair_index(
                tokens,
                cur.drop_last(),
                k,
            ));
            assert(cur.drop_last() == pre);
        }
    }
}

impl SpotPriceData {
    /// The label of the pair at listing position `i`.
    pub fn pair_name_at(&self, i: usize) -> (r: String)
        requires
            i < self.meta.universe@.len(),
        ensures
            r@ == spec_pair_name(self.meta.tokens@, self.meta.universe@[i as int]),
    {
        let e = &self.meta.universe[i];
        let q = match find_token(&self.meta.tokens, e.quote_token) {
            Some(t) => self.meta.tokens[t].name.clone(),
            Option::None => String::new(),
        };
        let b = match find_token(&self.meta.tokens, e.base_token) {
            Some(t) => self.meta.tokens[t].name.clone(),
            Option::None => String::new(),
        };
        q.concat("/").concat(b.as_str())
    }

    /// The pair-label price view: one row per distinct label, carrying
    /// the raw unit price of the label's instrument (0 for an instrument
    /// the table does not hold). A label listed more than once resolves
    /// to its last listing entry, later entries overwriting earlier ones.
    pub fn get_pair_to_raw_price_map(&self) -> (r: Vec<(String, u64)>)
        ensures
            forall|a: int, b: int| 0 <= a < b < r@.len() ==> r@[a].0@ != r@[b].0@,
            forall|i: int| 0 <= i < self.meta.universe@.len() ==> first_key_index(
                r@,
                spec_pair_name(self.meta.tokens@, #[trigger] self.meta.universe@[i]),
            ) >= 0,
            forall|j: int| 0 <= j < r@.len() ==> {
                let li = last_pair_index(
                    self.meta.tokens@,
                    self.meta.universe@,
                    (#[trigger] r@[j]).0@,
                );
                &&& li >= 0
                &&& r@[j].1 == spec_pair_price(self.map, self.meta.universe@[li])
            },
    {
        let tokens = &self.meta.tokens;
        let mut out: Vec<(String, u64)> = Vec::new();
        let n = self.meta.universe.len();
        let mut i: usize = 0;
        while i < n
            invariant
                i <= n == self.meta.universe@.len(),
                tokens@ == self.meta.tokens@,
                forall|a: int, b: int| 0 <= a < b < out@.len() ==> out@[a].0@
                    != out@[b].0@,
                forall|i2: int| 0 <= i2 < i ==> first_key_index(
                    out@,
                    spec_pair_name(tokens@, #[trigger] self.meta.universe@[i2]),
                ) >= 0,
                forall|j: int| 0 <= j < out@.len() ==> {
                    let li = last_pair_index(
                        tokens@,
                        self.meta.universe@.subrange(0, i as int),
                        (#[trigger] out@[j]).0@,
                    );
                    &&& li >= 0
                    &&& out@[j].1 == spec_pair_price(self.map, self.meta.universe@[li])
                },
            decreases n - i,
        {
            let label = self.pair_name_at(i);
            let units: u64 = match self.map.get(&self.meta.universe[i].name) {
                Some(p) => p.get_value(),
                Option::None => 0,
            };
            let ghost glabel = label;
            let ghost out0 = out@;
            upsert_entry(&mut out, label, units);
            proof {
                let uni = self.meta.universe@;
                lemma_pair_view_step(tokens@, uni, i as int, out0, out@, glabel, units);
                assert(units == spec_pair_price(self.map, uni[i as int]));
                assert forall|i2: int| 0 <= i2 < i + 1 implies first_key_index(
                    out@,
                    spec_pair_name(tokens@, #[trigger] uni[i2]),
                ) >= 0 by {
                    if i2 < i {
                        assert(first_key_index(out0, spec_pair_name(tokens@, uni[i2])) >= 0);
                    }
                }
                assert forall|j: int| 0 <= j < out@.len() implies {
                    let li = last_pair_index(tokens@, uni.subrange(0, i + 1 as int), (
                    #[trigger] out@[j]).0@);
                    &&& li >= 0
                    &&& out@[j].1 == spec_pair_price(self.map, uni[li])
                } by {
                    if out@[j].0@ == glabel@ {
                        assert(out@[j] == (glabel, units));
                    } else {
                        assert(out@[j] == out0[j]);
                        assert(last_pair_index(tokens@, uni.subrange(0, i as int), out0[j].0@)
                            >= 0);
                    }
                }
            }
            i = i + 1;
        }
        proof {
            assert(self.meta.universe@.subrange(0, n as int) =~= self.meta.universe@);
        }
        out
    }

    /// The pair-label key view: one row per distinct label, carrying the
    /// exchange-assigned instrument key of the label's listing entry. A
    /// label listed more than once resolves to its last listing entry,
    /// later entries overwriting earlier ones.
    pub fn get_pair_to_name_map(&self) -> (r: Vec<(String, String)>)
        ensures
            forall|a: int, b: int| 0 <= a < b < r@.len() ==> r@[a].0@ != r@[b].0@,
            forall|i: int| 0 <= i < self.meta.universe@.len() ==> first_key_index(
                r@,
                spec_pair_name(self.meta.tokens@, #[trigger] self.meta.universe@[i]),
            ) >= 0,
            forall|j: int| 0 <= j < r@.len() ==> {
                let li = last_pair_index(
                    self.meta.tokens@,
                    self.meta.universe@,
                    (#[trigger] r@[j]).0@,
                );
                &&& li >= 0
                &&& r@[j].1@ == self.meta.universe@[li].name@
            },
    {
        let tokens = &self.meta.tokens;
        let mut out: Vec<(String, String)> = Vec::new();
        let n = self.meta.universe.len();
        let mut i: usize = 0;
        while i < n
            invariant
                i <= n == self.meta.universe@.len(),
                tokens@ == self.meta.tokens@,
                forall|a: int, b: int| 0 <= a < b < out@.len() ==> out@[a].0@
                    != out@[b].0@,
                forall|i2: int| 0 <= i2 < i ==> first_key_index(
                    out@,
                    spec_pair_name(tokens@, #[trigger] self.meta.universe@[i2]),
                ) >= 0,
                forall|j: int| 0 <= j < out@.len() ==> {
                    let li = last_pair_index(
                        tokens@,
                        self.meta.universe@.subrange(0, i as int),
                        (#[trigger] out@[j]).0@,
                    );
                    &&& li >= 0
                    &&& out@[j].1@ == self.meta.universe@[li].name@
                },
            decreases n - i,
        {
            let label = self.pair_name_at(i);
            let name = self.meta.universe[i].name.clone();
            let ghost glabel = label;
            let ghost gname = name;
            let ghost out0 = out@;
            upsert_entry(&mut out, label, name);
            proof {
                let uni = self.meta.universe@;
                lemma_pair_view_step(tokens@, uni, i as int, out0, out@, glabel, gname);
                assert forall|i2: int| 0 <= i2 < i + 1 implies first_key_index(
                    out@,
                    spec_pair_name(tokens@, #[trigger] uni[i2]),
                ) >= 0 by {
                    if i2 < i {
                        assert(first_key_index(out0, spec_pair_name(tokens@, uni[i2])) >= 0);
                    }
                }
                assert forall|j: int| 0 <= j < out@.len() implies {
                    let li = last_pair_index(tokens@, uni.subrange(0, i + 1 as int), (
                    #[trigger] out@[j]).0@);
                    &&& li >= 0
                    &&& out@[j].1@ == uni[li].name@
                } by {
                    if out@[j].0@ == glabel@ {
                        assert(out@[j] == (glabel, gname));
                        assert(gname@ == uni[i as int].name@);
                    } else {
                        assert(out@[j] == out0[j]);
                        assert(last_pair_index(tokens@, uni.subrange(0, i as int), out0[j].0@)
                            >= 0);
                    }
                }
            }
            i = i + 1;
        }
        proof {
            assert(self.meta.universe@.subrange(0, n as int) =~= self.meta.universe@);
        }
        out
    }

    /// Merges one raw price batch into the table; pairs absent from the
    /// batch keep their prior price.
    pub fn update(&mut self, price_map: &Vec<(String, u64)>)
        requires
            old(self).map.wf(),
            forall|i: int| 0 <= i < price_map@.len() ==> (#[trigger] price_map@[i]).1
                <= MAX_UNITS,
        ensures
            final(self).meta == old(self).meta,
            final(self).map.wf(),
            final(self).map.spec_len() == old(self).map.spec_len(),
            forall|i: int| 0 <= i < old(self).map.spec_len() ==> final(self).map.spec_key(i)
                == old(self).map.spec_key(i),
            forall|i: int| 0 <= i < old(self).map.spec_len() ==> #[trigger] final(self).map.spec_price(i) == {
                let p = old(self).map.spec_price(i);
                match batch_lookup(price_map@, old(self).map.spec_key(i)) {
                    Some(v) => crate::table::spec_updated_price(p, v),
                    Option::None => p,
                }
            },
    {
        self.map.update_from_batch(price_map);
    }

    /// The raw unit price of the first listed pair whose label reads
    /// `pair` (0 when the table lacks that pair's instrument). Asking for
    /// a label the listing lacks is a programming error, excluded by
    /// contract.
    pub fn get_price_from_pair(&self, pair: String) -> (r: u64)
        requires
            exists|i: int| 0 <= i < self.meta.universe@.len() && spec_pair_name(
                self.meta.tokens@,
                (#[trigger] self.meta.universe@[i]),
            ) == pair@,
        ensures
            exists|i: int|
                {
                    &&& 0 <= i < self.meta.universe@.len()
                    &&& spec_pair_name(self.meta.tokens@, (#[trigger] self.meta.universe@[i]))
                        == pair@
                    &&& forall|j: int| 0 <= j < i ==> spec_pair_name(
                        self.meta.tokens@,
                        (#[trigger] self.meta.universe@[j]),
                    ) != pair@
                    &&& r == if self.map.contains_key(self.meta.universe@[i].name@) {
                        self.map.spec_price(
                            self.map.spec_index_of(self.meta.universe@[i].name@),
                        ).spec_value()
                    } else {
                        0u64
                    }
                },
    {
        let n = self.meta.universe.len();
        let mut i: usize = 0;
        while i < n
            invariant
                i <= n == self.meta.universe@.len(),
                exists|j: int| 0 <= j < n && spec_pair_name(
                    self.meta.tokens@,
                    (#[trigger] self.meta.universe@[j]),
                ) == pair@,
                forall|j: int| 0 <= j < i ==> spec_pair_name(
                    self.meta.tokens@,
                    (#[trigger] self.meta.universe@[j]),
                ) != pair@,
            decreases n - i,
        {
            let label = self.pair_name_at(i);
            if label == pair {
                let units: u64 = match self.map.get(&self.meta.universe[i].name) {
                    Some(p) => p.get_value(),
                    Option::None => 0,
                };
                proof {
                    assert(spec_pair_name(self.meta.tokens@, self.meta.universe@[i as int])
                        == pair@);
                }
                return units;
            }
            i = i + 1;
        }
        proof {
            let j0 = choose|j: int| 0 <= j < n && spec_pair_name(
                self.meta.tokens@,
                (#[trigger] self.meta.universe@[j]),
            ) == pair@;
            assert(spec_pair_name(self.meta.tokens@, self.meta.universe@[j0]) != pair@);
        }
        vstd::pervasive::unreached()
    }
}

} // verus!
