//! Immutable per-instrument metadata: decimal precision limits, leverage
//! and listing flags. Fetched once per session and shared by every price
//! value of the same instrument.

use vstd::prelude::*;

verus! {

/// Decimal cap for spot markets.
pub const MAX_DECIMALS_SPOT: u16 = 8;

/// Decimal cap for perpetual markets.
pub const MAX_DECIMALS_PERP: u16 = 6;

/// Per-token descriptor referenced by a spot instrument.
#[derive(Clone, Debug)]
pub struct SpotAssetMeta {
    pub sz_decimals: u16,
    pub wei_decimals: u16,
    pub name: String,
    pub index: u16,
}

impl SpotAssetMeta {
    /// An exact copy; see `Meta::duplicate`.
    pub fn duplicate(&self) -> (r: SpotAssetMeta)
        ensures
            r == *self,
    {
        SpotAssetMeta {
            sz_decimals: self.sz_decimals,
            wei_decimals: self.wei_decimals,
            name: self.name.clone(),
            index: self.index,
        }
    }
}

/// Instrument metadata: a spot pair described by its quote and base
/// tokens, or a perpetual contract described by its own precision,
/// leverage and listing flags.
#[derive(Clone, Debug)]
pub enum Meta {
    Spot { name: String, quote: SpotAssetMeta, base: SpotAssetMeta },
    Perp {
        name: String,
        sz_decimals: u16,
        max_leverage: u16,
        only_isolated: Option<bool>,
        is_delisted: Option<bool>,
    },
}

impl Meta {
    /// Size decimals that govern rounding for this instrument: the quote
    /// token's for a spot pair, the contract's own for a perpetual.
    pub open spec fn spec_sz_decimals(&self) -> u16 {
        match self {
            Meta::Spot { quote, .. } => quote.sz_decimals,
            Meta::Perp { sz_decimals, .. } => *sz_decimals,
        }
    }

    pub open spec fn spec_is_spot(&self) -> bool {
        self is Spot
    }

    pub open spec fn spec_is_perp(&self) -> bool {
        self is Perp
    }

    /// The market-wide decimal cap that applies to this instrument.
    pub open spec fn spec_max_decimals(&self) -> u16 {
        if self.spec_is_spot() {
            MAX_DECIMALS_SPOT
        } else {
            MAX_DECIMALS_PERP
        }
    }

    pub open spec fn spec_name(&self) -> Seq<char> {
        match self {
            Meta::Spot { name, .. } => name@,
            Meta::Perp { name, .. } => name@,
        }
    }

    /// Usable metadata keeps its size decimals within the market's
    /// decimal cap, so the precision cap `max_decimals - sz_decimals`
    /// never goes negative.
    pub open spec fn wf(&self) -> bool {
        self.spec_sz_decimals() <= self.spec_max_decimals()
    }

    pub fn get_sz_decimals(&self) -> (r: u16)
        ensures
            r == self.spec_sz_decimals(),
    {
        match self {
            Meta::Spot { quote, .. } => quote.sz_decimals,
            Meta::Perp { sz_decimals, .. } => *sz_decimals,
        }
    }

    pub fn is_spot(&self) -> (r: bool)
        ensures
            r == self.spec_is_spot(),
    {
        match self {
            Meta::Spot { .. } => true,
            _ => false,
        }
    }

    pub fn is_perp(&self) -> (r: bool)
        ensures
            r == self.spec_is_perp(),
    {
        match self {
            Meta::Perp { .. } => true,
            _ => false,
        }
    }

    pub fn get_name(&self) -> (r: &String)
        ensures
            r@ == self.spec_name(),
    {
        match self {
            Meta::Spot { name, .. } => name,
            Meta::Perp { name, .. } => name,
        }
    }

    /// An exact copy. The derived `Clone` is opaque to the verifier, so
    /// verified callers use this instead.
    pub fn duplicate(&self) -> (r: Meta)
        ensures
            r == *self,
    {
        match self {
            Meta::Spot { name, quote, base } => Meta::Spot {
                name: name.clone(),
                quote: quote.duplicate(),
                base: base.duplicate(),
            },
            Meta::Perp { name, sz_decimals, max_leverage, only_isolated, is_delisted } => {
                let iso: Option<bool> = match only_isolated {
                    Some(b) => Some(*b),
                    None => None,
                };
                let del: Option<bool> = match is_delisted {
                    Some(b) => Some(*b),
                    None => None,
                };
                Meta::Perp {
                    name: name.clone(),
                    sz_decimals: *sz_decimals,
                    max_leverage: *max_leverage,
                    only_isolated: iso,
                    is_delisted: del,
                }
            },
        }
    }

    /// Checks `wf` at run time, for callers holding freshly fetched data.
    pub fn check_wf(&self) -> (r: bool)
        ensures
            r == self.wf(),
    {
        let sz = self.get_sz_decimals();
        if self.is_spot() {
            sz <= MAX_DECIMALS_SPOT
        } else {
            sz <= MAX_DECIMALS_PERP
        }
    }
}

} // verus!
