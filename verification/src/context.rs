//! Lightweight per-instrument context records: the minimal descriptor a
//! price value needs when the full metadata catalog is not in play.

use vstd::prelude::*;

verus! {

/// Per-token descriptor referenced by a spot context.
#[derive(Clone, Debug, Default)]
pub struct SpotAssetContext {
    pub sz_decimals: u16,
    pub wei_decimals: u16,
    pub name: String,
    pub index: u16,
}

/// Context of a spot pair: its quote and base token descriptors.
#[derive(Clone, Debug)]
pub struct SpotContext {
    pub name: String,
    pub quote: SpotAssetContext,
    pub base: SpotAssetContext,
}

/// Context of a perpetual contract.
#[derive(Clone, Debug)]
pub struct PerpContext {
    pub name: String,
    pub sz_decimals: u16,
}

/// Instrument context: the spot or perpetual descriptor attached to a
/// price when only precision and naming are needed.
#[derive(Clone, Debug)]
pub enum Context {
    Spot { name: String, quote: SpotAssetContext, base: SpotAssetContext },
    Perp { name: String, sz_decimals: u16 },
}

impl Context {
    /// Size decimals that govern rounding for this instrument.
    pub open spec fn spec_sz_decimals(&self) -> u16 {
        match self {
            Context::Spot { quote, .. } => quote.sz_decimals,
            Context::Perp { sz_decimals, .. } => *sz_decimals,
        }
    }

    pub open spec fn spec_is_spot(&self) -> bool {
        self is Spot
    }

    pub open spec fn spec_is_perp(&self) -> bool {
        self is Perp
    }

    pub open spec fn spec_name(&self) -> Seq<char> {
        match self {
            Context::Spot { name, .. } => name@,
            Context::Perp { name, .. } => name@,
        }
    }

    pub fn get_sz_decimals(&self) -> (r: u16)
        ensures
            r == self.spec_sz_decimals(),
    {
        match self {
            Context::Spot { quote, .. } => quote.sz_decimals,
            Context::Perp { sz_decimals, .. } => *sz_decimals,
        }
    }

    pub fn is_spot(&self) -> (r: bool)
        ensures
            r == self.spec_is_spot(),
    {
        match self {
            Context::Spot { .. } => true,
            _ => false,
        }
    }

    pub fn is_perp(&self) -> (r: bool)
        ensures
            r == self.spec_is_perp(),
    {
        match self {
            Context::Perp { .. } => true,
            _ => false,
        }
    }

    pub fn get_name(&self) -> (r: &String)
        ensures
            r@ == self.spec_name(),
    {
        match self {
            Context::Spot { name, .. } => name,
            Context::Perp { name, .. } => name,
        }
    }
}

} // verus!
