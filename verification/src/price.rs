//! The tagged instrument price: no price yet, a spot price, or a
//! perpetual price, each carrying its instrument's metadata and kept
//! permanently in rounded form.

use vstd::prelude::*;

use crate::decimal::{
    div_round_half_up, div_units_to_size, pow10, round_half_up, round_price,
    round_price_product, spec_round_price, spec_round_price_at, MAX_UNITS, UNIT_DECIMALS,
    UNIT_SCALE,
};
use crate::meta::Meta;

verus! {

/// An instrument price in `10^-8` units. The zero unit count is the
/// sentinel for "no price known yet" and is stored unrounded.
#[derive(Clone, Debug)]
pub enum Price {
    NoPrice,
    Spot { price: u64, meta: Meta },
    Perp { price: u64, meta: Meta },
}

impl Price {
    /// The stored unit count (0 for the no-price tag).
    pub open spec fn spec_value(&self) -> u64 {
        match self {
            Price::Spot { price, .. } => *price,
            Price::Perp { price, .. } => *price,
            Price::NoPrice => 0u64,
        }
    }

    pub open spec fn spec_meta(&self) -> Meta
        recommends
            !(self is NoPrice),
    {
        match self {
            Price::Spot { meta, .. } => *meta,
            Price::Perp { meta, .. } => *meta,
            Price::NoPrice => arbitrary(),
        }
    }

    /// The decimal cap of this price's market type.
    pub open spec fn spec_max_decimals(&self) -> u16 {
        if self is Spot {
            crate::meta::MAX_DECIMALS_SPOT
        } else {
            crate::meta::MAX_DECIMALS_PERP
        }
    }

    /// Well-formed prices carry metadata of the matching variant, keep
    /// the stored value in range, and store only fixed points of their
    /// own rounding rule (the sentinel 0 is one by definition).
    pub open spec fn wf(&self) -> bool {
        match self {
            Price::NoPrice => true,
            Price::Spot { price, meta } => {
                &&& meta.spec_is_spot()
                &&& meta.wf()
                &&& *price <= MAX_UNITS
                &&& *price == spec_round_price(
                    *price as nat,
                    self.spec_max_decimals() as int,
                    meta.spec_sz_decimals() as int,
                )
            },
            Price::Perp { price, meta } => {
                &&& meta.spec_is_perp()
                &&& meta.wf()
                &&& *price <= MAX_UNITS
                &&& *price == spec_round_price(
                    *price as nat,
                    self.spec_max_decimals() as int,
                    meta.spec_sz_decimals() as int,
                )
            },
        }
    }

    /// Builds the price variant matching the metadata's variant.
    pub fn from_meta(price: u64, meta: &Meta) -> (r: Self)
        requires
            meta.wf(),
            price <= MAX_UNITS,
        ensures
            r.wf(),
            !(r is NoPrice),
            r is Spot <==> meta.spec_is_spot(),
            r.spec_meta() == *meta,
            r.spec_value() == spec_round_price(
                price as nat,
                r.spec_max_decimals() as int,
                meta.spec_sz_decimals() as int,
            ),
    {
        match meta {
            Meta::Spot { .. } => Price::new_spot(price, meta.duplicate()),
            Meta::Perp { .. } => Price::new_perp(price, meta.duplicate()),
        }
    }

    /// Constructs a spot price: `0` is stored as the unrounded sentinel,
    /// anything else is rounded by the spot rule. Metadata of the wrong
    /// variant is rejected by contract, not at run time.
    pub fn new_spot(price: u64, meta: Meta) -> (r: Self)
        requires
            meta.spec_is_spot(),
            meta.wf(),
            price <= MAX_UNITS,
        ensures
            r.wf(),
            r is Spot,
            r.spec_meta() == meta,
            r.spec_value() == spec_round_price(
                price as nat,
                crate::meta::MAX_DECIMALS_SPOT as int,
                meta.spec_sz_decimals() as int,
            ),
            r == (Price::Spot {
                price: spec_round_price(
                    price as nat,
                    crate::meta::MAX_DECIMALS_SPOT as int,
                    meta.spec_sz_decimals() as int,
                ) as u64,
                meta,
            }),
    {
        let sz = meta.get_sz_decimals();
        let rounded = round_price(price, crate::meta::MAX_DECIMALS_SPOT, sz);
        proof {
            crate::decimal::lemma_round_price_idempotent(
                price as nat,
                crate::meta::MAX_DECIMALS_SPOT as int,
                sz as int,
            );
        }
        Price::Spot { price: rounded, meta }
    }

    /// Constructs a perpetual price; see `new_spot`.
    pub fn new_perp(price: u64, meta: Meta) -> (r: Self)
        requires
            meta.spec_is_perp(),
            meta.wf(),
            price <= MAX_UNITS,
        ensures
            r.wf(),
            r is Perp,
            r.spec_meta() == meta,
            r.spec_value() == spec_round_price(
                price as nat,
                crate::meta::MAX_DECIMALS_PERP as int,
                meta.spec_sz_decimals() as int,
            ),
            r == (Price::Perp {
                price: spec_round_price(
                    price as nat,
                    crate::meta::MAX_DECIMALS_PERP as int,
                    meta.spec_sz_decimals() as int,
                ) as u64,
                meta,
            }),
    {
        let sz = meta.get_sz_decimals();
        let rounded = round_price(price, crate::meta::MAX_DECIMALS_PERP, sz);
        proof {
            crate::decimal::lemma_round_price_idempotent(
                price as nat,
                crate::meta::MAX_DECIMALS_PERP as int,
                sz as int,
            );
        }
        Price::Perp { price: rounded, meta }
    }

    /// The stored unit count; 0 when no price is known.
    pub fn get_value(&self) -> (r: u64)
        ensures
            r == self.spec_value(),
    {
        match self {
            Price::Spot { price, .. } => *price,
            Price::Perp { price, .. } => *price,
            Price::NoPrice => 0,
        }
    }

    /// The stored value moved by `slippage` (a fraction in `10^-8`
    /// units, at most 1) against the taker — up for a buy, down for a
    /// sell — then re-rounded by this instrument's own rule at the full
    /// product precision. The no-price tag yields 0.
    pub fn get_value_after_slippage(&self, slippage: u64, is_buy: bool) -> (r: u64)
        requires
            self.wf(),
            slippage <= UNIT_SCALE,
            self.spec_value() <= MAX_UNITS / 2,
        ensures
            self is NoPrice ==> r == 0,
            !(self is NoPrice) ==> r as int * UNIT_SCALE as int == spec_round_price_at(
                (self.spec_value() * (if is_buy {
                    UNIT_SCALE + slippage
                } else {
                    UNIT_SCALE - slippage
                })) as nat,
                2 * UNIT_DECIMALS as int,
                self.spec_max_decimals() as int,
                self.spec_meta().spec_sz_decimals() as int,
            ),
    {
        let value = self.get_value();
        let factor: u64 = if is_buy {
            UNIT_SCALE + slippage
        } else {
            UNIT_SCALE - slippage
        };
        proof {
            assert(value as int * factor as int <= MAX_UNITS as int * UNIT_SCALE as int)
                by (nonlinear_arith)
                requires
                    0 <= value as int <= MAX_UNITS as int / 2 && 0 <= factor as int <= 2
                        * UNIT_SCALE as int,
            ;
        }
        let product: u128 = (value as u128) * (factor as u128);
        match self {
            Price::NoPrice => 0,
            Price::Spot { meta, .. } => round_price_product(
                product,
                crate::meta::MAX_DECIMALS_SPOT,
                meta.get_sz_decimals(),
            ),
            Price::Perp { meta, .. } => round_price_product(
                product,
                crate::meta::MAX_DECIMALS_PERP,
                meta.get_sz_decimals(),
            ),
        }
    }

    /// A quantity rounded to this instrument's `sz_decimals` decimal
    /// places (ties up) — the precision sizes are quoted in. The
    /// no-price tag yields 0.
    pub fn get_true_size(&self, size: u64) -> (r: u64)
        requires
            self.wf(),
            size <= MAX_UNITS,
        ensures
            self is NoPrice ==> r == 0,
            !(self is NoPrice) ==> r == round_half_up(
                size as int,
                pow10((UNIT_DECIMALS - self.spec_meta().spec_sz_decimals()) as int as nat) as int,
            ),
    {
        match self {
            Price::NoPrice => 0,
            Price::Spot { meta, .. } => round_size(size, meta.get_sz_decimals()),
            Price::Perp { meta, .. } => round_size(size, meta.get_sz_decimals()),
        }
    }

    /// Converts a quote-currency notional into an asset quantity at the
    /// current price: `size / value`, rounded to `sz_decimals` places.
    /// The current value must be positive — the sentinel price admits no
    /// conversion — and the quotient must stay representable.
    pub fn get_asset_denom_size(&self, size: u64) -> (r: u64)
        requires
            self.wf(),
            !(self is NoPrice),
            self.spec_value() >= 1,
            size <= MAX_UNITS,
            size as int * UNIT_SCALE as int <= self.spec_value() as int * MAX_UNITS as int,
        ensures
            r as int == div_round_half_up(
                size as int * UNIT_SCALE as int,
                self.spec_value() as int,
                pow10((UNIT_DECIMALS - self.spec_meta().spec_sz_decimals()) as int as nat) as int,
            ),
    {
        let value = self.get_value();
        self.get_asset_denom_size_at_price(size, value)
    }

    /// `get_asset_denom_size` against an explicit price instead of the
    /// stored one.
    pub fn get_asset_denom_size_at_price(&self, size: u64, price: u64) -> (r: u64)
        requires
            self.wf(),
            !(self is NoPrice),
            price >= 1,
            price <= MAX_UNITS,
            size <= MAX_UNITS,
            size as int * UNIT_SCALE as int <= price as int * MAX_UNITS as int,
        ensures
            r as int == div_round_half_up(
                size as int * UNIT_SCALE as int,
                price as int,
                pow10((UNIT_DECIMALS - self.spec_meta().spec_sz_decimals()) as int as nat) as int,
            ),
    {
        match self {
            Price::NoPrice => 0,
            Price::Spot { meta, .. } => div_units_to_size(size, price, meta.get_sz_decimals()),
            Price::Perp { meta, .. } => div_units_to_size(size, price, meta.get_sz_decimals()),
        }
    }

    /// An arbitrary price rounded by this instrument's own rule. The
    /// no-price tag yields 0.
    pub fn get_true_price_for_asset(&self, price: u64) -> (r: u64)
        requires
            self.wf(),
            price <= MAX_UNITS,
        ensures
            self is NoPrice ==> r == 0,
            !(self is NoPrice) ==> r == spec_round_price(
                price as nat,
                self.spec_max_decimals() as int,
                self.spec_meta().spec_sz_decimals() as int,
            ),
    {
        match self {
            Price::NoPrice => 0,
            Price::Spot { meta, .. } => round_price(
                price,
                crate::meta::MAX_DECIMALS_SPOT,
                meta.get_sz_decimals(),
            ),
            Price::Perp { meta, .. } => round_price(
                price,
                crate::meta::MAX_DECIMALS_PERP,
                meta.get_sz_decimals(),
            ),
        }
    }

    /// Replaces the stored value with `new_price`, re-rounded; the
    /// metadata is untouched, and the no-price tag absorbs updates.
    pub fn update_price(&mut self, new_price: u64)
        requires
            old(self).wf(),
            new_price <= MAX_UNITS,
        ensures
            final(self).wf(),
            *final(self) is NoPrice <==> *old(self) is NoPrice,
            !(*old(self) is NoPrice) ==> {
                &&& final(self).spec_meta() == old(self).spec_meta()
                &&& *final(self) is Spot <==> *old(self) is Spot
                &&& final(self).spec_value() == spec_round_price(
                    new_price as nat,
                    old(self).spec_max_decimals() as int,
                    old(self).spec_meta().spec_sz_decimals() as int,
                )
            },
    {
        match self {
            Price::Spot { price, meta } => {
                let rounded = round_price(
                    new_price,
                    crate::meta::MAX_DECIMALS_SPOT,
                    meta.get_sz_decimals(),
                );
                proof {
                    crate::decimal::lemma_round_price_idempotent(
                        new_price as nat,
                        crate::meta::MAX_DECIMALS_SPOT as int,
                        meta.spec_sz_decimals() as int,
                    );
                }
                *price = rounded;
            },
            Price::Perp { price, meta } => {
                let rounded = round_price(
                    new_price,
                    crate::meta::MAX_DECIMALS_PERP,
                    meta.get_sz_decimals(),
                );
                proof {
                    crate::decimal::lemma_round_price_idempotent(
                        new_price as nat,
                        crate::meta::MAX_DECIMALS_PERP as int,
                        meta.spec_sz_decimals() as int,
                    );
                }
                *price = rounded;
            },
            Price::NoPrice => (),
        }
    }

    /// A fresh price of the same instrument at `new_price`; the no-price
    /// tag stays the no-price tag.
    pub fn from_new_price(self, new_price: u64) -> (r: Price)
        requires
            self.wf(),
            new_price <= MAX_UNITS,
        ensures
            r.wf(),
            r is NoPrice <==> self is NoPrice,
            !(self is NoPrice) ==> {
                &&& r.spec_meta() == self.spec_meta()
                &&& r is Spot <==> self is Spot
                &&& r.spec_value() == spec_round_price(
                    new_price as nat,
                    self.spec_max_decimals() as int,
                    self.spec_meta().spec_sz_decimals() as int,
                )
            },
    {
        match self {
            Price::Spot { meta, .. } => Price::new_spot(new_price, meta),
            Price::Perp { meta, .. } => Price::new_perp(new_price, meta),
            Price::NoPrice => Price::NoPrice,
        }
    }

    /// The stored value written as a decimal numeral: whole part, dot,
    /// fraction with trailing zeros trimmed (`0.0` when no price is
    /// known).
    pub fn to_string(&self) -> (r: String)
        ensures
            r@ == crate::numeral::spec_units_string(self.spec_value()),
    {
        crate::numeral::units_to_string(self.get_value())
    }

    /// An exact copy. The derived `Clone` is opaque to the verifier, so
    /// verified callers use this instead.
    pub fn duplicate(&self) -> (r: Price)
        ensures
            r == *self,
    {
        match self {
            Price::NoPrice => Price::NoPrice,
            Price::Spot { price, meta } => Price::Spot { price: *price, meta: meta.duplicate() },
            Price::Perp { price, meta } => Price::Perp { price: *price, meta: meta.duplicate() },
        }
    }

    /// The instrument metadata. The no-price tag carries none; asking it
    /// for metadata is a programming error, excluded by contract.
    pub fn get_meta(&self) -> (r: &Meta)
        requires
            !(self is NoPrice),
        ensures
            *r == self.spec_meta(),
    {
        match self {
            Price::NoPrice => vstd::pervasive::unreached(),
            Price::Spot { meta, .. } => meta,
            Price::Perp { meta, .. } => meta,
        }
    }
}

/// Rounds a quantity to `sz_decimals` decimal places, ties up.
fn round_size(size: u64, sz_decimals: u16) -> (r: u64)
    requires
        sz_decimals <= UNIT_DECIMALS,
        size <= MAX_UNITS,
    ensures
        r == round_half_up(
            size as int,
            pow10((UNIT_DECIMALS - sz_decimals) as int as nat) as int,
        ),
        r <= MAX_UNITS,
{
    let g = crate::decimal::pow10_u64(UNIT_DECIMALS - sz_decimals);
    proof {
        crate::decimal::lemma_pow10_pos((UNIT_DECIMALS - sz_decimals) as nat);
        crate::decimal::lemma_pow10_mono((UNIT_DECIMALS - sz_decimals) as nat, 8);
        crate::decimal::lemma_pow10_19();
        crate::decimal::lemma_round_half_up(size as int, g as int);
        crate::decimal::lemma_pow10_divides((UNIT_DECIMALS - sz_decimals) as nat, 19);
        crate::decimal::lemma_round_half_up_bounded(size as int, g as int, MAX_UNITS as int);
    }
    ((size + g / 2) / g) * g
}

} // verus!
