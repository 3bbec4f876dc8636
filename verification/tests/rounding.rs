//! The rounding rule on concrete values: sentinel passthrough,
//! significant-digit targets, precision caps, ties, idempotence, and the
//! slippage computation.

use hyperliquid_rust_sdk_utils::decimal::{round_price, UNIT_SCALE};
use hyperliquid_rust_sdk_utils::meta::Meta;
use hyperliquid_rust_sdk_utils::price::Price;

/// Units for a price written as whole units and a count of 10^-8 steps.
fn units(whole: u64, frac: u64) -> u64 {
    whole * UNIT_SCALE + frac
}

fn perp_meta(name: &str, sz_decimals: u16) -> Meta {
    Meta::Perp {
        name: name.to_string(),
        sz_decimals,
        max_leverage: 100,
        only_isolated: None,
        is_delisted: None,
    }
}

#[test]
fn zero_passes_through_unrounded() {
    assert_eq!(round_price(0, 8, 0), 0);
    assert_eq!(round_price(0, 8, 8), 0);
    assert_eq!(round_price(0, 6, 5), 0);
}

#[test]
fn rounding_keeps_five_significant_digits() {
    // 123.456789 with a loose cap rounds to 123.46 (five digits).
    assert_eq!(round_price(units(123, 45_678_900), 8, 0), units(123, 46_000_000));
    // 0.0123456 rounds to 0.012346.
    assert_eq!(round_price(1_234_560, 8, 0), 1_234_600);
    // 103020.32323 already has six integer digits: rounded to the whole.
    assert_eq!(round_price(units(103_020, 32_323_000), 8, 0), units(103_020, 0));
}

#[test]
fn rounding_respects_the_precision_cap() {
    // Perpetual with sz_decimals = 2: cap is 6 - 2 = 4 decimal places.
    // 0.123456 needs 6 places for five significant digits; the cap wins.
    assert_eq!(round_price(12_345_600, 6, 2), 12_350_000); // 0.1235
    // Cap of zero decimal places rounds to whole units.
    assert_eq!(round_price(units(1, 50_000_000), 6, 6), units(2, 0));
}

#[test]
fn rounding_ties_go_up() {
    // 0.123455 to five places (needed = 5 digits) is a tie: up to 0.12346.
    assert_eq!(round_price(12_345_500, 8, 0), 12_346_000);
    // 1.5 to whole units is a tie: up to 2.
    assert_eq!(round_price(units(1, 50_000_000), 8, 8), units(2, 0));
}

#[test]
fn rounding_is_idempotent_on_samples() {
    let samples: [(u64, u16, u16); 6] = [
        (units(103_020, 32_323_000), 6, 5),
        (units(123, 45_678_900), 8, 0),
        (12_345_500, 8, 0),
        (units(1, 50_000_000), 6, 6),
        (1, 8, 0),
        (0, 6, 2),
    ];
    for (v, maxd, szd) in samples {
        let once = round_price(v, maxd, szd);
        assert_eq!(round_price(once, maxd, szd), once);
    }
}

#[test]
fn slippage_on_a_perpetual_rounds_to_the_cap() {
    // A perpetual at 100 with sz_decimals = 2: buying with 1% slippage
    // yields exactly 101, re-rounded at the 6 - 2 = 4 place cap.
    let p = Price::new_perp(units(100, 0), perp_meta("ETH", 2));
    let slipped = p.get_value_after_slippage(UNIT_SCALE / 100, true);
    assert_eq!(slipped, units(101, 0));
    // Selling with 1% slippage yields exactly 99.
    let slipped_down = p.get_value_after_slippage(UNIT_SCALE / 100, false);
    assert_eq!(slipped_down, units(99, 0));
}

#[test]
fn slippage_with_no_price_is_zero() {
    let p = Price::NoPrice;
    assert_eq!(p.get_value_after_slippage(UNIT_SCALE / 100, true), 0);
}

#[test]
fn true_size_rounds_to_size_decimals() {
    let p = Price::new_perp(units(3230, 20_000_000), perp_meta("ETH", 4));
    // 0.030957835... rounds to 4 size decimals: 0.0310.
    assert_eq!(p.get_true_size(3_095_783), 3_100_000);
    // NoPrice sizes to 0.
    assert_eq!(Price::NoPrice.get_true_size(3_095_783), 0);
}

#[test]
fn asset_denominated_size_divides_at_the_stored_price() {
    // Buying 100 quote units of an asset at 3230.2: 100 / 3230.2 =
    // 0.030957835..., rounded to 4 size decimals -> 0.0310.
    let p = Price::new_perp(units(3230, 20_000_000), perp_meta("ETH", 4));
    assert_eq!(p.get_asset_denom_size(units(100, 0)), 3_100_000);
    // At an explicit price of 50 with sz_decimals 4: 100/50 = 2.
    assert_eq!(p.get_asset_denom_size_at_price(units(100, 0), units(50, 0)), units(2, 0));
}

#[test]
fn update_price_rerounds_in_place() {
    let mut p = Price::new_perp(0, perp_meta("BTC", 5));
    assert_eq!(p.get_value(), 0);
    p.update_price(units(103_020, 32_323_000));
    // max_decimals 6, sz_decimals 5: needed places clamp to 0, cap is 1.
    assert_eq!(p.get_value(), units(103_020, 0));
    let again = p.from_new_price(units(103_020, 32_323_000));
    assert_eq!(again.get_value(), units(103_020, 0));
}

#[test]
fn constructors_round_and_keep_metadata() {
    let p = Price::new_perp(units(103_020, 32_323_000), perp_meta("BTC", 5));
    assert_eq!(p.get_value(), units(103_020, 0));
    assert_eq!(p.get_meta().get_name().as_str(), "BTC");
    assert!(p.get_meta().is_perp());
    let q = Price::from_meta(units(103_020, 32_323_000), &perp_meta("BTC", 5));
    assert_eq!(q.get_value(), units(103_020, 0));
}

#[test]
fn true_price_for_asset_uses_the_instrument_rule() {
    let p = Price::new_perp(units(100, 0), perp_meta("ETH", 2));
    assert_eq!(p.get_true_price_for_asset(units(123, 45_678_900)), units(123, 46_000_000));
}
