//! The numeral parser and formatter on concrete strings: valid shapes,
//! every rejection class, and formatting round trips.

use hyperliquid_rust_sdk_utils::numeral::{parse_units, units_to_string};

#[test]
fn parses_plain_decimals() {
    assert_eq!(parse_units("103020.32323"), Some(10_302_032_323_000));
    assert_eq!(parse_units("0"), Some(0));
    assert_eq!(parse_units("0.00000001"), Some(1));
    assert_eq!(parse_units("5"), Some(500_000_000));
    assert_eq!(parse_units("3230.2"), Some(323_020_000_000));
    assert_eq!(parse_units("00.5"), Some(50_000_000));
}

#[test]
fn rejects_everything_that_is_not_a_plain_decimal() {
    assert_eq!(parse_units(""), None);
    assert_eq!(parse_units("abc"), None);
    assert_eq!(parse_units("1.2.3"), None);
    assert_eq!(parse_units("1e5"), None);
    assert_eq!(parse_units("-1"), None);
    assert_eq!(parse_units("+1"), None);
    assert_eq!(parse_units(".5"), None);
    assert_eq!(parse_units("5."), None);
    assert_eq!(parse_units("1 "), None);
    assert_eq!(parse_units("1.123456789"), None); // nine fraction digits
    assert_eq!(parse_units("NaN"), None);
}

#[test]
fn rejects_values_beyond_the_representable_range() {
    // MAX_UNITS is 10^19 units, i.e. 10^11 whole units.
    assert_eq!(parse_units("100000000000"), Some(10_000_000_000_000_000_000));
    assert_eq!(parse_units("100000000000.00000001"), None);
    assert_eq!(parse_units("99999999999999999999999"), None);
}

#[test]
fn formats_unit_counts_as_decimals() {
    assert_eq!(units_to_string(10_302_032_323_000).as_str(), "103020.32323");
    assert_eq!(units_to_string(0).as_str(), "0.0");
    assert_eq!(units_to_string(10_100_000_000).as_str(), "101.0");
    assert_eq!(units_to_string(1).as_str(), "0.00000001");
    assert_eq!(units_to_string(50_000_000).as_str(), "0.5");
}

#[test]
fn formatting_then_parsing_returns_the_value() {
    for v in [0u64, 1, 42, 50_000_000, 323_020_000_000, 10_302_032_323_000] {
        let s = units_to_string(v);
        assert_eq!(parse_units(s.as_str()), Some(v));
    }
}
