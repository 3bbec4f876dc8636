//! Exact decimal arithmetic for instrument prices and sizes.
//!
//! A price or size is held as an integer count of `10^-8` units, so every
//! value the exchange can quote (at most eight decimal places) is represented
//! exactly and the rounding rules below are ordinary integer arithmetic.

use vstd::prelude::*;

verus! {

/// Fractional decimal digits carried by every unit count.
pub const UNIT_DECIMALS: u16 = 8;

/// One whole unit expressed in `10^-8` steps.
pub const UNIT_SCALE: u64 = 100_000_000;

/// Largest unit count the library works with (`10^19`); rounding never
/// leaves `[0, MAX_UNITS]` and never overflows a `u64` on values below it.
pub const MAX_UNITS: u64 = 10_000_000_000_000_000_000;

/// Significant digits a rounded price keeps when the precision cap allows it.
pub const SIGNIFICANT_DIGITS: u16 = 5;

/// `10^e`.
pub open spec fn pow10(e: nat) -> nat
    decreases e,
{
    if e == 0 {
        1
    } else {
        10 * pow10((e - 1) as nat)
    }
}

/// `floor(log10(v))` for `v >= 1` (and 0 for `v == 0`).
pub open spec fn floor_log10(v: nat) -> nat
    decreases v,
{
    if v < 10 {
        0
    } else {
        1 + floor_log10(v / 10)
    }
}

pub proof fn lemma_pow10_pos(e: nat)
    ensures
        pow10(e) >= 1,
    decreases e,
{
    if e > 0 {
        lemma_pow10_pos((e - 1) as nat);
    }
}

pub proof fn lemma_pow10_mono(a: nat, b: nat)
    requires
        a <= b,
    ensures
        pow10(a) <= pow10(b),
    decreases b,
{
    if a < b {
        lemma_pow10_mono(a, (b - 1) as nat);
        lemma_pow10_pos((b - 1) as nat);
    }
}

pub proof fn lemma_pow10_strict_mono(a: nat, b: nat)
    requires
        a < b,
    ensures
        pow10(a) < pow10(b),
    decreases b,
{
    if a < b - 1 {
        lemma_pow10_strict_mono(a, (b - 1) as nat);
    } else {
        lemma_pow10_pos(a);
    }
}

pub proof fn lemma_pow10_adds(a: nat, b: nat)
    ensures
        pow10(a + b) == pow10(a) * pow10(b),
    decreases a,
{
    if a == 0 {
        assert(pow10(a + b) == pow10(b));
        assert(pow10(a) == 1);
        assert(pow10(a) * pow10(b) == pow10(b));
    } else {
        lemma_pow10_adds((a - 1) as nat, b);
        assert(pow10(a + b) == 10 * pow10((a - 1) as nat + b));
        assert(pow10(a + b) == 10 * (pow10((a - 1) as nat) * pow10(b)));
        assert(pow10(a) == 10 * pow10((a - 1) as nat));
        assert(pow10(a + b) == pow10(a) * pow10(b)) by (nonlinear_arith)
            requires
                pow10(a + b) == 10 * (pow10((a - 1) as nat) * pow10(b)),
                pow10(a) == 10 * pow10((a - 1) as nat),
        ;
    }
}

/// `10^19 == MAX_UNITS`, spelled out once so callers can relate the
/// constant to `pow10`.
pub proof fn lemma_pow10_19()
    ensures
        pow10(19) == MAX_UNITS,
        pow10(8) == UNIT_SCALE,
{
    reveal_with_fuel(pow10, 20);
}

/// The defining property of `floor_log10`.
pub proof fn lemma_floor_log10(v: nat)
    requires
        v >= 1,
    ensures
        pow10(floor_log10(v)) <= v,
        v < pow10(floor_log10(v) + 1),
    decreases v,
{
    if v < 10 {
        reveal_with_fuel(pow10, 2);
    } else {
        lemma_floor_log10(v / 10);
        let m = floor_log10(v / 10);
        assert(pow10(m) <= v / 10);
        assert(v / 10 < pow10(m + 1));
        assert(10 * (v / 10) <= v < 10 * (v / 10) + 10) by (nonlinear_arith);
        assert(10 * pow10(m) <= 10 * (v / 10)) by (nonlinear_arith)
            requires
                pow10(m) <= v / 10,
        ;
        assert(v < 10 * (v / 10 + 1) <= 10 * pow10(m + 1)) by (nonlinear_arith)
            requires
                v / 10 < pow10(m + 1) && 10 * (v / 10) + 10 > v,
        ;
    }
}

/// `floor_log10` is the unique exponent with that property.
pub proof fn lemma_floor_log10_unique(v: nat, e: nat)
    requires
        pow10(e) <= v,
        v < pow10(e + 1),
    ensures
        floor_log10(v) == e,
{
    lemma_pow10_pos(e);
    lemma_floor_log10(v);
    let m = floor_log10(v);
    if m < e {
        lemma_pow10_mono(m + 1, e);
        assert(v < pow10(m + 1));
    }
    if m > e {
        lemma_pow10_mono(e + 1, m);
        assert(pow10(m) <= v);
    }
}

/// Computes `10^e` for exponents up to 19.
pub fn pow10_u64(e: u16) -> (r: u64)
    requires
        e <= 19,
    ensures
        r == pow10(e as nat),
{
    let mut r: u64 = 1;
    let mut i: u16 = 0;
    while i < e
        invariant
            i <= e <= 19,
            r == pow10(i as nat),
        decreases e - i,
    {
        proof {
            lemma_pow10_19();
            lemma_pow10_mono(i as nat + 1, 19);
            assert(pow10(i as nat + 1) == 10 * pow10(i as nat));
        }
        r = r * 10;
        i = i + 1;
    }
    r
}

/// Computes `floor(log10(v))` for positive `v`.
pub fn floor_log10_u64(v: u64) -> (r: u16)
    requires
        v >= 1,
    ensures
        r == floor_log10(v as nat),
        r <= 19,
{
    proof {
        lemma_floor_log10_bound(v as nat);
    }
    let mut x: u64 = v;
    let mut r: u16 = 0;
    while x >= 10
        invariant
            x >= 1,
            floor_log10(v as nat) == r + floor_log10(x as nat),
            r <= floor_log10(v as nat),
            floor_log10(v as nat) <= 19,
        decreases x,
    {
        x = x / 10;
        r = r + 1;
    }
    r
}

/// Any `u64` value has at most 19 decimal digits.
pub proof fn lemma_floor_log10_bound(v: nat)
    requires
        v >= 1,
        v <= u64::MAX,
    ensures
        floor_log10(v) <= 19,
{
    lemma_floor_log10(v);
    lemma_pow10_19();
    if floor_log10(v) > 19 {
        lemma_pow10_mono(20, floor_log10(v));
        assert(pow10(20) == 10 * pow10(19));
    }
}

/// `v` rounded to the nearest multiple of `g`, ties away from zero.
pub open spec fn round_half_up(v: int, g: int) -> int
    recommends
        v >= 0,
        g >= 1,
{
    ((v + g / 2) / g) * g
}

/// Everything the rounding rule promises: the result is the nearest
/// multiple of `g` (ties upward), and multiples of `g` are untouched.
pub proof fn lemma_round_half_up(v: int, g: int)
    requires
        v >= 0,
        g >= 1,
    ensures
        round_half_up(v, g) % g == 0,
        2 * round_half_up(v, g) <= 2 * v + g,
        2 * v < 2 * round_half_up(v, g) + g,
        round_half_up(v, g) >= 0,
        v % g == 0 ==> round_half_up(v, g) == v,
{
    let s = v + g / 2;
    let q = s / g;
    let rem = s % g;
    vstd::arithmetic::div_mod::lemma_fundamental_div_mod(s, g);
    vstd::arithmetic::div_mod::lemma_mod_division_less_than_divisor(s, g);
    assert(round_half_up(v, g) == q * g);
    vstd::arithmetic::div_mod::lemma_mod_multiples_basic(q, g);
    assert((q * g) % g == 0);
    assert(g * q == q * g) by (nonlinear_arith);
    assert(q * g == s - rem);
    assert(2 * (g / 2) <= g);
    assert(g - 1 <= 2 * (g / 2));
    if v % g == 0 {
        let m = v / g;
        vstd::arithmetic::div_mod::lemma_fundamental_div_mod(v, g);
        assert(v == g * m);
        assert(g * m + g / 2 == m * g + g / 2) by (nonlinear_arith);
        vstd::arithmetic::div_mod::lemma_fundamental_div_mod_converse(s, g, m, g / 2);
        assert(q == m);
        assert(q * g == g * m) by (nonlinear_arith)
            requires
                q == m,
        ;
    }
}

/// Two multiples of `g` less than `g` apart are ordered.
pub proof fn lemma_multiple_below(r: int, p: int, g: int)
    requires
        g >= 1,
        r >= 0,
        p >= 0,
        r % g == 0,
        p % g == 0,
        r < p + g,
    ensures
        r <= p,
{
    if r > p {
        // r and p are distinct multiples of g, so r >= p + g.
        let qr = r / g;
        let qp = p / g;
        vstd::arithmetic::div_mod::lemma_fundamental_div_mod(r, g);
        vstd::arithmetic::div_mod::lemma_fundamental_div_mod(p, g);
        assert(r == g * qr);
        assert(p == g * qp);
        assert(qr > qp) by (nonlinear_arith)
            requires
                g * qr > g * qp && g >= 1,
        ;
        assert(g * qr >= g * (qp + 1)) by (nonlinear_arith)
            requires
                qr >= qp + 1 && g >= 1,
        ;
        assert(g * (qp + 1) == g * qp + g) by (nonlinear_arith);
        assert(r >= p + g);
    }
}

/// Rounding cannot escape `[0, bound]` when `bound` is itself a
/// multiple of `g`.
pub proof fn lemma_round_half_up_bounded(v: int, g: int, bound: int)
    requires
        0 <= v <= bound,
        g >= 1,
        bound % g == 0,
    ensures
        round_half_up(v, g) <= bound,
{
    lemma_round_half_up(v, g);
    let r = round_half_up(v, g);
    assert(2 * r <= 2 * v + g);
    lemma_multiple_below(r, bound, g);
}

/// `pow10(b)` divides `pow10(a)` whenever `b <= a`.
pub proof fn lemma_pow10_divides(b: nat, a: nat)
    requires
        b <= a,
    ensures
        pow10(a) as int % pow10(b) as int == 0,
{
    lemma_pow10_adds((a - b) as nat, b);
    lemma_pow10_pos(b);
    vstd::arithmetic::div_mod::lemma_mod_multiples_basic(
        pow10((a - b) as nat) as int,
        pow10(b) as int,
    );
}

/// Decimal places kept when rounding a unit count `v` carrying `scale`
/// fractional digits: enough for `SIGNIFICANT_DIGITS` significant digits,
/// never negative, and never beyond the instrument's own precision cap of
/// `max_decimals - sz_decimals` places.
pub open spec fn spec_places(v: nat, scale: int, max_decimals: int, sz_decimals: int) -> int
    recommends
        v >= 1,
        0 <= sz_decimals <= max_decimals,
{
    let needed0 = SIGNIFICANT_DIGITS - 1 - (floor_log10(v) - scale);
    let needed = if needed0 >= 0 {
        needed0
    } else {
        0
    };
    let cap = max_decimals - sz_decimals;
    if needed <= cap {
        needed
    } else {
        cap
    }
}

/// The rounding rule for prices: a zero unit count is the "no price yet"
/// sentinel and passes through untouched; any other count is rounded to
/// `spec_places` decimal places, ties upward.
pub open spec fn spec_round_price_at(
    v: nat,
    scale: int,
    max_decimals: int,
    sz_decimals: int,
) -> int
    recommends
        0 <= sz_decimals <= max_decimals <= scale,
{
    if v == 0 {
        0
    } else {
        round_half_up(
            v as int,
            pow10((scale - spec_places(v, scale, max_decimals, sz_decimals)) as nat) as int,
        )
    }
}

/// `spec_round_price_at` at the scale every stored value uses.
pub open spec fn spec_round_price(v: nat, max_decimals: int, sz_decimals: int) -> int {
    spec_round_price_at(v, UNIT_DECIMALS as int, max_decimals, sz_decimals)
}

/// Rounds a price of `v` units to the instrument's precision: at most
/// `SIGNIFICANT_DIGITS` digits of precision, capped at
/// `max_decimals - sz_decimals` decimal places; `0` passes through.
pub fn round_price(v: u64, max_decimals: u16, sz_decimals: u16) -> (r: u64)
    requires
        sz_decimals <= max_decimals <= UNIT_DECIMALS,
        v <= MAX_UNITS,
    ensures
        r == spec_round_price(v as nat, max_decimals as int, sz_decimals as int),
        r <= MAX_UNITS,
{
    if v == 0 {
        return 0;
    }
    let mag = floor_log10_u64(v);
    let needed_signed: i32 = SIGNIFICANT_DIGITS as i32 - 1 + UNIT_DECIMALS as i32 - mag as i32;
    let needed: u16 = if needed_signed < 0 {
        0
    } else {
        needed_signed as u16
    };
    let cap: u16 = max_decimals - sz_decimals;
    let places: u16 = if needed <= cap {
        needed
    } else {
        cap
    };
    let g = pow10_u64(UNIT_DECIMALS - places);
    proof {
        lemma_pow10_pos((UNIT_DECIMALS - places) as nat);
        lemma_pow10_mono((UNIT_DECIMALS - places) as nat, UNIT_DECIMALS as nat);
        lemma_pow10_19();
        lemma_round_half_up(v as int, g as int);
        assert(places == spec_places(
            v as nat,
            UNIT_DECIMALS as int,
            max_decimals as int,
            sz_decimals as int,
        ));
        lemma_pow10_divides((UNIT_DECIMALS - places) as nat, 19);
        lemma_round_half_up_bounded(v as int, g as int, MAX_UNITS as int);
    }
    let s = v + g / 2;
    let r = (s / g) * g;
    r
}

/// A value below `10^e` has fewer than `e` digits.
pub proof fn lemma_floor_log10_lt(v: nat, e: nat)
    requires
        1 <= v,
        v < pow10(e),
    ensures
        floor_log10(v) < e,
{
    lemma_floor_log10(v);
    if floor_log10(v) >= e {
        lemma_pow10_mono(e, floor_log10(v));
    }
}

/// Computes `10^e` for exponents up to 27.
pub fn pow10_u128(e: u16) -> (r: u128)
    requires
        e <= 27,
    ensures
        r == pow10(e as nat),
{
    let mut r: u128 = 1;
    let mut i: u16 = 0;
    while i < e
        invariant
            i <= e <= 27,
            r == pow10(i as nat),
        decreases e - i,
    {
        proof {
            lemma_pow10_19();
            lemma_pow10_adds(8, 19);
            lemma_pow10_mono(i as nat + 1, 27);
            assert(pow10(i as nat + 1) == 10 * pow10(i as nat));
        }
        r = r * 10;
        i = i + 1;
    }
    r
}

/// Computes `floor(log10(v))` for positive `v` up to `10^27`.
pub fn floor_log10_u128(v: u128) -> (r: u16)
    requires
        1 <= v,
        v as nat <= pow10(27),
    ensures
        r == floor_log10(v as nat),
        r <= 27,
{
    proof {
        lemma_pow10_strict_mono(27, 28);
        lemma_floor_log10_lt(v as nat, 28);
    }
    let mut x: u128 = v;
    let mut r: u16 = 0;
    while x >= 10
        invariant
            x >= 1,
            floor_log10(v as nat) == r + floor_log10(x as nat),
            r <= floor_log10(v as nat),
            floor_log10(v as nat) <= 27,
        decreases x,
    {
        x = x / 10;
        r = r + 1;
    }
    r
}

/// Rounds a product of two unit counts — a value carrying
/// `2 * UNIT_DECIMALS` fractional digits — by the same price rule, and
/// returns the result as an ordinary `10^-8` unit count. Rounding a
/// positive value at this scale always keeps at least eight fractional
/// digits of granularity, so the division back to units is exact.
pub fn round_price_product(v: u128, max_decimals: u16, sz_decimals: u16) -> (r: u64)
    requires
        sz_decimals <= max_decimals <= UNIT_DECIMALS,
        v as int <= MAX_UNITS as int * UNIT_SCALE as int,
    ensures
        r as int * UNIT_SCALE as int == spec_round_price_at(
            v as nat,
            2 * UNIT_DECIMALS as int,
            max_decimals as int,
            sz_decimals as int,
        ),
        r <= MAX_UNITS,
{
    proof {
        lemma_pow10_19();
        lemma_pow10_adds(19, 8);
    }
    if v == 0 {
        return 0;
    }
    let mag = floor_log10_u128(v);
    let needed_signed: i32 = SIGNIFICANT_DIGITS as i32 - 1 + 2 * UNIT_DECIMALS as i32
        - mag as i32;
    let needed: u16 = if needed_signed < 0 {
        0
    } else {
        needed_signed as u16
    };
    let cap: u16 = max_decimals - sz_decimals;
    let places: u16 = if needed <= cap {
        needed
    } else {
        cap
    };
    let g = pow10_u128(2 * UNIT_DECIMALS - places);
    proof {
        lemma_pow10_pos((2 * UNIT_DECIMALS - places) as nat);
        lemma_pow10_mono((2 * UNIT_DECIMALS - places) as nat, 16);
        lemma_pow10_adds(8, 8);
        lemma_round_half_up(v as int, g as int);
        assert(places == spec_places(
            v as nat,
            2 * UNIT_DECIMALS as int,
            max_decimals as int,
            sz_decimals as int,
        ));
        lemma_pow10_divides((2 * UNIT_DECIMALS - places) as nat, 27);
        lemma_round_half_up_bounded(v as int, g as int, MAX_UNITS as int * UNIT_SCALE as int);
    }
    let s = v + g / 2;
    let q = s / g;
    let r16 = q * g;
    // The granularity g == 10^(16 - places) with places <= 8 is a
    // multiple of UNIT_SCALE, so r16 is too.
    let g_over_scale = pow10_u128(UNIT_DECIMALS - places);
    proof {
        lemma_pow10_adds((UNIT_DECIMALS - places) as nat, 8);
        assert(g as int == g_over_scale as int * UNIT_SCALE as int);
        assert(q as int * g as int == (q as int * g_over_scale as int) * (UNIT_SCALE as int))
            by (nonlinear_arith)
            requires
                g as int == g_over_scale as int * UNIT_SCALE as int,
        ;
        vstd::arithmetic::div_mod::lemma_div_by_multiple(
            q as int * g_over_scale as int,
            UNIT_SCALE as int,
        );
        assert(q as int * g_over_scale as int <= MAX_UNITS as int) by (nonlinear_arith)
            requires
                (q as int * g_over_scale as int) * (UNIT_SCALE as int) <= MAX_UNITS as int
                    * UNIT_SCALE as int && UNIT_SCALE as int >= 1 && q as int * g_over_scale as int
                    >= 0,
        ;
        assert(q as int * g_over_scale as int >= 0) by (nonlinear_arith)
            requires
                q as int >= 0 && g_over_scale as int >= 0,
        ;
    }
    (r16 / UNIT_SCALE as u128) as u64
}

/// The rational `a / b` rounded to the nearest multiple of `g`, ties
/// upward: `floor((a/b + g/2) / g) * g`, written over integers.
pub open spec fn div_round_half_up(a: int, b: int, g: int) -> int
    recommends
        a >= 0,
        b >= 1,
        g >= 1,
{
    ((2 * a + b * g) / (2 * b * g)) * g
}

/// Divides a quote-denominated unit count by a price and rounds the
/// resulting asset quantity to `sz_decimals` decimal places (ties up).
/// The bound `size * UNIT_SCALE <= value * MAX_UNITS` says the quotient
/// fits in the representable range; callers must also keep the price
/// positive, as a quotient by the zero sentinel is undefined.
pub fn div_units_to_size(size: u64, value: u64, sz_decimals: u16) -> (r: u64)
    requires
        1 <= value,
        sz_decimals <= UNIT_DECIMALS,
        size <= MAX_UNITS,
        value <= MAX_UNITS,
        size as int * UNIT_SCALE as int <= value as int * MAX_UNITS as int,
    ensures
        r as int == div_round_half_up(
            size as int * UNIT_SCALE as int,
            value as int,
            pow10((UNIT_DECIMALS - sz_decimals) as nat) as int,
        ),
        r <= MAX_UNITS,
{
    let g = pow10_u64(UNIT_DECIMALS - sz_decimals);
    proof {
        lemma_pow10_pos((UNIT_DECIMALS - sz_decimals) as nat);
        lemma_pow10_mono((UNIT_DECIMALS - sz_decimals) as nat, 8);
        lemma_pow10_19();
        assert(2 * (size as int) * (UNIT_SCALE as int) <= 2 * (MAX_UNITS as int) * (
        UNIT_SCALE as int)) by (nonlinear_arith)
            requires
                0 <= size as int <= MAX_UNITS as int,
        ;
        assert((value as int) * (g as int) <= (MAX_UNITS as int) * (UNIT_SCALE as int))
            by (nonlinear_arith)
            requires
                0 <= value as int <= MAX_UNITS as int && 0 <= g as int <= UNIT_SCALE as int,
        ;
        assert((value as int) * (g as int) >= 1) by (nonlinear_arith)
            requires
                value as int >= 1 && g as int >= 1,
        ;
        assert(2 * (value as int) * (g as int) <= 2 * (MAX_UNITS as int) * (UNIT_SCALE as int)
            && 2 * (value as int) * (g as int) >= 2) by (nonlinear_arith)
            requires
                1 <= value as int <= MAX_UNITS as int && 1 <= g as int <= UNIT_SCALE as int,
        ;
    }
    let num: u128 = 2 * (size as u128) * (UNIT_SCALE as u128) + (value as u128) * (g as u128);
    let den: u128 = 2 * (value as u128) * (g as u128);
    let q: u128 = num / den;
    proof {
        let a = size as int * UNIT_SCALE as int;
        let b = value as int;
        let gi = g as int;
        let m = MAX_UNITS as int / gi;
        lemma_pow10_divides((UNIT_DECIMALS - sz_decimals) as nat, 19);
        vstd::arithmetic::div_mod::lemma_fundamental_div_mod(MAX_UNITS as int, gi);
        assert(MAX_UNITS as int == gi * m);
        // num <= b * (2 * MAX_UNITS + g), so q <= (2*MAX_UNITS + g) / (2g) == m.
        assert(2 * a + b * gi <= b * (2 * MAX_UNITS as int + gi)) by (nonlinear_arith)
            requires
                a <= b * MAX_UNITS as int,
        ;
        vstd::arithmetic::div_mod::lemma_div_is_ordered(
            2 * a + b * gi,
            b * (2 * MAX_UNITS as int + gi),
            2 * b * gi,
        );
        assert(b * (2 * MAX_UNITS as int + gi) == (2 * MAX_UNITS as int + gi) * b)
            by (nonlinear_arith);
        assert(2 * b * gi == (2 * gi) * b) by (nonlinear_arith);
        vstd::arithmetic::div_mod::lemma_div_multiples_vanish_quotient(
            b,
            2 * MAX_UNITS as int + gi,
            2 * gi,
        );
        assert(2 * MAX_UNITS as int + gi == gi * (2 * m + 1)) by (nonlinear_arith)
            requires
                MAX_UNITS as int == gi * m,
        ;
        assert(gi * (2 * m + 1) == (2 * m + 1) * gi) by (nonlinear_arith);
        assert(2 * gi == 2 * gi);
        vstd::arithmetic::div_mod::lemma_div_multiples_vanish_quotient(gi, 2 * m + 1, 2);
        assert((2 * m + 1) / 2 == m);
        assert(q <= m);
        assert(q as int * gi <= m * gi) by (nonlinear_arith)
            requires
                q as int <= m && gi >= 1,
        ;
        assert(m * gi == gi * m) by (nonlinear_arith);
    }
    (q * (g as u128)) as u64
}

/// `floor_log10` of a power of ten is its exponent.
pub proof fn lemma_floor_log10_pow10(k: nat)
    ensures
        floor_log10(pow10(k)) == k,
{
    lemma_pow10_pos(k);
    lemma_pow10_strict_mono(k, k + 1);
    lemma_floor_log10_unique(pow10(k), k);
}

/// Law: the sentinel unit count `0` ("no price known") is returned
/// unchanged by the rounding rule, whatever the precision arguments.
pub proof fn lemma_round_price_zero(max_decimals: int, sz_decimals: int)
    ensures
        spec_round_price(0, max_decimals, sz_decimals) == 0,
{
}

/// Law: a rounded positive price is a multiple of `10^(UNIT_DECIMALS - d)`
/// where `d` is the retained decimal-place count, so it carries at most
/// `max_decimals - sz_decimals` decimal places; and whenever the
/// significant-digit target (rather than the precision cap or the zero
/// clamp) decides `d`, the result also fits in `SIGNIFICANT_DIGITS`
/// digits of precision: `r <= 10^SIGNIFICANT_DIGITS * 10^(UNIT_DECIMALS - d)`.
pub proof fn lemma_round_price_precision(v: nat, max_decimals: int, sz_decimals: int)
    requires
        1 <= v <= MAX_UNITS,
        0 <= sz_decimals <= max_decimals <= UNIT_DECIMALS,
    ensures
        ({
            let d = spec_places(v, UNIT_DECIMALS as int, max_decimals, sz_decimals);
            let g = pow10((UNIT_DECIMALS - d) as nat) as int;
            let r = spec_round_price(v, max_decimals, sz_decimals);
            &&& 0 <= d <= max_decimals - sz_decimals
            &&& r % g == 0
            &&& d == SIGNIFICANT_DIGITS - 1 - (floor_log10(v) - UNIT_DECIMALS) ==> r <= pow10(
                SIGNIFICANT_DIGITS as nat,
            ) * g
        }),
{
    let l = floor_log10(v);
    let d = spec_places(v, UNIT_DECIMALS as int, max_decimals, sz_decimals);
    let g = pow10((UNIT_DECIMALS - d) as nat) as int;
    let r = spec_round_price(v, max_decimals, sz_decimals);
    lemma_pow10_pos((UNIT_DECIMALS - d) as nat);
    lemma_round_half_up(v as int, g);
    if d == SIGNIFICANT_DIGITS - 1 - (l - UNIT_DECIMALS) {
        // Here UNIT_DECIMALS - d == l + 1 - SIGNIFICANT_DIGITS, so
        // 10^(l+1) is a multiple of g and r cannot pass it.
        lemma_floor_log10(v);
        lemma_floor_log10_bound(v);
        assert(UNIT_DECIMALS - d == l + 1 - SIGNIFICANT_DIGITS);
        lemma_pow10_divides((UNIT_DECIMALS - d) as nat, (l + 1) as nat);
        assert(2 * r <= 2 * v + g);
        assert(v < pow10((l + 1) as nat));
        lemma_multiple_below(r, pow10((l + 1) as nat) as int, g);
        lemma_pow10_adds(SIGNIFICANT_DIGITS as nat, (UNIT_DECIMALS - d) as nat);
        assert(pow10((l + 1) as nat) == pow10(SIGNIFICANT_DIGITS as nat) * g);
    }
}

/// Law: rounding is idempotent — feeding a rounded price back through
/// the same rounding rule returns it unchanged.
pub proof fn lemma_round_price_idempotent(v: nat, max_decimals: int, sz_decimals: int)
    requires
        v <= MAX_UNITS,
        0 <= sz_decimals <= max_decimals <= UNIT_DECIMALS,
    ensures
        ({
            let r = spec_round_price(v, max_decimals, sz_decimals);
            spec_round_price(r as nat, max_decimals, sz_decimals) == r
        }),
{
    if v == 0 {
        // The sentinel is its own fixed point.
    } else {
    let scale = UNIT_DECIMALS as int;
    let l = floor_log10(v);
    let d = spec_places(v, scale, max_decimals, sz_decimals);
    let g = pow10((scale - d) as nat) as int;
    let r = spec_round_price(v, max_decimals, sz_decimals);
    lemma_pow10_pos((scale - d) as nat);
    lemma_floor_log10(v);
    lemma_floor_log10_bound(v);
    lemma_round_half_up(v as int, g);
    if r == 0 {
        // Rounded away to the sentinel, which is a fixed point.
    } else {
    // The decimal places chosen for r never exceed those chosen for v by
    // more than the magnitude allows, so g' (the granularity for r) still
    // divides r; a multiple of its own granularity is a fixed point.
    let l2 = floor_log10(r as nat);
    let d2 = spec_places(r as nat, scale, max_decimals, sz_decimals);
    let g2 = pow10((scale - d2) as nat) as int;
    lemma_pow10_pos((scale - d2) as nat);
    if scale - d <= l {
        // The granularity is no bigger than v's own magnitude: r stays
        // within [10^l, 10^(l+1)].
        lemma_pow10_divides((scale - d) as nat, l);
        lemma_pow10_divides((scale - d) as nat, (l + 1) as nat);
        assert(2 * v < 2 * r + g);
        assert((pow10(l) as int) < r + g);
        lemma_multiple_below(pow10(l) as int, r, g);
        assert(2 * r <= 2 * v + g);
        assert(r < (pow10((l + 1) as nat) as int) + g);
        lemma_multiple_below(r, pow10((l + 1) as nat) as int, g);
        if r < pow10((l + 1) as nat) {
            lemma_floor_log10_unique(r as nat, l);
            assert(l2 == l);
            assert(d2 == d);
            lemma_round_half_up(r, g);
        } else {
            assert(r == pow10((l + 1) as nat));
            lemma_floor_log10_pow10((l + 1) as nat);
            assert(l2 == l + 1);
            // One more integer digit shifts the significant-digit target
            // down by one place, and the cap is unchanged: d2 >= d - 1,
            // and 10^(l+1) is a multiple of every 10^k with k <= l + 1.
            assert(d2 >= 0);
            assert(scale - d2 <= l + 1);
            lemma_pow10_divides((scale - d2) as nat, (l + 1) as nat);
            lemma_round_half_up(r, g2);
        }
    } else {
        // The granularity exceeds v's magnitude: the only positive
        // multiple within reach is g itself.
        assert(v < pow10((l + 1) as nat));
        lemma_pow10_mono((l + 1) as nat, (scale - d) as nat);
        assert(v < g);
        assert(2 * r <= 2 * v + g);
        assert(r < 2 * g);
        vstd::arithmetic::div_mod::lemma_fundamental_div_mod(r, g);
        vstd::arithmetic::div_mod::lemma_mod_division_less_than_divisor(r, g);
        let q = r / g;
        assert(r == g * q);
        assert(0 < g * q < 2 * g);
        assert(q == 1) by (nonlinear_arith)
            requires
                0 < g * q < 2 * g && g >= 1,
        ;
        assert(r == g) by (nonlinear_arith)
            requires
                r == g * q && q == 1,
        ;
        lemma_floor_log10_pow10((scale - d) as nat);
        assert(l2 == scale - d);
        // At r's larger magnitude the chosen places d2 sit between d and
        // the cap, so the granularity for r divides r == 10^(scale - d).
        assert(d2 >= d);
        assert(scale - d2 <= l2);
        lemma_pow10_divides((scale - d2) as nat, l2);
        lemma_round_half_up(r, g2);
    }
    }
    }
}

} // verus!
