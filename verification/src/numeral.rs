//! Parsing of the exchange's string-encoded decimal numbers into unit
//! counts, and formatting of unit counts back into decimal numerals.
//!
//! A valid price literal is a plain decimal numeral: one or more digits,
//! optionally followed by `.` and one to eight fraction digits, whose value
//! fits in [`crate::decimal::MAX_UNITS`] units of `10^-8`.

use vstd::prelude::*;

use crate::decimal::{pow10, pow10_u64, MAX_UNITS, UNIT_DECIMALS, UNIT_SCALE};

verus! {

pub open spec fn is_digit(c: char) -> bool {
    '0' <= c <= '9'
}

pub open spec fn digit_value(c: char) -> int {
    c as int - '0' as int
}

pub open spec fn all_digits(s: Seq<char>) -> bool {
    forall|i: int| 0 <= i < s.len() ==> is_digit(#[trigger] s[i])
}

/// Numeric value of a digit string, most significant digit first.
pub open spec fn digits_value(s: Seq<char>) -> int
    decreases s.len(),
{
    if s.len() == 0 {
        0
    } else {
        digits_value(s.drop_last()) * 10 + digit_value(s.last())
    }
}

/// The unit count encoded by integer digits `ip` and fraction digits `fp`.
pub open spec fn parts_units(ip: Seq<char>, fp: Seq<char>) -> int {
    digits_value(ip) * UNIT_SCALE + digits_value(fp) * pow10(
        (UNIT_DECIMALS - fp.len()) as nat,
    )
}

/// Shape of a decimal numeral: digits, then optionally a dot and one to
/// eight fraction digits, split at position `k` (`k == s.len()` means no
/// fraction part).
pub open spec fn splits_at(s: Seq<char>, k: int) -> bool {
    &&& 1 <= k <= s.len()
    &&& all_digits(s.subrange(0, k))
    &&& (k < s.len() ==> {
        &&& s[k] == '.'
        &&& k + 1 < s.len()
        &&& s.len() - (k + 1) <= UNIT_DECIMALS
        &&& all_digits(s.subrange(k + 1, s.len() as int))
    })
}

/// Unit count of a numeral split at `k`.
pub open spec fn units_at(s: Seq<char>, k: int) -> int {
    if k == s.len() {
        digits_value(s) * UNIT_SCALE
    } else {
        parts_units(s.subrange(0, k), s.subrange(k + 1, s.len() as int))
    }
}

/// A string is a price literal when it has the numeral shape and its
/// value fits in `MAX_UNITS` units.
pub open spec fn is_price_literal(s: Seq<char>) -> bool {
    exists|k: int| #[trigger] splits_at(s, k) && units_at(s, k) <= MAX_UNITS
}

/// The unit count a price literal denotes.
pub open spec fn literal_units(s: Seq<char>) -> int {
    units_at(s, choose|k: int| #[trigger] splits_at(s, k) && units_at(s, k) <= MAX_UNITS)
}

pub proof fn lemma_digits_value_nonneg(s: Seq<char>)
    requires
        all_digits(s),
    ensures
        digits_value(s) >= 0,
    decreases s.len(),
{
    if s.len() > 0 {
        assert(all_digits(s.drop_last()));
        lemma_digits_value_nonneg(s.drop_last());
    }
}

/// Extending a digit string multiplies its value by a power of ten and
/// adds the new digits, so the value never shrinks.
pub proof fn lemma_digits_value_prefix(s: Seq<char>, j: int)
    requires
        all_digits(s),
        0 <= j <= s.len(),
    ensures
        digits_value(s.subrange(0, j)) <= digits_value(s),
    decreases s.len() - j,
{
    if j < s.len() {
        lemma_digits_value_prefix(s, j + 1);
        let p = s.subrange(0, j + 1);
        assert(p.drop_last() =~= s.subrange(0, j));
        assert(all_digits(p.drop_last()));
        lemma_digits_value_nonneg(p.drop_last());
        assert(digits_value(p) == digits_value(s.subrange(0, j)) * 10 + digit_value(p.last()));
        assert(digits_value(s.subrange(0, j)) * 10 >= digits_value(s.subrange(0, j)))
            by (nonlinear_arith)
            requires
                digits_value(s.subrange(0, j)) >= 0,
        ;
    } else {
        assert(s.subrange(0, j) =~= s);
    }
}

/// The digit split of a numeral is unique: any two split positions agree.
pub proof fn lemma_splits_unique(s: Seq<char>, k1: int, k2: int)
    requires
        splits_at(s, k1),
        splits_at(s, k2),
    ensures
        k1 == k2,
{
    if k1 < k2 {
        assert(is_digit(s.subrange(0, k2)[k1]));
        assert(s.subrange(0, k2)[k1] == s[k1]);
        assert(s[k1] == '.');
    }
    if k2 < k1 {
        assert(is_digit(s.subrange(0, k1)[k2]));
        assert(s.subrange(0, k1)[k2] == s[k2]);
        assert(s[k2] == '.');
    }
}

/// A numeral's unit count is at least the value of either digit group.
proof fn lemma_units_lower_bound(s: Seq<char>, k: int)
    requires
        splits_at(s, k),
    ensures
        units_at(s, k) >= digits_value(s.subrange(0, k)),
        k < s.len() ==> units_at(s, k) >= digits_value(s.subrange(k + 1, s.len() as int)),
{
    let ip = s.subrange(0, k);
    lemma_digits_value_nonneg(ip);
    assert(digits_value(ip) * UNIT_SCALE >= digits_value(ip)) by (nonlinear_arith)
        requires
            digits_value(ip) >= 0,
    ;
    if k < s.len() {
        let fp = s.subrange(k + 1, s.len() as int);
        lemma_digits_value_nonneg(fp);
        crate::decimal::lemma_pow10_pos((UNIT_DECIMALS - fp.len()) as nat);
        assert(digits_value(fp) * (pow10((UNIT_DECIMALS - fp.len()) as nat) as int)
            >= digits_value(fp)) by (nonlinear_arith)
            requires
                digits_value(fp) >= 0 && pow10((UNIT_DECIMALS - fp.len()) as nat) >= 1,
        ;
    } else {
        assert(ip =~= s);
    }
}

/// Parses the digit range `[a, b)` of `s`; fails on a non-digit or when
/// the value grows past `MAX_UNITS`.
fn parse_digit_range(s: &str, a: usize, b: usize) -> (r: Option<u64>)
    requires
        a <= b <= s@.len(),
    ensures
        match r {
            Some(v) => {
                &&& all_digits(s@.subrange(a as int, b as int))
                &&& v == digits_value(s@.subrange(a as int, b as int))
                &&& v <= MAX_UNITS
            },
            None => !(all_digits(s@.subrange(a as int, b as int)) && digits_value(
                s@.subrange(a as int, b as int),
            ) <= MAX_UNITS),
        },
{
    let mut acc: u64 = 0;
    let mut i: usize = a;
    while i < b
        invariant
            a <= i <= b <= s@.len(),
            all_digits(s@.subrange(a as int, i as int)),
            acc == digits_value(s@.subrange(a as int, i as int)),
            acc <= MAX_UNITS,
        decreases b - i,
    {
        let c = s.get_char(i);
        if c < '0' || c > '9' {
            proof {
                assert(s@.subrange(a as int, b as int)[i - a] == s@[i as int]);
            }
            return None;
        }
        let d: u64 = (c as u32 - '0' as u32) as u64;
        proof {
            let p = s@.subrange(a as int, i + 1 as int);
            assert(p.drop_last() =~= s@.subrange(a as int, i as int));
            assert(p.last() == s@[i as int]);
        }
        let wide: u128 = acc as u128 * 10 + d as u128;
        if wide > MAX_UNITS as u128 {
            proof {
                let full = s@.subrange(a as int, b as int);
                let upto = s@.subrange(a as int, i + 1 as int);
                if all_digits(full) {
                    assert(upto =~= full.subrange(0, i + 1 - a));
                    lemma_digits_value_prefix(full, i + 1 - a);
                }
            }
            return None;
        }
        acc = wide as u64;
        i = i + 1;
    }
    proof {
        assert(s@.subrange(a as int, i as int) =~= s@.subrange(a as int, b as int));
    }
    Some(acc)
}

/// Position of the first `.` in `s`, or `s@.len()` when there is none.
fn find_dot(s: &str) -> (r: usize)
    ensures
        r <= s@.len(),
        r < s@.len() ==> s@[r as int] == '.',
        forall|j: int| 0 <= j < r ==> s@[j] != '.',
{
    let n = s.unicode_len();
    let mut i: usize = 0;
    while i < n
        invariant
            i <= n == s@.len(),
            forall|j: int| 0 <= j < i ==> s@[j] != '.',
        decreases n - i,
    {
        if s.get_char(i) == '.' {
            return i;
        }
        i = i + 1;
    }
    i
}

/// Parses a decimal numeral into a count of `10^-8` units.
///
/// Returns `Some` exactly on strings of the price-literal shape whose
/// value fits in `MAX_UNITS`; everything else (empty strings, signs,
/// exponents, stray characters, over-long fractions, oversized values)
/// yields `None`.
pub fn parse_units(s: &str) -> (r: Option<u64>)
    ensures
        match r {
            Some(v) => is_price_literal(s@) && v == literal_units(s@) && v <= MAX_UNITS,
            None => !is_price_literal(s@),
        },
{
    let n = s.unicode_len();
    let dot = find_dot(s);
    proof {
        // Any witness split must sit exactly at the first dot.
        if is_price_literal(s@) {
            let k = choose|k: int|
                #[trigger] splits_at(s@, k) && units_at(s@, k) <= MAX_UNITS;
            if k < s@.len() {
                assert(s@[k] == '.');
                assert(dot <= k);
                if (dot as int) < k {
                    assert(is_digit(s@.subrange(0, k)[dot as int]));
                }
                assert(k == dot as int);
            } else {
                assert(forall|j: int| 0 <= j < s@.len() ==> is_digit(
                    #[trigger] s@.subrange(0, k)[j],
                ) && s@.subrange(0, k)[j] == s@[j]);
                assert(dot == s@.len());
            }
        }
    }
    if dot == 0 {
        // Empty integer part: not a numeral.
        proof {
            if is_price_literal(s@) {
                let k = choose|k: int|
                    #[trigger] splits_at(s@, k) && units_at(s@, k) <= MAX_UNITS;
                assert(k >= 1);
            }
        }
        return None;
    }
    let int_part = match parse_digit_range(s, 0, dot) {
        Some(v) => v,
        None => {
            proof {
                if splits_at(s@, dot as int) {
                    lemma_units_lower_bound(s@, dot as int);
                }
                lemma_reject_at_dot(s@, dot as int);
            }
            return None;
        },
    };
    if dot == n {
        // No fraction part.
        proof {
            assert((int_part as int) * (UNIT_SCALE as int) <= (MAX_UNITS as int) * (
            UNIT_SCALE as int)) by (nonlinear_arith)
                requires
                    0 <= int_part as int <= MAX_UNITS as int,
            ;
        }
        let wide: u128 = int_part as u128 * UNIT_SCALE as u128;
        if wide > MAX_UNITS as u128 {
            proof {
                assert(s@.subrange(0, n as int) =~= s@);
                lemma_reject_at_dot(s@, dot as int);
            }
            return None;
        }
        proof {
            assert(s@.subrange(0, n as int) =~= s@);
            assert(splits_at(s@, dot as int));
            lemma_literal_at(s@, dot as int);
        }
        return Some(wide as u64);
    }
    if n - (dot + 1) == 0 || n - (dot + 1) > UNIT_DECIMALS as usize {
        proof {
            lemma_reject_at_dot(s@, dot as int);
        }
        return None;
    }
    let frac_part = match parse_digit_range(s, dot + 1, n) {
        Some(v) => v,
        None => {
            proof {
                if splits_at(s@, dot as int) {
                    lemma_units_lower_bound(s@, dot as int);
                }
                lemma_reject_at_dot(s@, dot as int);
            }
            return None;
        },
    };
    let frac_len: u16 = (n - (dot + 1)) as u16;
    let g = pow10_u64(UNIT_DECIMALS - frac_len);
    proof {
        crate::decimal::lemma_pow10_19();
        crate::decimal::lemma_pow10_mono((UNIT_DECIMALS - frac_len) as nat, 8);
        assert((int_part as int) * (UNIT_SCALE as int) <= (MAX_UNITS as int) * (
        UNIT_SCALE as int)) by (nonlinear_arith)
            requires
                0 <= int_part as int <= MAX_UNITS as int,
        ;
        assert((frac_part as int) * (g as int) <= (MAX_UNITS as int) * (UNIT_SCALE as int))
            by (nonlinear_arith)
            requires
                0 <= frac_part as int <= MAX_UNITS as int && 0 <= g as int <= UNIT_SCALE as int,
        ;
    }
    let wide: u128 = int_part as u128 * UNIT_SCALE as u128 + frac_part as u128 * g as u128;
    if wide > MAX_UNITS as u128 {
        proof {
            lemma_reject_at_dot(s@, dot as int);
        }
        return None;
    }
    proof {
        assert(splits_at(s@, dot as int));
        lemma_literal_at(s@, dot as int);
    }
    Some(wide as u64)
}

/// If the numeral is rejected at its only possible split (the first dot),
/// it is no price literal.
proof fn lemma_reject_at_dot(s: Seq<char>, dot: int)
    requires
        0 <= dot <= s.len(),
        dot < s.len() ==> s[dot] == '.',
        forall|j: int| 0 <= j < dot ==> s[j] != '.',
        !(splits_at(s, dot) && units_at(s, dot) <= MAX_UNITS),
    ensures
        !is_price_literal(s),
{
    if is_price_literal(s) {
        let k = choose|k: int| #[trigger] splits_at(s, k) && units_at(s, k) <= MAX_UNITS;
        if k < s.len() {
            assert(s[k] == '.');
            assert(dot <= k);
            if dot < k {
                assert(is_digit(s.subrange(0, k)[dot]));
            }
        } else {
            if dot < s.len() {
                assert(is_digit(s.subrange(0, k)[dot]));
            }
        }
        assert(k == dot);
    }
}

/// The digit character for `d` (48 is the code of `0`).
pub open spec fn digit_char(d: int) -> char
    recommends
        0 <= d <= 9,
{
    (48 + d) as char
}

/// The decimal digits of `n`, most significant first, no leading zeros
/// (a single `0` for zero).
pub open spec fn spec_digits_string(n: nat) -> Seq<char>
    decreases n,
{
    if n < 10 {
        seq![digit_char(n as int)]
    } else {
        spec_digits_string(n / 10) + seq![digit_char((n % 10) as int)]
    }
}

/// `n` written in exactly `width` digits, zero-padded on the left.
pub open spec fn spec_padded_digits(n: nat, width: nat) -> Seq<char>
    decreases width,
{
    if width == 0 {
        Seq::empty()
    } else {
        spec_padded_digits(n / 10, (width - 1) as nat) + seq![digit_char((n % 10) as int)]
    }
}

/// A fraction of `width` digits with its trailing zeros removed, keeping
/// at least one digit (so a zero fraction reads `0`).
pub open spec fn spec_frac_trimmed(n: nat, width: nat) -> Seq<char>
    decreases width,
{
    if width > 1 && n % 10 == 0 {
        spec_frac_trimmed(n / 10, (width - 1) as nat)
    } else {
        spec_padded_digits(n, width)
    }
}

/// The decimal numeral of a unit count: the whole part, a dot, and the
/// fraction with trailing zeros trimmed (`0` units read `0.0`).
pub open spec fn spec_units_string(v: u64) -> Seq<char> {
    spec_digits_string((v / UNIT_SCALE) as nat) + seq!['.'] + spec_frac_trimmed(
        (v % UNIT_SCALE) as nat,
        UNIT_DECIMALS as nat,
    )
}

/// The characters an ASCII byte string spells.
pub open spec fn ascii_chars(s: Seq<u8>) -> Seq<char> {
    s.map_values(|b: u8| b as char)
}

/// Relies on `String::from_utf8`: bytes below 128 are valid UTF-8 and
/// decode one character each.
#[verifier::external_body]
fn string_from_ascii(bytes: Vec<u8>) -> (r: String)
    requires
        forall|i: int| 0 <= i < bytes@.len() ==> bytes@[i] < 128,
    ensures
        r@ == ascii_chars(bytes@),
{
    String::from_utf8(bytes).unwrap_or_default()
}

/// The decimal digits of `n` as ASCII bytes.
fn digit_bytes(n: u64) -> (r: Vec<u8>)
    ensures
        ascii_chars(r@) == spec_digits_string(n as nat),
        forall|i: int| 0 <= i < r@.len() ==> r@[i] < 128,
    decreases n,
{
    if n < 10 {
        let mut r: Vec<u8> = Vec::new();
        r.push(48 + n as u8);
        proof {
            assert(ascii_chars(r@) =~= spec_digits_string(n as nat));
        }
        r
    } else {
        let mut r = digit_bytes(n / 10);
        r.push(48 + (n % 10) as u8);
        proof {
            assert(ascii_chars(r@) =~= spec_digits_string(n as nat));
        }
        r
    }
}

/// `n` in exactly `width` ASCII digits, zero-padded.
fn padded_digit_bytes(n: u64, width: u16) -> (r: Vec<u8>)
    ensures
        ascii_chars(r@) == spec_padded_digits(n as nat, width as nat),
        forall|i: int| 0 <= i < r@.len() ==> r@[i] < 128,
    decreases width,
{
    if width == 0 {
        let r: Vec<u8> = Vec::new();
        proof {
            assert(ascii_chars(r@) =~= spec_padded_digits(n as nat, width as nat));
        }
        r
    } else {
        let mut r = padded_digit_bytes(n / 10, width - 1);
        r.push(48 + (n % 10) as u8);
        proof {
            assert(ascii_chars(r@) =~= spec_padded_digits(n as nat, width as nat));
        }
        r
    }
}

/// Formats a unit count as a decimal numeral: the whole part, a dot, and
/// the fraction with trailing zeros trimmed, so `0` formats as `0.0` and
/// whole prices keep one zero after the dot.
pub fn units_to_string(v: u64) -> (r: String)
    ensures
        r@ == spec_units_string(v),
{
    let mut out: Vec<u8> = digit_bytes(v / UNIT_SCALE);
    out.push(46);
    proof {
        assert(ascii_chars(out@) =~= spec_digits_string((v / UNIT_SCALE) as nat) + seq!['.']);
    }
    let ghost mid = out@;
    let mut frac: u64 = v % UNIT_SCALE;
    let mut width: u16 = UNIT_DECIMALS;
    while width > 1 && frac % 10 == 0
        invariant
            1 <= width <= UNIT_DECIMALS,
            spec_frac_trimmed(frac as nat, width as nat) == spec_frac_trimmed(
                (v % UNIT_SCALE) as nat,
                UNIT_DECIMALS as nat,
            ),
        decreases width,
    {
        frac = frac / 10;
        width = width - 1;
    }
    let tail = padded_digit_bytes(frac, width);
    let mut j: usize = 0;
    while j < tail.len()
        invariant
            j <= tail@.len(),
            out@ == mid + tail@.subrange(0, j as int),
        decreases tail@.len() - j,
    {
        out.push(tail[j]);
        proof {
            assert(mid + tail@.subrange(0, j + 1 as int) =~= (mid + tail@.subrange(
                0,
                j as int,
            )).push(tail@[j as int]));
        }
        j = j + 1;
    }
    proof {
        assert(tail@.subrange(0, tail@.len() as int) =~= tail@);
        assert(out@ == mid + tail@);
        assert(ascii_chars(out@) =~= ascii_chars(mid) + ascii_chars(tail@));
        assert(ascii_chars(out@) =~= spec_units_string(v));
    }
    string_from_ascii(out)
}

/// A successful parse at the first dot yields the literal's value.
proof fn lemma_literal_at(s: Seq<char>, k: int)
    requires
        splits_at(s, k),
        units_at(s, k) <= MAX_UNITS,
    ensures
        is_price_literal(s),
        literal_units(s) == units_at(s, k),
{
    assert(splits_at(s, k) && units_at(s, k) <= MAX_UNITS);
    let k2 = choose|k2: int| #[trigger] splits_at(s, k2) && units_at(s, k2) <= MAX_UNITS;
    lemma_splits_unique(s, k, k2);
}

} // verus!
