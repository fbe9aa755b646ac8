//! Double-precision numbers, held as their IEEE-754 binary64 bit pattern.
//!
//! Classification, comparison, negation and everything about whole numbers below
//! 2^53 is computed on the bit pattern here. Rounded arithmetic and the conversion
//! between decimal text and binary are done by the `rustc_apfloat` crate.

use vstd::prelude::*;
use rustc_apfloat::Float;
use crate::text::{chars_of, is_digit, is_ascii_digit};

verus! {

/// The sign bit of a double.
pub const SIGN_BIT: u64 = 0x8000_0000_0000_0000u64;

/// All bits of a double but the sign bit.
pub const MAGNITUDE_MASK: u64 = 0x7fff_ffff_ffff_ffffu64;

/// The bit pattern of positive infinity.
pub const INFINITY_BITS: u64 = 0x7ff0_0000_0000_0000u64;

/// The bit pattern of the NaN that a text `nan` stands for.
pub const NAN_BITS: u64 = 0x7ff8_0000_0000_0000u64;

/// The fraction bits of a double.
pub const FRACTION_MASK: u64 = 0x000f_ffff_ffff_ffffu64;

/// The bit that stands before the fraction of a normal double: 2^52.
pub const HIDDEN_BIT: u64 = 0x0010_0000_0000_0000u64;

/// The first whole number that has a neighbour which no double can hold: 2^53.
pub const WHOLE_LIMIT: u64 = 0x0020_0000_0000_0000u64;

/// The largest precision that the shortest-text search tries.
pub const MAX_SHORT_PRECISION: usize = 17;

/// A precision at which every finite double prints all of its digits.
pub const FULL_PRECISION: usize = 400;

// ---------------------------------------------------------------------------
// The bit pattern, read as a number
// ---------------------------------------------------------------------------

/// Whether the sign bit is set.
pub open spec fn sign_of(bits: u64) -> bool {
    bits & SIGN_BIT != 0
}

/// The bit pattern without its sign.
pub open spec fn magnitude_of(bits: u64) -> u64 {
    bits & MAGNITUDE_MASK
}

/// Whether the pattern is a NaN.
pub open spec fn is_nan_bits(bits: u64) -> bool {
    magnitude_of(bits) > INFINITY_BITS
}

/// Whether the pattern is an infinity.
pub open spec fn is_infinite_bits(bits: u64) -> bool {
    magnitude_of(bits) == INFINITY_BITS
}

/// Whether the pattern is a finite number.
pub open spec fn is_finite_bits(bits: u64) -> bool {
    magnitude_of(bits) < INFINITY_BITS
}

/// Whether the pattern is a zero, of either sign.
pub open spec fn is_zero_bits(bits: u64) -> bool {
    magnitude_of(bits) == 0
}

/// Doubles that are not NaN are ordered as these integers are: the magnitude's bit
/// pattern grows with the magnitude, and both zeros get the key 0.
pub open spec fn order_key(bits: u64) -> int {
    if sign_of(bits) {
        -(magnitude_of(bits) as int)
    } else {
        magnitude_of(bits) as int
    }
}

/// Whether one double is less than another. A NaN is less than nothing, and nothing is less than it.
pub open spec fn less_bits(a: u64, b: u64) -> bool {
    !is_nan_bits(a) && !is_nan_bits(b) && order_key(a) < order_key(b)
}

/// Whether two doubles are equal. A NaN equals nothing; the two zeros are equal.
pub open spec fn equal_bits(a: u64, b: u64) -> bool {
    !is_nan_bits(a) && !is_nan_bits(b) && order_key(a) == order_key(b)
}

/// The pattern with the other sign.
pub open spec fn negated_bits(bits: u64) -> u64 {
    bits ^ SIGN_BIT
}

/// A magnitude with a sign.
pub open spec fn with_sign(negative: bool, magnitude: u64) -> u64 {
    if negative {
        magnitude | SIGN_BIT
    } else {
        magnitude
    }
}

/// The whole number that a magnitude's bit pattern stands for, if it is one below 2^53.
///
/// A double with exponent field `e` and fraction `f` is `(2^52 + f) * 2^(e - 1075)`;
/// it is whole when the bits that the shift drops are all zero.
pub open spec fn whole_of_magnitude(magnitude: u64) -> Option<u64> {
    let e = magnitude >> 52;
    let f = magnitude & FRACTION_MASK;
    if magnitude == 0 {
        Some(0u64)
    } else if e < 1023 || e > 1075 {
        None
    } else {
        let shift = (1075 - e) as u64;
        let significand = HIDDEN_BIT | f;
        if significand & (((1u64 << shift) - 1) as u64) != 0 {
            None
        } else {
            Some(significand >> shift)
        }
    }
}

/// Sign and magnitude of a double that is a whole number below 2^53 in magnitude.
pub open spec fn whole_of(bits: u64) -> Option<(bool, u64)> {
    match whole_of_magnitude(magnitude_of(bits)) {
        Some(m) => Some((sign_of(bits), m)),
        None => None,
    }
}

// ---------------------------------------------------------------------------
// Decimal text of whole numbers
// ---------------------------------------------------------------------------

/// The character of a digit.
pub open spec fn digit_char(d: nat) -> char
    recommends
        d < 10,
{
    if d == 0 {
        '0'
    } else if d == 1 {
        '1'
    } else if d == 2 {
        '2'
    } else if d == 3 {
        '3'
    } else if d == 4 {
        '4'
    } else if d == 5 {
        '5'
    } else if d == 6 {
        '6'
    } else if d == 7 {
        '7'
    } else if d == 8 {
        '8'
    } else {
        '9'
    }
}

/// The digit that a character stands for.
pub open spec fn digit_value(c: char) -> nat {
    if c == '1' {
        1
    } else if c == '2' {
        2
    } else if c == '3' {
        3
    } else if c == '4' {
        4
    } else if c == '5' {
        5
    } else if c == '6' {
        6
    } else if c == '7' {
        7
    } else if c == '8' {
        8
    } else if c == '9' {
        9
    } else {
        0
    }
}

/// The decimal digits of a natural number, most significant first, without leading zeros.
pub open spec fn decimal_digits(n: nat) -> Seq<char>
    decreases n,
{
    if n < 10 {
        seq![digit_char(n)]
    } else {
        decimal_digits(n / 10).push(digit_char(n % 10))
    }
}

/// The number that a run of decimal digits denotes.
pub open spec fn digits_value(s: Seq<char>) -> nat
    decreases s.len(),
{
    if s.len() == 0 {
        0
    } else {
        digits_value(s.drop_last()) * 10 + digit_value(s.last())
    }
}

/// Whether all characters are digits.
pub open spec fn all_digits(s: Seq<char>) -> bool {
    forall|i: int| 0 <= i < s.len() ==> is_digit(#[trigger] s[i])
}

/// Reading back the digits of a number gives the number.
pub proof fn lemma_digits_round_trip(n: nat)
    ensures
        all_digits(decimal_digits(n)),
        decimal_digits(n).len() >= 1,
        digits_value(decimal_digits(n)) == n,
    decreases n,
{
    if n < 10 {
        let s = decimal_digits(n);
        assert(s.drop_last() =~= Seq::<char>::empty());
        assert(digits_value(s.drop_last()) == 0);
    } else {
        lemma_digits_round_trip(n / 10);
        let s = decimal_digits(n);
        assert(s.drop_last() =~= decimal_digits(n / 10));
    }
}

/// A number that is written with `len` digits is below `10^len`.
pub proof fn lemma_digits_value_bound(s: Seq<char>)
    ensures
        digits_value(s) < vstd::arithmetic::power::pow(10, s.len()),
    decreases s.len(),
{
    vstd::arithmetic::power::lemma_pow0(10);
    if s.len() > 0 {
        lemma_digits_value_bound(s.drop_last());
        vstd::arithmetic::power::lemma_pow1(10);
        vstd::arithmetic::power::lemma_pow_adds(10, (s.len() - 1) as nat, 1);
        assert(digits_value(s) < vstd::arithmetic::power::pow(10, (s.len() - 1) as nat) * 10) by (nonlinear_arith)
            requires
                digits_value(s) == digits_value(s.drop_last()) * 10 + digit_value(s.last()),
                digit_value(s.last()) <= 9,
                digits_value(s.drop_last()) < vstd::arithmetic::power::pow(10, (s.len() - 1) as nat),
        ;
    }
}

// ---------------------------------------------------------------------------
// The grammar of number texts
// ---------------------------------------------------------------------------

/// The end of the longest run of digits that starts at `i`.
pub open spec fn digits_end(s: Seq<char>, i: int) -> int
    decreases s.len() - i,
{
    if 0 <= i < s.len() && is_digit(s[i]) {
        digits_end(s, i + 1)
    } else {
        i
    }
}

/// Whether a character starts an exponent.
pub open spec fn is_exponent_mark(c: char) -> bool {
    c == 'e' || c == 'E'
}

/// Whether `s` is a decimal literal: digits with an optional point among them, at
/// least one digit in all, then an optional exponent (`e` or `E`, an optional sign,
/// at least one digit).
pub open spec fn is_decimal_literal(s: Seq<char>) -> bool {
    let int_end = digits_end(s, 0);
    let has_point = int_end < s.len() && s[int_end] == '.';
    let frac_start = if has_point { int_end + 1 } else { int_end };
    let frac_end = digits_end(s, frac_start);
    let digit_count = int_end + (frac_end - frac_start);
    if digit_count == 0 {
        false
    } else if frac_end == s.len() {
        true
    } else if !is_exponent_mark(s[frac_end]) {
        false
    } else {
        let has_sign = frac_end + 1 < s.len() && (s[frac_end + 1] == '+' || s[frac_end + 1] == '-');
        let exp_start = if has_sign { frac_end + 2 } else { frac_end + 1 };
        let exp_end = digits_end(s, exp_start);
        exp_end > exp_start && exp_end == s.len()
    }
}

/// Whether `s` is a run of one to sixteen digits that denotes a whole number below
/// 2^53: every such number is a double.
pub open spec fn is_short_whole_literal(s: Seq<char>) -> bool {
    1 <= s.len() <= 16 && all_digits(s) && digits_value(s) < WHOLE_LIMIT
}

/// Whether a character is a letter, given in its lower and its upper case.
pub open spec fn is_letter(c: char, lower: char, upper: char) -> bool {
    c == lower || c == upper
}

/// `inf` or `infinity`, in any mix of upper and lower case.
pub open spec fn is_infinity_word(s: Seq<char>) -> bool {
    let short = s.len() == 3 && is_letter(s[0], 'i', 'I') && is_letter(s[1], 'n', 'N') && is_letter(s[2], 'f', 'F');
    let long = s.len() == 8 && is_letter(s[0], 'i', 'I') && is_letter(s[1], 'n', 'N') && is_letter(s[2], 'f', 'F')
        && is_letter(s[3], 'i', 'I') && is_letter(s[4], 'n', 'N') && is_letter(s[5], 'i', 'I') && is_letter(
        s[6],
        't',
        'T',
    ) && is_letter(s[7], 'y', 'Y');
    short || long
}

/// `nan`, in any mix of upper and lower case.
pub open spec fn is_nan_word(s: Seq<char>) -> bool {
    s.len() == 3 && is_letter(s[0], 'n', 'N') && is_letter(s[1], 'a', 'A') && is_letter(s[2], 'n', 'N')
}

/// The double that a decimal literal denotes, rounded to nearest with ties to even,
/// as `rustc_apfloat` converts it; `None` where the crate refuses the text.
pub uninterp spec fn decimal_to_double(s: Seq<char>) -> Option<u64>;

/// The decimal text of a finite double at `precision` significant digits, as
/// `rustc_apfloat` prints it when it is allowed 400 padding zeros.
pub uninterp spec fn double_digits(bits: u64, precision: usize) -> Seq<char>;

/// The sum of two doubles, rounded to nearest with ties to even.
pub uninterp spec fn double_sum(a: u64, b: u64) -> u64;

/// The difference of two doubles, rounded to nearest with ties to even.
pub uninterp spec fn double_difference(a: u64, b: u64) -> u64;

/// The product of two doubles, rounded to nearest with ties to even.
pub uninterp spec fn double_product(a: u64, b: u64) -> u64;

/// The quotient of two doubles, rounded to nearest with ties to even.
pub uninterp spec fn double_quotient(a: u64, b: u64) -> u64;

/// The remainder of the division of two doubles, with the sign of the dividend.
pub uninterp spec fn double_remainder(a: u64, b: u64) -> u64;

/// The magnitude that an unsigned number text denotes, if it denotes one.
pub open spec fn unsigned_text_bits(s: Seq<char>) -> Option<u64> {
    if is_infinity_word(s) {
        Some(INFINITY_BITS)
    } else if is_nan_word(s) {
        Some(NAN_BITS)
    } else if is_short_whole_literal(s) {
        Some(whole_bits(digits_value(s)))
    } else if is_decimal_literal(s) {
        decimal_to_double(s)
    } else {
        None
    }
}

/// The double that a number text denotes: an optional sign, then `inf`, `infinity`
/// or `nan` in any case, or a decimal literal.
pub open spec fn text_bits(s: Seq<char>) -> Option<u64> {
    let negative = s.len() > 0 && s[0] == '-';
    let signed = s.len() > 0 && (s[0] == '-' || s[0] == '+');
    let rest = if signed { s.subrange(1, s.len() as int) } else { s };
    match unsigned_text_bits(rest) {
        Some(m) => Some(with_sign(negative, m)),
        None => None,
    }
}

/// The bit pattern of the whole number `m`: the one pattern without a sign whose
/// whole number is `m`.
pub closed spec fn whole_bits(m: nat) -> u64 {
    if m < WHOLE_LIMIT {
        choose|bits: u64| bits & SIGN_BIT == 0 && whole_of_magnitude(bits) == Some(m as u64)
    } else {
        0
    }
}

// ---------------------------------------------------------------------------
// Facts about whole numbers and their bit patterns
// ---------------------------------------------------------------------------

proof fn lemma_whole_magnitude_injective(a: u64, b: u64)
    requires
        a & SIGN_BIT == 0,
        b & SIGN_BIT == 0,
        whole_of_magnitude(a) is Some,
        whole_of_magnitude(a) == whole_of_magnitude(b),
    ensures
        a == b,
{
    let ea = a >> 52;
    let eb = b >> 52;
    if a == 0 || b == 0 {
        if a != 0 {
            lemma_whole_nonzero(a);
        }
        if b != 0 {
            lemma_whole_nonzero(b);
        }
    } else {
        let sa = (1075 - ea) as u64;
        let sb = (1075 - eb) as u64;
        assert(a == b) by (bit_vector)
            requires
                a & 0x8000_0000_0000_0000u64 == 0,
                b & 0x8000_0000_0000_0000u64 == 0,
                sa <= 52,
                sb <= 52,
                sa == 1075 - (a >> 52),
                sb == 1075 - (b >> 52),
                (0x0010_0000_0000_0000u64 | (a & 0x000f_ffff_ffff_ffffu64)) & (((1u64 << sa) - 1) as u64) == 0,
                (0x0010_0000_0000_0000u64 | (b & 0x000f_ffff_ffff_ffffu64)) & (((1u64 << sb) - 1) as u64) == 0,
                (0x0010_0000_0000_0000u64 | (a & 0x000f_ffff_ffff_ffffu64)) >> sa == (0x0010_0000_0000_0000u64 | (
                b & 0x000f_ffff_ffff_ffffu64)) >> sb,
        ;
    }
}

proof fn lemma_whole_nonzero(a: u64)
    requires
        a != 0,
        a & SIGN_BIT == 0,
        whole_of_magnitude(a) is Some,
    ensures
        whole_of_magnitude(a)->0 != 0,
{
    let e = a >> 52;
    let s = (1075 - e) as u64;
    assert((0x0010_0000_0000_0000u64 | (a & 0x000f_ffff_ffff_ffffu64)) >> s != 0) by (bit_vector)
        requires
            s <= 52,
    ;
}

/// The pattern that `whole_bits` picks has the whole number it was picked for.
pub proof fn lemma_whole_bits(bits: u64, m: u64)
    requires
        bits & SIGN_BIT == 0,
        whole_of_magnitude(bits) == Some(m),
    ensures
        m < WHOLE_LIMIT,
        whole_bits(m as nat) == bits,
{
    lemma_whole_below_limit(bits);
    let picked = whole_bits(m as nat);
    assert(picked & SIGN_BIT == 0 && whole_of_magnitude(picked) == Some(m));
    lemma_whole_magnitude_injective(picked, bits);
}

proof fn lemma_whole_below_limit(bits: u64)
    requires
        bits & SIGN_BIT == 0,
        whole_of_magnitude(bits) is Some,
    ensures
        whole_of_magnitude(bits)->0 < WHOLE_LIMIT,
{
    if bits != 0 {
        let e = bits >> 52;
        let s = (1075 - e) as u64;
        assert((0x0010_0000_0000_0000u64 | (bits & 0x000f_ffff_ffff_ffffu64)) >> s < 0x0020_0000_0000_0000u64)
            by (bit_vector)
            requires
                s <= 52,
        ;
    }
}

proof fn lemma_sign_split(bits: u64)
    ensures
        magnitude_of(bits) & SIGN_BIT == 0,
        with_sign(sign_of(bits), magnitude_of(bits)) == bits,
        magnitude_of(magnitude_of(bits)) == magnitude_of(bits),
{
    assert((bits & 0x7fff_ffff_ffff_ffffu64) & 0x8000_0000_0000_0000u64 == 0) by (bit_vector);
    assert(bits & 0x8000_0000_0000_0000u64 != 0 ==> (bits & 0x7fff_ffff_ffff_ffffu64) | 0x8000_0000_0000_0000u64
        == bits) by (bit_vector);
    assert(bits & 0x8000_0000_0000_0000u64 == 0 ==> (bits & 0x7fff_ffff_ffff_ffffu64) == bits) by (bit_vector);
    assert((bits & 0x7fff_ffff_ffff_ffffu64) & 0x7fff_ffff_ffff_ffffu64 == bits & 0x7fff_ffff_ffff_ffffu64)
        by (bit_vector);
}

proof fn lemma_with_sign(negative: bool, magnitude: u64)
    requires
        magnitude & SIGN_BIT == 0,
    ensures
        sign_of(with_sign(negative, magnitude)) == negative,
        magnitude_of(with_sign(negative, magnitude)) == magnitude,
{
    assert(magnitude & 0x8000_0000_0000_0000u64 == 0 ==> (magnitude | 0x8000_0000_0000_0000u64)
        & 0x8000_0000_0000_0000u64 != 0 && (magnitude | 0x8000_0000_0000_0000u64) & 0x7fff_ffff_ffff_ffffu64
        == magnitude && magnitude & 0x7fff_ffff_ffff_ffffu64 == magnitude) by (bit_vector);
}

// ---------------------------------------------------------------------------
// The outside arithmetic
// ---------------------------------------------------------------------------

/// Calls `Float::add_r` of `rustc_apfloat` on two doubles given by their bits, with
/// rounding to nearest, ties to even; the result's bits are the named sum.
#[verifier::external_body]
fn apfloat_add(a: u64, b: u64) -> (r: u64)
    ensures
        r == double_sum(a, b),
{
    let x = rustc_apfloat::ieee::Double::from_bits(a as u128);
    let y = rustc_apfloat::ieee::Double::from_bits(b as u128);
    x.add_r(y, rustc_apfloat::Round::NearestTiesToEven).value.to_bits() as u64
}

/// Calls `Float::sub_r` of `rustc_apfloat`; the result's bits are the named difference.
#[verifier::external_body]
fn apfloat_sub(a: u64, b: u64) -> (r: u64)
    ensures
        r == double_difference(a, b),
{
    let x = rustc_apfloat::ieee::Double::from_bits(a as u128);
    let y = rustc_apfloat::ieee::Double::from_bits(b as u128);
    x.sub_r(y, rustc_apfloat::Round::NearestTiesToEven).value.to_bits() as u64
}

/// Calls `Float::mul_r` of `rustc_apfloat`; the result's bits are the named product.
#[verifier::external_body]
fn apfloat_mul(a: u64, b: u64) -> (r: u64)
    ensures
        r == double_product(a, b),
{
    let x = rustc_apfloat::ieee::Double::from_bits(a as u128);
    let y = rustc_apfloat::ieee::Double::from_bits(b as u128);
    x.mul_r(y, rustc_apfloat::Round::NearestTiesToEven).value.to_bits() as u64
}

/// Calls `Float::div_r` of `rustc_apfloat`; the result's bits are the named quotient.
#[verifier::external_body]
fn apfloat_div(a: u64, b: u64) -> (r: u64)
    ensures
        r == double_quotient(a, b),
{
    let x = rustc_apfloat::ieee::Double::from_bits(a as u128);
    let y = rustc_apfloat::ieee::Double::from_bits(b as u128);
    x.div_r(y, rustc_apfloat::Round::NearestTiesToEven).value.to_bits() as u64
}

/// Calls `Float::c_fmod` of `rustc_apfloat`; the result's bits are the named remainder.
#[verifier::external_body]
fn apfloat_rem(a: u64, b: u64) -> (r: u64)
    ensures
        r == double_remainder(a, b),
{
    let x = rustc_apfloat::ieee::Double::from_bits(a as u128);
    let y = rustc_apfloat::ieee::Double::from_bits(b as u128);
    x.c_fmod(y).value.to_bits() as u64
}

/// Calls `Float::from_str_r` of `rustc_apfloat` on a decimal literal, with rounding
/// to nearest, ties to even; the result is the named conversion of the text.
#[verifier::external_body]
fn apfloat_parse(text: &str) -> (r: Option<u64>)
    requires
        is_decimal_literal(text@),
    ensures
        r == decimal_to_double(text@),
{
    match rustc_apfloat::ieee::Double::from_str_r(text, rustc_apfloat::Round::NearestTiesToEven) {
        Ok(v) => Some(v.value.to_bits() as u64),
        Err(_) => None,
    }
}

/// Formats a finite double with the `Display` impl of `rustc_apfloat`, at the given
/// number of significant digits and with up to 400 padding zeros; the result is the
/// named text.
#[verifier::external_body]
fn apfloat_format(bits: u64, precision: usize) -> (r: String)
    requires
        is_finite_bits(bits),
        1 <= precision <= FULL_PRECISION,
    ensures
        r@ == double_digits(bits, precision),
{
    let x = rustc_apfloat::ieee::Double::from_bits(bits as u128);
    format!("{:400.*}", precision, x)
}


// ---------------------------------------------------------------------------
// Counts
// ---------------------------------------------------------------------------

/// The bit pattern of 2^53.
pub const WHOLE_LIMIT_BITS: u64 = 0x4340_0000_0000_0000u64;

/// The double of a count: the count itself below 2^53, and 2^53 from there on.
pub open spec fn count_bits(n: nat) -> u64 {
    if n < WHOLE_LIMIT {
        whole_bits(n)
    } else {
        WHOLE_LIMIT_BITS
    }
}

/// The whole part of a double as a count: zero for NaN, for negative numbers and
/// below one; the largest `u64` from 2^64 on; else the number without its fraction.
pub open spec fn truncated_bits(bits: u64) -> u64 {
    let magnitude = magnitude_of(bits);
    let e = magnitude >> 52;
    let significand = HIDDEN_BIT | (magnitude & FRACTION_MASK);
    if is_nan_bits(bits) || sign_of(bits) || e < 1023 {
        0u64
    } else if e >= 1087 {
        u64::MAX
    } else if e >= 1075 {
        significand << ((e - 1075) as u64)
    } else {
        significand >> ((1075 - e) as u64)
    }
}

// ---------------------------------------------------------------------------
// The text of a number
// ---------------------------------------------------------------------------

/// Whether the text that the crate prints for `magnitude` at `precision` digits
/// reads back as `magnitude`.
pub open spec fn reads_back(magnitude: u64, precision: usize) -> bool {
    unsigned_text_bits(double_digits(magnitude, precision)) == Some(magnitude)
}

/// The least precision from `from` on, up to seventeen digits, whose text reads back.
pub open spec fn shortest_precision(magnitude: u64, from: usize) -> usize
    decreases MAX_SHORT_PRECISION - from,
{
    if from >= MAX_SHORT_PRECISION {
        MAX_SHORT_PRECISION
    } else if reads_back(magnitude, from) {
        from
    } else {
        shortest_precision(magnitude, (from + 1) as usize)
    }
}

/// The text of a magnitude that is not NaN: `inf`; the digits of a whole number;
/// else the shortest decimal text that reads back as the same double.
pub open spec fn magnitude_text(magnitude: u64) -> Seq<char> {
    if magnitude == INFINITY_BITS {
        seq!['i', 'n', 'f']
    } else {
        match whole_of_magnitude(magnitude) {
            Some(w) => decimal_digits(w as nat),
            None => if magnitude >> 52 >= 1075 {
                double_digits(magnitude, FULL_PRECISION)
            } else {
                double_digits(magnitude, shortest_precision(magnitude, 1))
            },
        }
    }
}

/// The text of a double: `NaN`, or a minus sign where the sign bit is set and then
/// the text of the magnitude. A whole number has no decimal point.
pub open spec fn number_text(bits: u64) -> Seq<char> {
    if is_nan_bits(bits) {
        seq!['N', 'a', 'N']
    } else if sign_of(bits) {
        seq!['-'] + magnitude_text(magnitude_of(bits))
    } else {
        magnitude_text(magnitude_of(bits))
    }
}

/// The digits of a number below `10^k` are at most `k`, and the first is a digit.
pub proof fn lemma_digits_length(n: nat, k: nat)
    requires
        k >= 1,
        n < vstd::arithmetic::power::pow(10, k),
    ensures
        decimal_digits(n).len() <= k,
    decreases k,
{
    vstd::arithmetic::power::lemma_pow1(10);
    if n >= 10 {
        if k == 1 {
            assert(false);
        } else {
            vstd::arithmetic::power::lemma_pow_adds(10, (k - 1) as nat, 1);
            assert(n / 10 < vstd::arithmetic::power::pow(10, (k - 1) as nat)) by (nonlinear_arith)
                requires
                    n < vstd::arithmetic::power::pow(10, (k - 1) as nat) * 10,
            ;
            lemma_digits_length(n / 10, (k - 1) as nat);
        }
    }
}

/// The text of a whole number reads back as the same number: for every double that
/// is a whole number below 2^53 in magnitude, of either sign and with both zeros,
/// reading its text gives its own bit pattern.
pub proof fn lemma_whole_text_reads_back(bits: u64)
    requires
        whole_of(bits) is Some,
    ensures
        text_bits(number_text(bits)) == Some(bits),
{
    let magnitude = magnitude_of(bits);
    let w = whole_of_magnitude(magnitude)->0;
    let digits = decimal_digits(w as nat);
    lemma_sign_split(bits);
    lemma_whole_below_limit(magnitude);
    lemma_digits_round_trip(w as nat);
    lemma_pow10_bound(16);
    assert(vstd::arithmetic::power::pow(10, 16) == 10_000_000_000_000_000) by {
        reveal_with_fuel(vstd::arithmetic::power::pow, 17);
    }
    lemma_digits_length(w as nat, 16);
    assert(magnitude < INFINITY_BITS) by {
        let e = magnitude >> 52;
        assert(magnitude >> 52 <= 1075 ==> magnitude < 0x7ff0_0000_0000_0000u64) by (bit_vector);
    }
    assert(is_digit(digits[0]));
    assert(is_short_whole_literal(digits));
    assert(!is_infinity_word(digits));
    assert(!is_nan_word(digits));
    lemma_whole_bits(magnitude, w);
    assert(unsigned_text_bits(digits) == Some(magnitude));
    let text = number_text(bits);
    if sign_of(bits) {
        assert(text =~= seq!['-'] + digits);
        assert(text.subrange(1, text.len() as int) =~= digits);
    } else {
        assert(text =~= digits);
    }
}

// ---------------------------------------------------------------------------
// The number type
// ---------------------------------------------------------------------------

/// A double-precision number, as its bit pattern.
#[derive(Clone, Copy, Debug, PartialEq, Eq, Structural)]
pub struct Number {
    pub bits: u64,
}

impl View for Number {
    type V = u64;

    open spec fn view(&self) -> u64 {
        self.bits
    }
}

impl DeepView for Number {
    type V = u64;

    open spec fn deep_view(&self) -> u64 {
        self.bits
    }
}

fn digit_of(d: u64) -> (c: char)
    requires
        d < 10,
    ensures
        c == digit_char(d as nat),
{
    if d == 0 {
        '0'
    } else if d == 1 {
        '1'
    } else if d == 2 {
        '2'
    } else if d == 3 {
        '3'
    } else if d == 4 {
        '4'
    } else if d == 5 {
        '5'
    } else if d == 6 {
        '6'
    } else if d == 7 {
        '7'
    } else if d == 8 {
        '8'
    } else {
        '9'
    }
}

fn value_of_digit(c: char) -> (d: u64)
    ensures
        d == digit_value(c),
        d <= 9,
{
    if c == '1' {
        1
    } else if c == '2' {
        2
    } else if c == '3' {
        3
    } else if c == '4' {
        4
    } else if c == '5' {
        5
    } else if c == '6' {
        6
    } else if c == '7' {
        7
    } else if c == '8' {
        8
    } else if c == '9' {
        9
    } else {
        0
    }
}

/// Appends the decimal digits of `n` to `out`.
pub fn push_decimal(out: &mut Vec<char>, n: u64)
    ensures
        final(out)@ == old(out)@ + decimal_digits(n as nat),
    decreases n,
{
    if n < 10 {
        out.push(digit_of(n));
        assert(final(out)@ =~= old(out)@ + decimal_digits(n as nat));
    } else {
        push_decimal(out, n / 10);
        out.push(digit_of(n % 10));
        assert(final(out)@ =~= old(out)@ + decimal_digits(n as nat));
    }
}

fn scan_digits(s: &Vec<char>, from: usize) -> (end: usize)
    requires
        from <= s.len(),
    ensures
        end == digits_end(s@, from as int),
        from <= end <= s.len(),
        forall|i: int| from <= i < end ==> is_digit(#[trigger] s@[i]),
{
    let mut i: usize = from;
    while i < s.len() && is_ascii_digit(s[i])
        invariant
            from <= i <= s.len(),
            digits_end(s@, i as int) == digits_end(s@, from as int),
            forall|j: int| from <= j < i ==> is_digit(#[trigger] s@[j]),
        decreases s.len() - i,
    {
        i += 1;
    }
    i
}

fn check_decimal_literal(s: &Vec<char>) -> (r: bool)
    ensures
        r == is_decimal_literal(s@),
{
    let int_end = scan_digits(s, 0);
    let has_point = int_end < s.len() && s[int_end] == '.';
    let frac_start = if has_point { int_end + 1 } else { int_end };
    let frac_end = scan_digits(s, frac_start);
    let digit_count = int_end + (frac_end - frac_start);
    if digit_count == 0 {
        false
    } else if frac_end == s.len() {
        true
    } else if !(s[frac_end] == 'e' || s[frac_end] == 'E') {
        false
    } else {
        let has_sign = frac_end + 1 < s.len() && (s[frac_end + 1] == '+' || s[frac_end + 1] == '-');
        let exp_start = if has_sign { frac_end + 2 } else { frac_end + 1 };
        let exp_end = scan_digits(s, exp_start);
        exp_end > exp_start && exp_end == s.len()
    }
}

fn letter(c: char, lower: char, upper: char) -> (r: bool)
    ensures
        r == is_letter(c, lower, upper),
{
    c == lower || c == upper
}

fn check_infinity_word(s: &Vec<char>) -> (r: bool)
    ensures
        r == is_infinity_word(s@),
{
    if s.len() == 3 {
        letter(s[0], 'i', 'I') && letter(s[1], 'n', 'N') && letter(s[2], 'f', 'F')
    } else if s.len() == 8 {
        letter(s[0], 'i', 'I') && letter(s[1], 'n', 'N') && letter(s[2], 'f', 'F') && letter(s[3], 'i', 'I')
            && letter(s[4], 'n', 'N') && letter(s[5], 'i', 'I') && letter(s[6], 't', 'T') && letter(s[7], 'y', 'Y')
    } else {
        false
    }
}

fn check_nan_word(s: &Vec<char>) -> (r: bool)
    ensures
        r == is_nan_word(s@),
{
    s.len() == 3 && letter(s[0], 'n', 'N') && letter(s[1], 'a', 'A') && letter(s[2], 'n', 'N')
}

/// The value of a run of at most sixteen digits.
fn short_digits_value(s: &Vec<char>) -> (r: u64)
    requires
        1 <= s.len() <= 16,
        all_digits(s@),
    ensures
        r == digits_value(s@),
{
    let mut acc: u64 = 0;
    let mut i: usize = 0;
    proof {
        vstd::arithmetic::power::lemma_pow0(10);
        assert(s@.take(0) =~= Seq::<char>::empty());
    }
    while i < s.len()
        invariant
            i <= s.len() <= 16,
            acc == digits_value(s@.take(i as int)),
            acc < vstd::arithmetic::power::pow(10, i as nat),
            vstd::arithmetic::power::pow(10, i as nat) <= 10_000_000_000_000_000,
        decreases s.len() - i,
    {
        let d = value_of_digit(s[i]);
        proof {
            let next = s@.take(i + 1);
            assert(next.drop_last() =~= s@.take(i as int));
            assert(next.last() == s@[i as int]);
            lemma_digits_value_bound(next);
            lemma_pow10_bound((i + 1) as nat);
        }
        acc = acc * 10 + d;
        i += 1;
    }
    proof {
        assert(s@.take(s.len() as int) =~= s@);
    }
    acc
}

proof fn lemma_pow10_bound(n: nat)
    requires
        n <= 16,
    ensures
        vstd::arithmetic::power::pow(10, n) <= 10_000_000_000_000_000,
        vstd::arithmetic::power::pow(10, n) >= 1,
    decreases 16 - n,
{
    vstd::arithmetic::power::lemma_pow_positive(10, n);
    if n < 16 {
        lemma_pow10_bound(n + 1);
        vstd::arithmetic::power::lemma_pow1(10);
        vstd::arithmetic::power::lemma_pow_adds(10, n, 1);
        assert(vstd::arithmetic::power::pow(10, n) <= vstd::arithmetic::power::pow(10, n) * 10) by (nonlinear_arith)
            requires
                vstd::arithmetic::power::pow(10, n) >= 1,
        ;
    } else {
        assert(vstd::arithmetic::power::pow(10, 16) == 10_000_000_000_000_000) by {
            reveal_with_fuel(vstd::arithmetic::power::pow, 17);
        }
    }
}

/// The bit pattern of a whole number below 2^53.
fn whole_magnitude_bits(magnitude: u64) -> (bits: u64)
    requires
        magnitude < WHOLE_LIMIT,
    ensures
        bits == whole_bits(magnitude as nat),
        bits & SIGN_BIT == 0,
        whole_of_magnitude(bits) == Some(magnitude),
{
    if magnitude == 0 {
        proof {
            assert(0u64 & 0x8000_0000_0000_0000u64 == 0) by (bit_vector);
            lemma_whole_bits(0, 0);
        }
        return 0;
    }
    let mut k: u64 = 52;
    assert(magnitude >> 53 == 0) by (bit_vector)
        requires
            magnitude < 0x0020_0000_0000_0000u64,
    ;
    while (magnitude >> k) == 0
        invariant
            k <= 52,
            magnitude != 0,
            magnitude >> ((k + 1) as u64) == 0,
        decreases k,
    {
        assert(k > 0) by (bit_vector)
            requires
                magnitude != 0,
                magnitude >> k == 0,
        ;
        k = k - 1;
    }
    let significand = magnitude << (52 - k);
    let exponent = 1023 + k;
    let bits = (exponent << 52) | (significand & FRACTION_MASK);
    proof {
        let shift = (52 - k) as u64;
        assert(bits & 0x8000_0000_0000_0000u64 == 0 && bits != 0 && bits >> 52 == exponent && (0x0010_0000_0000_0000u64
            | (bits & 0x000f_ffff_ffff_ffffu64)) == significand && significand & (((1u64 << shift) - 1) as u64) == 0
            && significand >> shift == magnitude) by (bit_vector)
            requires
                k <= 52,
                shift == 52 - k,
                exponent == 1023 + k,
                magnitude >> k != 0,
                magnitude >> ((k + 1) as u64) == 0,
                significand == magnitude << shift,
                bits == (exponent << 52) | (significand & 0x000f_ffff_ffff_ffffu64),
        ;
        assert(1075 - exponent == shift);
        lemma_whole_bits(bits, magnitude);
    }
    bits
}

fn whole_of_magnitude_bits(magnitude: u64) -> (r: Option<u64>)
    ensures
        r == whole_of_magnitude(magnitude),
{
    let e = magnitude >> 52;
    let f = magnitude & FRACTION_MASK;
    if magnitude == 0 {
        Some(0)
    } else if e < 1023 || e > 1075 {
        None
    } else {
        let shift = 1075 - e;
        let significand = HIDDEN_BIT | f;
        assert((1u64 << shift) >= 1) by (bit_vector)
            requires
                shift <= 52,
        ;
        if significand & ((1u64 << shift) - 1) != 0 {
            None
        } else {
            Some(significand >> shift)
        }
    }
}

/// The magnitude that an unsigned number text denotes.
fn parse_unsigned(s: &Vec<char>) -> (r: Option<u64>)
    ensures
        r == unsigned_text_bits(s@),
{
    if check_infinity_word(s) {
        Some(INFINITY_BITS)
    } else if check_nan_word(s) {
        Some(NAN_BITS)
    } else {
        let digits = scan_digits(s, 0);
        proof {
            if all_digits(s@) {
                lemma_all_digits_end(s@, 0);
            }
        }
        let short = 1 <= s.len() && s.len() <= 16 && digits == s.len();
        let value = if short { short_digits_value(s) } else { 0 };
        if short && value < WHOLE_LIMIT {
            Some(whole_magnitude_bits(value))
        } else {
            if check_decimal_literal(s) {
                let text = crate::text::string_of(s, 0, s.len());
                assert(text@ =~= s@);
                apfloat_parse(text.as_str())
            } else {
                None
            }
        }
    }
}

proof fn lemma_all_digits_end(s: Seq<char>, i: int)
    requires
        0 <= i <= s.len(),
        all_digits(s),
    ensures
        digits_end(s, i) == s.len(),
    decreases s.len() - i,
{
    if i < s.len() {
        lemma_all_digits_end(s, i + 1);
    }
}

impl Number {
    /// The number with the given bit pattern.
    pub fn from_bits(bits: u64) -> (r: Number)
        ensures
            r@ == bits,
    {
        Number { bits }
    }

    /// The bit pattern of the number.
    pub fn to_bits(self) -> (r: u64)
        ensures
            r == self@,
    {
        self.bits
    }

    /// The whole number with the given sign and magnitude, for a magnitude below
    /// 2^53; there is none for a larger one.
    pub fn from_whole(negative: bool, magnitude: u64) -> (r: Option<Number>)
        ensures
            magnitude < WHOLE_LIMIT ==> (r matches Some(n) && n@ == with_sign(negative, whole_bits(magnitude as nat))
                && whole_of(n@) == Some((negative, magnitude))),
            magnitude >= WHOLE_LIMIT ==> r is None,
    {
        if magnitude >= WHOLE_LIMIT {
            return None;
        }
        let m = whole_magnitude_bits(magnitude);
        proof {
            lemma_with_sign(negative, m);
        }
        if negative {
            Some(Number { bits: m | SIGN_BIT })
        } else {
            Some(Number { bits: m })
        }
    }

    /// The double of a count.
    pub fn from_count(n: usize) -> (r: Number)
        ensures
            r@ == count_bits(n as nat),
    {
        if (n as u64) < WHOLE_LIMIT {
            Number { bits: whole_magnitude_bits(n as u64) }
        } else {
            Number { bits: WHOLE_LIMIT_BITS }
        }
    }

    /// The whole part of the number as a count.
    pub fn truncated(self) -> (r: u64)
        ensures
            r == truncated_bits(self@),
    {
        let magnitude = self.bits & MAGNITUDE_MASK;
        let e = magnitude >> 52;
        let significand = HIDDEN_BIT | (magnitude & FRACTION_MASK);
        if self.is_nan() || self.is_negative() || e < 1023 {
            0
        } else if e >= 1087 {
            u64::MAX
        } else if e >= 1075 {
            significand << (e - 1075)
        } else {
            significand >> (1075 - e)
        }
    }

    /// Whether the number is a NaN.
    pub fn is_nan(self) -> (r: bool)
        ensures
            r == is_nan_bits(self@),
    {
        (self.bits & MAGNITUDE_MASK) > INFINITY_BITS
    }

    /// Whether the number is an infinity.
    pub fn is_infinite(self) -> (r: bool)
        ensures
            r == is_infinite_bits(self@),
    {
        (self.bits & MAGNITUDE_MASK) == INFINITY_BITS
    }

    /// Whether the number is finite.
    pub fn is_finite(self) -> (r: bool)
        ensures
            r == is_finite_bits(self@),
    {
        (self.bits & MAGNITUDE_MASK) < INFINITY_BITS
    }

    /// Whether the number is zero, of either sign.
    pub fn is_zero(self) -> (r: bool)
        ensures
            r == is_zero_bits(self@),
    {
        (self.bits & MAGNITUDE_MASK) == 0
    }

    /// Whether the sign bit is set.
    pub fn is_negative(self) -> (r: bool)
        ensures
            r == sign_of(self@),
    {
        (self.bits & SIGN_BIT) != 0
    }

    /// Sign and magnitude, where the number is whole and below 2^53 in magnitude.
    pub fn whole(self) -> (r: Option<(bool, u64)>)
        ensures
            r == whole_of(self@),
    {
        match whole_of_magnitude_bits(self.bits & MAGNITUDE_MASK) {
            Some(m) => Some(((self.bits & SIGN_BIT) != 0, m)),
            None => None,
        }
    }

    /// The number with the other sign.
    pub fn negate(self) -> (r: Number)
        ensures
            r@ == negated_bits(self@),
    {
        Number { bits: self.bits ^ SIGN_BIT }
    }

    /// Equality of doubles: NaN equals nothing, and the two zeros are equal.
    pub fn equals(self, other: Number) -> (r: bool)
        ensures
            r == equal_bits(self@, other@),
    {
        if self.is_nan() || other.is_nan() {
            false
        } else {
            let a = self.bits & MAGNITUDE_MASK;
            let b = other.bits & MAGNITUDE_MASK;
            if a == 0 && b == 0 {
                true
            } else {
                a == b && self.is_negative() == other.is_negative()
            }
        }
    }

    /// The order of doubles: NaN is less than nothing and nothing is less than it.
    pub fn less_than(self, other: Number) -> (r: bool)
        ensures
            r == less_bits(self@, other@),
    {
        if self.is_nan() || other.is_nan() {
            false
        } else {
            let a = self.bits & MAGNITUDE_MASK;
            let b = other.bits & MAGNITUDE_MASK;
            if self.is_negative() {
                if other.is_negative() {
                    b < a
                } else {
                    a != 0 || b != 0
                }
            } else {
                if other.is_negative() {
                    false
                } else {
                    a < b
                }
            }
        }
    }

    /// Whether the number is less than or equal to another.
    pub fn less_or_equal(self, other: Number) -> (r: bool)
        ensures
            r == (less_bits(self@, other@) || equal_bits(self@, other@)),
    {
        self.less_than(other) || self.equals(other)
    }

    /// The sum, rounded to nearest.
    pub fn add(self, other: Number) -> (r: Number)
        ensures
            r@ == double_sum(self@, other@),
    {
        Number { bits: apfloat_add(self.bits, other.bits) }
    }

    /// The difference, rounded to nearest.
    pub fn subtract(self, other: Number) -> (r: Number)
        ensures
            r@ == double_difference(self@, other@),
    {
        Number { bits: apfloat_sub(self.bits, other.bits) }
    }

    /// The product, rounded to nearest.
    pub fn multiply(self, other: Number) -> (r: Number)
        ensures
            r@ == double_product(self@, other@),
    {
        Number { bits: apfloat_mul(self.bits, other.bits) }
    }

    /// The quotient, rounded to nearest.
    pub fn divide(self, other: Number) -> (r: Number)
        ensures
            r@ == double_quotient(self@, other@),
    {
        Number { bits: apfloat_div(self.bits, other.bits) }
    }

    /// The remainder of the division, with the sign of the dividend.
    pub fn remainder(self, other: Number) -> (r: Number)
        ensures
            r@ == double_remainder(self@, other@),
    {
        Number { bits: apfloat_rem(self.bits, other.bits) }
    }

    /// Reads a number text; `None` where the text is no number.
    pub fn parse(text: &str) -> (r: Option<Number>)
        ensures
            match text_bits(text@) {
                Some(bits) => r == Some(Number { bits }),
                None => r is None,
            },
    {
        let chars = chars_of(text);
        Number::parse_chars(&chars)
    }

    /// Reads a number text that is given by its characters.
    pub fn parse_chars(chars: &Vec<char>) -> (r: Option<Number>)
        ensures
            match text_bits(chars@) {
                Some(bits) => r == Some(Number { bits }),
                None => r is None,
            },
    {
        let negative = chars.len() > 0 && chars[0] == '-';
        let signed = chars.len() > 0 && (chars[0] == '-' || chars[0] == '+');
        let magnitude = if signed {
            let mut rest: Vec<char> = Vec::new();
            let mut i: usize = 1;
            while i < chars.len()
                invariant
                    1 <= i <= chars.len(),
                    rest@ == chars@.subrange(1, i as int),
                decreases chars.len() - i,
            {
                rest.push(chars[i]);
                i += 1;
                assert(chars@.subrange(1, i as int) =~= chars@.subrange(1, i - 1).push(chars@[i - 1]));
            }
            parse_unsigned(&rest)
        } else {
            parse_unsigned(chars)
        };
        match magnitude {
            Some(m) => {
                if negative {
                    Some(Number { bits: m | SIGN_BIT })
                } else {
                    Some(Number { bits: m })
                }
            },
            None => None,
        }
    }

    /// The text of the number.
    pub fn display(self) -> (r: String)
        ensures
            r@ == number_text(self@),
    {
        let chars = self.display_chars();
        crate::text::string_of(&chars, 0, chars.len())
    }

    /// The text of the number, as characters.
    pub fn display_chars(self) -> (r: Vec<char>)
        ensures
            r@ == number_text(self@),
    {
        let mut out: Vec<char> = Vec::new();
        if self.is_nan() {
            out.push('N');
            out.push('a');
            out.push('N');
            assert(out@ =~= seq!['N', 'a', 'N']);
            return out;
        }
        if self.is_negative() {
            out.push('-');
        }
        let ghost prefix = out@;
        let magnitude = self.bits & MAGNITUDE_MASK;
        proof {
            lemma_sign_split(self.bits);
        }
        if magnitude == INFINITY_BITS {
            out.push('i');
            out.push('n');
            out.push('f');
            assert(out@ =~= prefix + seq!['i', 'n', 'f']);
        } else {
            match whole_of_magnitude_bits(magnitude) {
                Some(w) => {
                    push_decimal(&mut out, w);
                },
                None => {
                    let precision = if (magnitude >> 52) >= 1075 {
                        FULL_PRECISION
                    } else {
                        find_shortest_precision(magnitude)
                    };
                    let text = apfloat_format(magnitude, precision);
                    let digits = chars_of(text.as_str());
                    let mut i: usize = 0;
                    while i < digits.len()
                        invariant
                            i <= digits.len(),
                            out@ == prefix + digits@.take(i as int),
                        decreases digits.len() - i,
                    {
                        out.push(digits[i]);
                        i += 1;
                        assert(digits@.take(i as int) =~= digits@.take(i - 1).push(digits@[i - 1]));
                        assert(out@ =~= prefix + digits@.take(i as int));
                    }
                    assert(digits@.take(digits.len() as int) =~= digits@);
                },
            }
        }
        assert(prefix + magnitude_text(magnitude) =~= number_text(self@)) by {
            if sign_of(self@) {
                assert(prefix =~= seq!['-']);
            } else {
                assert(prefix =~= Seq::<char>::empty());
            }
        }
        out
    }
}

/// The least precision whose text reads back as the same double.
fn find_shortest_precision(magnitude: u64) -> (p: usize)
    requires
        is_finite_bits(magnitude),
        magnitude_of(magnitude) == magnitude,
    ensures
        p == shortest_precision(magnitude, 1),
        1 <= p <= MAX_SHORT_PRECISION,
{
    let mut p: usize = 1;
    while p < MAX_SHORT_PRECISION
        invariant
            1 <= p <= MAX_SHORT_PRECISION,
            is_finite_bits(magnitude),
            shortest_precision(magnitude, p) == shortest_precision(magnitude, 1),
        decreases MAX_SHORT_PRECISION - p,
    {
        let text = apfloat_format(magnitude, p);
        let chars = chars_of(text.as_str());
        let back = parse_unsigned(&chars);
        if back == Some(magnitude) {
            return p;
        }
        p += 1;
    }
    p
}

} // verus!
