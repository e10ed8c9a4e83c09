//! The language's numbers are IEEE-754 binary64 values, carried everywhere
//! as their 64-bit pattern.  All arithmetic on them is delegated to the
//! `rustc_apfloat` crate (a software implementation of IEEE-754 with the
//! semantics of LLVM's APFloat), so that no floating-point type appears in
//! the verified library.  Each operation below is deterministic: the result
//! depends on the argument bits alone, which is what the uninterpreted
//! names state.

use vstd::prelude::*;
use rustc_apfloat::Float;
use rustc_apfloat::Round;
use rustc_apfloat::ieee::Double;

verus! {

/// The bit pattern of the IEEE-754 binary64 sum of the two operands
/// (round to nearest, ties to even).
pub uninterp spec fn add_bits(a: u64, b: u64) -> u64;

/// The bit pattern of the binary64 difference of the two operands.
pub uninterp spec fn sub_bits(a: u64, b: u64) -> u64;

/// The bit pattern of the binary64 product of the two operands.
pub uninterp spec fn mul_bits(a: u64, b: u64) -> u64;

/// The bit pattern of the binary64 quotient of the two operands.
pub uninterp spec fn div_bits(a: u64, b: u64) -> u64;

/// IEEE-754 `<` on the values the two patterns denote.
pub uninterp spec fn lt_bits(a: u64, b: u64) -> bool;

/// IEEE-754 `>` on the values the two patterns denote.
pub uninterp spec fn gt_bits(a: u64, b: u64) -> bool;

/// IEEE-754 `<=` on the values the two patterns denote.
pub uninterp spec fn le_bits(a: u64, b: u64) -> bool;

/// IEEE-754 `>=` on the values the two patterns denote.
pub uninterp spec fn ge_bits(a: u64, b: u64) -> bool;

/// IEEE-754 equality on the values the two patterns denote
/// (`NaN != NaN`, `-0 == +0`), as opposed to equality of the patterns.
pub uninterp spec fn eq_bits(a: u64, b: u64) -> bool;

/// The bit pattern of the value rounded toward negative infinity.
pub uninterp spec fn floor_bits(a: u64) -> u64;

/// The bit pattern of the value rounded toward positive infinity.
pub uninterp spec fn ceil_bits(a: u64) -> u64;

/// `Some(i)` exactly when the pattern denotes an integer (either zero
/// counts) that a 64-bit signed machine word can hold, with `i` that
/// integer; `None` for every value with a fractional part, for values
/// out of range, and for infinities and NaNs.
pub uninterp spec fn int_of_bits(a: u64) -> Option<i64>;

/// The bit pattern of the binary64 value nearest to the given integer
/// (round to nearest, ties to even).
pub uninterp spec fn bits_of_int(i: i64) -> u64;

/// `Some(bits)` when the text is a decimal numeral the underlying parser
/// accepts, with `bits` the correctly rounded binary64 value; `None`
/// otherwise.
pub uninterp spec fn bits_of_decimal(s: Seq<char>) -> Option<u64>;

/// The decimal rendering of the value the pattern denotes.
pub uninterp spec fn decimal_of_bits(a: u64) -> Seq<char>;

/// Relies on `rustc_apfloat`'s `Add` for `ieee::Double`: correctly rounded
/// IEEE-754 addition, a function of the operand bits alone.
#[verifier::external_body]
pub fn num_add(a: u64, b: u64) -> (r: u64)
    ensures
        r == add_bits(a, b),
{
    (Double::from_bits(a as u128) + Double::from_bits(b as u128)).value.to_bits() as u64
}

/// Relies on `rustc_apfloat`'s `Sub` for `ieee::Double`.
#[verifier::external_body]
pub fn num_sub(a: u64, b: u64) -> (r: u64)
    ensures
        r == sub_bits(a, b),
{
    (Double::from_bits(a as u128) - Double::from_bits(b as u128)).value.to_bits() as u64
}

/// Relies on `rustc_apfloat`'s `Mul` for `ieee::Double`.
#[verifier::external_body]
pub fn num_mul(a: u64, b: u64) -> (r: u64)
    ensures
        r == mul_bits(a, b),
{
    (Double::from_bits(a as u128) * Double::from_bits(b as u128)).value.to_bits() as u64
}

/// Relies on `rustc_apfloat`'s `Div` for `ieee::Double`: IEEE-754 division,
/// so a finite value divided by zero gives an infinity, not an error.
#[verifier::external_body]
pub fn num_div(a: u64, b: u64) -> (r: u64)
    ensures
        r == div_bits(a, b),
{
    (Double::from_bits(a as u128) / Double::from_bits(b as u128)).value.to_bits() as u64
}

/// Relies on `rustc_apfloat`'s `PartialOrd` for `ieee::Double`, which
/// implements the IEEE-754 comparison predicates.
#[verifier::external_body]
pub fn num_lt(a: u64, b: u64) -> (r: bool)
    ensures
        r == lt_bits(a, b),
{
    Double::from_bits(a as u128) < Double::from_bits(b as u128)
}

/// Relies on `rustc_apfloat`'s `PartialOrd` for `ieee::Double`.
#[verifier::external_body]
pub fn num_gt(a: u64, b: u64) -> (r: bool)
    ensures
        r == gt_bits(a, b),
{
    Double::from_bits(a as u128) > Double::from_bits(b as u128)
}

/// Relies on `rustc_apfloat`'s `PartialOrd` for `ieee::Double`.
#[verifier::external_body]
pub fn num_le(a: u64, b: u64) -> (r: bool)
    ensures
        r == le_bits(a, b),
{
    Double::from_bits(a as u128) <= Double::from_bits(b as u128)
}

/// Relies on `rustc_apfloat`'s `PartialOrd` for `ieee::Double`.
#[verifier::external_body]
pub fn num_ge(a: u64, b: u64) -> (r: bool)
    ensures
        r == ge_bits(a, b),
{
    Double::from_bits(a as u128) >= Double::from_bits(b as u128)
}

/// Relies on `rustc_apfloat`'s `PartialEq` for `ieee::Double`, defined as
/// `partial_cmp == Some(Equal)`: IEEE-754 equality of the denoted values.
#[verifier::external_body]
pub fn num_eq(a: u64, b: u64) -> (r: bool)
    ensures
        r == eq_bits(a, b),
{
    Double::from_bits(a as u128) == Double::from_bits(b as u128)
}

/// Relies on `rustc_apfloat`'s `round_to_integral` with rounding toward
/// negative infinity.
#[verifier::external_body]
pub fn num_floor(a: u64) -> (r: u64)
    ensures
        r == floor_bits(a),
{
    Double::from_bits(a as u128).round_to_integral(Round::TowardNegative).value.to_bits() as u64
}

/// Relies on `rustc_apfloat`'s `round_to_integral` with rounding toward
/// positive infinity.
#[verifier::external_body]
pub fn num_ceil(a: u64) -> (r: u64)
    ensures
        r == ceil_bits(a),
{
    Double::from_bits(a as u128).round_to_integral(Round::TowardPositive).value.to_bits() as u64
}

/// Relies on `rustc_apfloat`'s `to_i128_r`, whose exactness flag reports
/// whether the value was an integer representable in the requested width.
#[verifier::external_body]
pub fn num_to_int(a: u64) -> (r: Option<i64>)
    ensures
        r == int_of_bits(a),
{
    let mut exact = false;
    let i = Double::from_bits(a as u128).to_i128_r(64, Round::TowardZero, &mut exact).value;
    if exact { Some(i as i64) } else { None }
}

/// Relies on `rustc_apfloat`'s `from_i128`: conversion of an integer to the
/// nearest binary64 value.
#[verifier::external_body]
pub fn num_from_int(i: i64) -> (r: u64)
    ensures
        r == bits_of_int(i),
{
    Double::from_i128(i as i128).value.to_bits() as u64
}

/// Relies on `rustc_apfloat`'s `FromStr` for `ieee::Double`: correctly
/// rounded decimal-to-binary conversion, a function of the text alone.
#[verifier::external_body]
pub fn num_parse(s: &str) -> (r: Option<u64>)
    ensures
        r == bits_of_decimal(s@),
{
    match s.parse::<Double>() {
        Ok(d) => Some(d.to_bits() as u64),
        Err(_) => None,
    }
}

/// Relies on `rustc_apfloat`'s `Display` for `ieee::Double`: a decimal
/// rendering determined by the value alone.
#[verifier::external_body]
pub fn num_render(a: u64) -> (r: String)
    ensures
        r@ == decimal_of_bits(a),
{
    format!("{}", Double::from_bits(a as u128))
}

/// The digit character for a value below ten.
pub open spec fn digit_char(d: int) -> char {
    if d == 0 { '0' } else if d == 1 { '1' } else if d == 2 { '2' } else if d == 3 { '3' }
    else if d == 4 { '4' } else if d == 5 { '5' } else if d == 6 { '6' } else if d == 7 { '7' }
    else if d == 8 { '8' } else { '9' }
}

/// The usual decimal numeral of a machine integer.
pub open spec fn dec_digits(n: int) -> Seq<char>
    decreases n,
{
    if n < 10 {
        seq![digit_char(n)]
    } else {
        dec_digits(n / 10) + seq![digit_char(n % 10)]
    }
}

/// Relies on `u64`'s `Display`: the decimal numeral of the value.
#[verifier::external_body]
pub fn u64_to_string(n: u64) -> (r: String)
    ensures
        r@ == dec_digits(n as int),
{
    format!("{}", n)
}

} // verus!
