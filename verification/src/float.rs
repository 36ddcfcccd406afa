//! Floating-point support for the value model.
//!
//! A float value carries its IEEE 754 binary64 bit pattern as a `u64`; the
//! arithmetic itself is done in software by `rustc_apfloat`, whose results
//! are a function of the operand bits alone (round-to-nearest-even, the
//! default rounding of the `+ - * /` operators there). Each operation is
//! named by an uninterpreted function over bit patterns, so contracts can
//! say exactly which operation produced a result without restating IEEE 754.
//!
//! Zero tests (for the machine's division-by-zero rule) need no trust: both
//! IEEE zeroes are recognised on the bits directly.
use vstd::prelude::*;

verus! {

use rustc_apfloat::Float;

/// The bits of the IEEE 754 binary64 sum of two bit patterns.
pub uninterp spec fn float_add_bits(a: u64, b: u64) -> u64;

/// The bits of the IEEE 754 binary64 difference of two bit patterns.
pub uninterp spec fn float_sub_bits(a: u64, b: u64) -> u64;

/// The bits of the IEEE 754 binary64 product of two bit patterns.
pub uninterp spec fn float_mul_bits(a: u64, b: u64) -> u64;

/// The bits of the IEEE 754 binary64 quotient of two bit patterns.
pub uninterp spec fn float_div_bits(a: u64, b: u64) -> u64;

/// The bits of the IEEE 754 binary64 value nearest to an unsigned integer.
pub uninterp spec fn float_of_uint_bits(x: u64) -> u64;

/// The bits of the IEEE 754 binary64 value nearest to a signed integer.
pub uninterp spec fn float_of_int_bits(x: i64) -> u64;

/// The decimal rendering of an IEEE 754 binary64 bit pattern.
pub uninterp spec fn float_text(a: u64) -> Seq<char>;

/// Whether a bit pattern is an IEEE 754 binary64 zero (either sign).
pub open spec fn float_is_zero(a: u64) -> bool {
    a == 0u64 || a == 0x8000_0000_0000_0000u64
}

/// Relies on `rustc_apfloat::ieee::Double`: `add_r` with round-to-nearest
/// (the `+` operator) is a function of the operand bits.
#[verifier::external_body]
pub(crate) fn float_add(a: u64, b: u64) -> (r: u64)
    ensures
        r == float_add_bits(a, b),
{
    let x = rustc_apfloat::ieee::Double::from_bits(a as u128);
    let y = rustc_apfloat::ieee::Double::from_bits(b as u128);
    (x + y).value.to_bits() as u64
}

/// Relies on `rustc_apfloat::ieee::Double`: `sub_r` with round-to-nearest
/// (the `-` operator) is a function of the operand bits.
#[verifier::external_body]
pub(crate) fn float_sub(a: u64, b: u64) -> (r: u64)
    ensures
        r == float_sub_bits(a, b),
{
    let x = rustc_apfloat::ieee::Double::from_bits(a as u128);
    let y = rustc_apfloat::ieee::Double::from_bits(b as u128);
    (x - y).value.to_bits() as u64
}

/// Relies on `rustc_apfloat::ieee::Double`: `mul_r` with round-to-nearest
/// (the `*` operator) is a function of the operand bits.
#[verifier::external_body]
pub(crate) fn float_mul(a: u64, b: u64) -> (r: u64)
    ensures
        r == float_mul_bits(a, b),
{
    let x = rustc_apfloat::ieee::Double::from_bits(a as u128);
    let y = rustc_apfloat::ieee::Double::from_bits(b as u128);
    (x * y).value.to_bits() as u64
}

/// Relies on `rustc_apfloat::ieee::Double`: `div_r` with round-to-nearest
/// (the `/` operator) is a function of the operand bits.
#[verifier::external_body]
pub(crate) fn float_div(a: u64, b: u64) -> (r: u64)
    ensures
        r == float_div_bits(a, b),
{
    let x = rustc_apfloat::ieee::Double::from_bits(a as u128);
    let y = rustc_apfloat::ieee::Double::from_bits(b as u128);
    (x / y).value.to_bits() as u64
}

/// Relies on `rustc_apfloat::ieee::Double::from_u128`: conversion of an
/// unsigned integer rounds to the nearest representable binary64 value.
#[verifier::external_body]
pub(crate) fn float_of_uint(x: u64) -> (r: u64)
    ensures
        r == float_of_uint_bits(x),
{
    rustc_apfloat::ieee::Double::from_u128(x as u128).value.to_bits() as u64
}

/// Relies on `rustc_apfloat::ieee::Double::from_i128`: conversion of a
/// signed integer rounds to the nearest representable binary64 value.
#[verifier::external_body]
pub(crate) fn float_of_int(x: i64) -> (r: u64)
    ensures
        r == float_of_int_bits(x),
{
    rustc_apfloat::ieee::Double::from_i128(x as i128).value.to_bits() as u64
}

/// Relies on `rustc_apfloat::ieee::Double`'s `Display`: the decimal
/// rendering is a function of the bits.
#[verifier::external_body]
pub(crate) fn float_render(a: u64) -> (s: String)
    ensures
        s@ == float_text(a),
{
    format!("{}", rustc_apfloat::ieee::Double::from_bits(a as u128))
}

/// Whether the bits are an IEEE 754 binary64 zero of either sign.
pub fn float_zero_test(a: u64) -> (r: bool)
    ensures
        r == float_is_zero(a),
{
    a == 0u64 || a == 0x8000_0000_0000_0000u64
}

} // verus!
