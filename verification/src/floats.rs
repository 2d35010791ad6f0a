//! IEEE-754 double-precision arithmetic on raw bit patterns.
//!
//! The engine stores a float value as its 64-bit pattern and never touches
//! native floating point.  Each operation is delegated to the software
//! implementation in the `rustc_apfloat` crate, which is a pure function of
//! the bit patterns alone; the spec functions below name those results.
use vstd::prelude::*;

use rustc_apfloat::Float as ApFloat;
use rustc_apfloat::ieee::Double;

verus! {

/// The bit pattern of the double nearest to the integer `i`.
pub uninterp spec fn spec_float_of_int(i: int) -> u64;

/// The bit pattern of the sum of two doubles.
pub uninterp spec fn spec_float_add(a: u64, b: u64) -> u64;

/// The bit pattern of the difference of two doubles.
pub uninterp spec fn spec_float_sub(a: u64, b: u64) -> u64;

/// The bit pattern of the product of two doubles.
pub uninterp spec fn spec_float_mul(a: u64, b: u64) -> u64;

/// The bit pattern of the quotient of two doubles.
pub uninterp spec fn spec_float_div(a: u64, b: u64) -> u64;

/// The bit pattern of the C `fmod` remainder of two doubles.
pub uninterp spec fn spec_float_rem(a: u64, b: u64) -> u64;

/// Whether two doubles compare equal (IEEE equality: NaN equals nothing).
pub uninterp spec fn spec_float_eq(a: u64, b: u64) -> bool;

/// Whether the first double compares strictly below the second.
pub uninterp spec fn spec_float_lt(a: u64, b: u64) -> bool;

/// Whether the first double compares at or below the second.
pub uninterp spec fn spec_float_le(a: u64, b: u64) -> bool;

/// The double denoted by a decimal literal, or nothing when malformed.
pub uninterp spec fn spec_float_of_dec(s: Seq<char>) -> Option<u64>;

/// The decimal rendering of a double.
pub uninterp spec fn spec_float_str(b: u64) -> Seq<char>;

/// Whether a double is a zero (either sign).  The bit pattern of the
/// integer zero's image counts as zero outright, so the definition does
/// not depend on the equality oracle for that one case.
pub open spec fn spec_float_is_zero(b: u64) -> bool {
    spec_float_eq(b, spec_float_of_int(0)) || b == spec_float_of_int(0)
}

/// Relies on `rustc_apfloat::Float::from_i128`: rounds the integer to the
/// nearest double.  Zero converts to positive zero, which equals itself.
#[verifier::external_body]
pub fn float_of_int(i: i64) -> (r: u64)
    ensures
        r == spec_float_of_int(i as int),
        i == 0 ==> spec_float_eq(r, r),
{
    Double::from_i128(i as i128).value.to_bits() as u64
}

/// Relies on `rustc_apfloat`'s `Add` impl (round to nearest, ties to even).
#[verifier::external_body]
pub fn float_add(a: u64, b: u64) -> (r: u64)
    ensures
        r == spec_float_add(a, b),
{
    (Double::from_bits(a as u128) + Double::from_bits(b as u128)).value.to_bits() as u64
}

/// Relies on `rustc_apfloat`'s `Sub` impl (round to nearest, ties to even).
#[verifier::external_body]
pub fn float_sub(a: u64, b: u64) -> (r: u64)
    ensures
        r == spec_float_sub(a, b),
{
    (Double::from_bits(a as u128) - Double::from_bits(b as u128)).value.to_bits() as u64
}

/// Relies on `rustc_apfloat`'s `Mul` impl (round to nearest, ties to even).
#[verifier::external_body]
pub fn float_mul(a: u64, b: u64) -> (r: u64)
    ensures
        r == spec_float_mul(a, b),
{
    (Double::from_bits(a as u128) * Double::from_bits(b as u128)).value.to_bits() as u64
}

/// Relies on `rustc_apfloat`'s `Div` impl (round to nearest, ties to even).
#[verifier::external_body]
pub fn float_div(a: u64, b: u64) -> (r: u64)
    ensures
        r == spec_float_div(a, b),
{
    (Double::from_bits(a as u128) / Double::from_bits(b as u128)).value.to_bits() as u64
}

/// Relies on `rustc_apfloat`'s `Rem` impl, which is C `fmod`.
#[verifier::external_body]
pub fn float_rem(a: u64, b: u64) -> (r: u64)
    ensures
        r == spec_float_rem(a, b),
{
    (Double::from_bits(a as u128) % Double::from_bits(b as u128)).value.to_bits() as u64
}

/// Relies on `rustc_apfloat`'s `PartialEq` impl: IEEE equality, under which
/// the two zeroes are equal and a NaN equals nothing.
#[verifier::external_body]
pub fn float_eq(a: u64, b: u64) -> (r: bool)
    ensures
        r == spec_float_eq(a, b),
{
    Double::from_bits(a as u128) == Double::from_bits(b as u128)
}

/// Relies on `rustc_apfloat`'s `PartialOrd` impl: IEEE ordering, under which
/// any comparison against a NaN is false.
#[verifier::external_body]
pub fn float_lt(a: u64, b: u64) -> (r: bool)
    ensures
        r == spec_float_lt(a, b),
{
    Double::from_bits(a as u128) < Double::from_bits(b as u128)
}

/// Relies on `rustc_apfloat`'s `PartialOrd` impl: IEEE ordering, under which
/// any comparison against a NaN is false.
#[verifier::external_body]
pub fn float_le(a: u64, b: u64) -> (r: bool)
    ensures
        r == spec_float_le(a, b),
{
    Double::from_bits(a as u128) <= Double::from_bits(b as u128)
}

/// Relies on `rustc_apfloat`'s `FromStr` impl: correctly rounded decimal
/// conversion, failing on text that is not a decimal number.
#[verifier::external_body]
pub fn float_of_dec(s: &str) -> (r: Option<u64>)
    ensures
        r == spec_float_of_dec(s@),
{
    s.parse::<Double>().ok().map(|d| d.to_bits() as u64)
}

/// Relies on `rustc_apfloat`'s `Display` impl: a decimal rendering of the
/// value, without padding, that depends on the bit pattern alone.
#[verifier::external_body]
pub fn float_to_string(b: u64) -> (r: String)
    ensures
        r@ == spec_float_str(b),
{
    format!("{}", Double::from_bits(b as u128))
}

/// Whether a float value is a zero of either sign.
pub fn float_is_zero(b: u64) -> (r: bool)
    ensures
        r == spec_float_is_zero(b),
{
    let z = float_of_int(0);
    float_eq(b, z)
}

} // verus!
