//! The float kind of the value model, carried as IEEE binary32 bit patterns.
//!
//! Verified code never computes with floating point directly: every operation
//! on a bit pattern goes through a trusted wrapper over the software
//! implementation in the `rustc_apfloat` crate, which is a deterministic
//! function of its arguments. Each wrapper's result is named by an
//! uninterpreted spec function, so contracts can speak of the results exactly.

use vstd::prelude::*;

verus! {

use rustc_apfloat::Float;
use rustc_apfloat::Round;
use rustc_apfloat::ieee::Single;
use crate::text::Order;

/// The bit pattern of positive one.
pub const ONE_BITS: u32 = 0x3F80_0000;

/// The bit pattern of positive zero.
pub const ZERO_BITS: u32 = 0;

/// The bit pattern of positive ten.
pub const TEN_BITS: u32 = 0x4120_0000;

/// The binary32 sum of two values given by their bit patterns.
pub uninterp spec fn single_add(a: u32, b: u32) -> u32;

/// The binary32 difference of two values given by their bit patterns.
pub uninterp spec fn single_sub(a: u32, b: u32) -> u32;

/// The binary32 product of two values given by their bit patterns.
pub uninterp spec fn single_mul(a: u32, b: u32) -> u32;

/// The binary32 quotient of two values given by their bit patterns.
pub uninterp spec fn single_div(a: u32, b: u32) -> u32;

/// The binary32 remainder (fmod) of two values given by their bit patterns.
pub uninterp spec fn single_rem(a: u32, b: u32) -> u32;

/// The IEEE comparison of two binary32 bit patterns:
/// 0 below, 1 equal, 2 above, 3 unordered.
pub uninterp spec fn single_cmp(a: u32, b: u32) -> int;

/// The binary32 value (as bits) that a decimal text parses to.
pub uninterp spec fn single_from_text(s: Seq<char>) -> u32;

/// The decimal rendering of a binary32 bit pattern.
pub uninterp spec fn single_text(b: u32) -> Seq<char>;

/// The binary32 value (as bits) nearest to an unsigned 32-bit integer.
pub uninterp spec fn single_of_u32(n: u32) -> u32;

/// The binary32 value (as bits) nearest to a signed 128-bit integer.
pub uninterp spec fn single_of_int(i: i128) -> u32;

/// The integer a binary32 bit pattern converts to (rounding to nearest even
/// when `nearest`, truncating toward zero otherwise; saturating on overflow,
/// zero for a quiet result on NaN), and whether the conversion was exact.
pub uninterp spec fn single_to_int(b: u32, nearest: bool) -> (i128, bool);

/// Relies on rustc_apfloat's `Single` addition (round to nearest even).
#[verifier::external_body]
pub fn add_bits(a: u32, b: u32) -> (r: u32)
    ensures
        r == single_add(a, b),
{
    (Single::from_bits(a as u128) + Single::from_bits(b as u128)).value.to_bits() as u32
}

/// Relies on rustc_apfloat's `Single` subtraction (round to nearest even).
#[verifier::external_body]
pub fn sub_bits(a: u32, b: u32) -> (r: u32)
    ensures
        r == single_sub(a, b),
{
    (Single::from_bits(a as u128) - Single::from_bits(b as u128)).value.to_bits() as u32
}

/// Relies on rustc_apfloat's `Single` multiplication (round to nearest even).
#[verifier::external_body]
pub fn mul_bits(a: u32, b: u32) -> (r: u32)
    ensures
        r == single_mul(a, b),
{
    (Single::from_bits(a as u128) * Single::from_bits(b as u128)).value.to_bits() as u32
}

/// Relies on rustc_apfloat's `Single` division (round to nearest even).
#[verifier::external_body]
pub fn div_bits(a: u32, b: u32) -> (r: u32)
    ensures
        r == single_div(a, b),
{
    (Single::from_bits(a as u128) / Single::from_bits(b as u128)).value.to_bits() as u32
}

/// Relies on rustc_apfloat's `Single` remainder, which is C fmod.
#[verifier::external_body]
pub fn rem_bits(a: u32, b: u32) -> (r: u32)
    ensures
        r == single_rem(a, b),
{
    (Single::from_bits(a as u128) % Single::from_bits(b as u128)).value.to_bits() as u32
}

/// Relies on rustc_apfloat's `Single` IEEE partial order: NaN compares
/// unordered with everything, negative and positive zero compare equal.
#[verifier::external_body]
pub fn cmp_bits(a: u32, b: u32) -> (r: Option<Order>)
    ensures
        (r == Some(Order::Less)) == (single_cmp(a, b) == 0),
        (r == Some(Order::Equal)) == (single_cmp(a, b) == 1),
        (r == Some(Order::Greater)) == (single_cmp(a, b) == 2),
        (r is None) == (single_cmp(a, b) == 3),
{
    match Single::from_bits(a as u128).partial_cmp(&Single::from_bits(b as u128)) {
        Some(core::cmp::Ordering::Less) => Some(Order::Less),
        Some(core::cmp::Ordering::Equal) => Some(Order::Equal),
        Some(core::cmp::Ordering::Greater) => Some(Order::Greater),
        None => None,
    }
}

/// Relies on rustc_apfloat's `Single` decimal parsing (round to nearest
/// even); a non-empty all-digit text always parses.
#[verifier::external_body]
pub fn parse_bits(s: &str) -> (r: Option<u32>)
    ensures
        r matches Some(b) ==> b == single_from_text(s@),
        crate::text::is_decimal_text(s@) ==> r is Some,
{
    match s.parse::<Single>() {
        Ok(x) => Some(x.to_bits() as u32),
        Err(_) => None,
    }
}

/// Relies on rustc_apfloat's `Single` decimal rendering: a decimal form at
/// the value's natural precision, scientific notation for extreme
/// magnitudes, `NaN` and signed `Inf` for the non-finite values.
#[verifier::external_body]
pub fn render_bits(b: u32) -> (r: String)
    ensures
        r@ == single_text(b),
{
    format!("{}", Single::from_bits(b as u128))
}

/// Relies on rustc_apfloat's `Single` conversion from an unsigned integer
/// (round to nearest even).
#[verifier::external_body]
pub fn u32_to_bits(n: u32) -> (r: u32)
    ensures
        r == single_of_u32(n),
{
    Single::from_u128(n as u128).value.to_bits() as u32
}

/// Relies on rustc_apfloat's `Single` conversion from a signed integer
/// (round to nearest even).
#[verifier::external_body]
pub fn int_to_bits(i: i128) -> (r: u32)
    ensures
        r == single_of_int(i),
{
    Single::from_i128(i).value.to_bits() as u32
}

/// Relies on rustc_apfloat's `Single` conversion to a 128-bit integer:
/// deterministic on every input, saturating on overflow and zero on NaN,
/// with an exactness flag.
#[verifier::external_body]
pub fn bits_to_int(b: u32, nearest: bool) -> (r: (i128, bool))
    ensures
        r == single_to_int(b, nearest),
{
    let round = if nearest {
        Round::NearestTiesToEven
    } else {
        Round::TowardZero
    };
    let mut exact = false;
    let v = Single::from_bits(b as u128).to_i128_r(128, round, &mut exact);
    (v.value, exact)
}

/// Exponentiation of a binary32 bit pattern by a non-negative integer, by
/// squaring: even exponents square the base, an odd exponent multiplies one
/// more factor of the base on the result.
pub open spec fn single_pow(b: u32, e: nat) -> u32
    decreases e,
{
    if e == 0 {
        ONE_BITS
    } else {
        let r = single_pow(single_mul(b, b), e / 2);
        if e % 2 == 1 {
            single_mul(r, b)
        } else {
            r
        }
    }
}

/// Raises a binary32 bit pattern to a non-negative integer power by squaring.
pub fn pow_bits(b: u32, e: u128) -> (r: u32)
    ensures
        r == single_pow(b, e as nat),
    decreases e,
{
    if e == 0 {
        ONE_BITS
    } else {
        let sq = mul_bits(b, b);
        let r = pow_bits(sq, e / 2);
        if e % 2 == 1 {
            mul_bits(r, b)
        } else {
            r
        }
    }
}

} // verus!
