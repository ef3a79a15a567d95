//! Trusted boundary around the arbitrary-precision integers of the `num`
//! crate. Every verified fact about the unbounded tier of
//! [`crate::scalable_integer::ScalableInteger`] rests on the contracts below,
//! each of which states what `num-bigint` documents and implements.

use vstd::prelude::*;
use crate::gcd::trunc_div;
use num::BigInt;
use num::Integer;

verus! {

#[verifier::external_type_specification]
#[verifier::external_body]
pub struct ExBigInt(BigInt);

/// The mathematical integer that a `BigInt` stores.
pub uninterp spec fn big_value(b: BigInt) -> int;

/// Relies on `BigInt: From<i128>`: the result stores exactly `v`.
#[verifier::external_body]
pub(crate) fn big_from_i128(v: i128) -> (r: BigInt)
    ensures
        big_value(r) == v,
{
    BigInt::from(v)
}

/// Relies on `BigInt: From<u128>`: the result stores exactly `v`.
#[verifier::external_body]
pub(crate) fn big_from_u128(v: u128) -> (r: BigInt)
    ensures
        big_value(r) == v,
{
    BigInt::from(v)
}

/// Relies on `i128::try_from(&BigInt)`, which succeeds exactly when the
/// stored integer fits in an `i128`.
#[verifier::external_body]
pub(crate) fn big_to_i128(b: &BigInt) -> (r: Option<i128>)
    ensures
        match r {
            Some(v) => v == big_value(*b),
            None => big_value(*b) < i128::MIN || big_value(*b) > i128::MAX,
        },
{
    i128::try_from(b).ok()
}

/// Relies on `Add for &BigInt`: arbitrary-precision addition is exact.
#[verifier::external_body]
pub(crate) fn big_add(a: &BigInt, b: &BigInt) -> (r: BigInt)
    ensures
        big_value(r) == big_value(*a) + big_value(*b),
{
    a + b
}

/// Relies on `Mul for &BigInt`: arbitrary-precision multiplication is exact.
#[verifier::external_body]
pub(crate) fn big_mul(a: &BigInt, b: &BigInt) -> (r: BigInt)
    ensures
        big_value(r) == big_value(*a) * big_value(*b),
{
    a * b
}

/// Relies on `Neg for &BigInt`: negation is exact.
#[verifier::external_body]
pub(crate) fn big_neg(a: &BigInt) -> (r: BigInt)
    ensures
        big_value(r) == -big_value(*a),
{
    -a
}

/// Relies on `Div for &BigInt`: quotient of truncated division
/// (`num-integer`'s `div_rem`). Division by zero panics, so it is excluded.
#[verifier::external_body]
pub(crate) fn big_div(a: &BigInt, b: &BigInt) -> (r: BigInt)
    requires
        big_value(*b) != 0,
    ensures
        big_value(r) == trunc_div(big_value(*a), big_value(*b)),
{
    a / b
}

/// Relies on `PartialEq for BigInt`: equality of the stored integers.
#[verifier::external_body]
pub(crate) fn big_eq(a: &BigInt, b: &BigInt) -> (r: bool)
    ensures
        r == (big_value(*a) == big_value(*b)),
{
    a == b
}

/// Relies on `PartialOrd for BigInt`: order of the stored integers.
#[verifier::external_body]
pub(crate) fn big_lt(a: &BigInt, b: &BigInt) -> (r: bool)
    ensures
        r == (big_value(*a) < big_value(*b)),
{
    a < b
}

/// Relies on `num_integer::Integer::gcd` for `BigInt`: the greatest common
/// divisor of the stored integers, which is always non-negative.
#[verifier::external_body]
pub(crate) fn big_gcd(a: &BigInt, b: &BigInt) -> (r: BigInt)
    ensures
        big_value(r) == crate::gcd::int_gcd(big_value(*a), big_value(*b)),
{
    a.gcd(b)
}

/// Relies on `Clone for BigInt`: the copy stores the same integer.
pub assume_specification[ <BigInt as Clone>::clone ](a: &BigInt) -> (r: BigInt)
    ensures
        big_value(r) == big_value(*a),
;

/// Relies on `Display for BigInt`: the decimal digits of the stored
/// integer, most significant first and without leading zeros, behind a
/// leading minus sign when negative.
#[verifier::external_body]
pub(crate) fn big_to_string(a: &BigInt) -> (r: String)
    ensures
        r@ == crate::render::int_str(big_value(*a)),
{
    a.to_string()
}

/// Relies on `num_integer::Integer::is_even` for `BigInt`.
#[verifier::external_body]
pub(crate) fn big_is_even(a: &BigInt) -> (r: bool)
    ensures
        r == (big_value(*a) % 2 == 0),
{
    a.is_even()
}

} // verus!
