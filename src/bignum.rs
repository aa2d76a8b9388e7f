//! The arbitrary-precision naturals of `num_bigint`, seen through their value.

use vstd::prelude::*;
use num_bigint::BigUint;

verus! {

#[verifier::external_type_specification]
#[verifier::external_body]
pub struct ExBigUint(BigUint);

/// The natural number that a `BigUint` holds.
pub uninterp spec fn big_value(b: BigUint) -> nat;

/// The decimal numeral of `n`: most significant digit first, no leading
/// zeros, and `"0"` for zero.
pub open spec fn decimal_of(n: nat) -> Seq<char>
    decreases n,
{
    if n < 10 {
        seq![digit_char(n)]
    } else {
        decimal_of(n / 10).push(digit_char(n % 10))
    }
}

/// The character of the decimal digit `d < 10`.
pub open spec fn digit_char(d: nat) -> char {
    (('0' as u32) + d) as char
}

/// Relies on `impl From<u32> for BigUint`: the result holds `v`.
#[verifier::external_body]
pub(crate) fn big_from_u32(v: u32) -> (r: BigUint)
    ensures
        big_value(r) == v as nat,
{
    BigUint::from(v)
}

/// Relies on `impl Add<&BigUint> for &BigUint`: exact addition, no reduction.
#[verifier::external_body]
pub(crate) fn big_add(a: &BigUint, b: &BigUint) -> (r: BigUint)
    ensures
        big_value(r) == big_value(*a) + big_value(*b),
{
    a + b
}

/// Relies on `impl Display for BigUint` (through `to_str_radix(10)`): the
/// decimal numeral of the value.
#[verifier::external_body]
pub(crate) fn big_to_decimal(b: &BigUint) -> (r: String)
    ensures
        r@ == decimal_of(big_value(*b)),
{
    b.to_string()
}

} // verus!
