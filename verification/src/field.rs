//! Arithmetic of the Baby Bear field on canonical `u32` representatives.
//!
//! A field element is held as the integer in `0..ORDER` that represents it.
//! The three operations the round function needs are carried out by the
//! `p3_baby_bear` implementation; their contracts below state the result as
//! ordinary integer arithmetic modulo `ORDER`.

use p3_baby_bear::BabyBear;
use p3_field::AbstractField;
use p3_field::PrimeField32;
use vstd::arithmetic::div_mod::lemma_mul_mod_noop_general;
use vstd::arithmetic::power::lemma_pow1;
use vstd::arithmetic::power::lemma_pow_adds;
use vstd::arithmetic::power::pow;
use vstd::prelude::*;

verus! {

/// The order of the field: the Baby Bear prime `2^31 - 2^27 + 1`.
pub const ORDER: u32 = 2013265921;

/// A `u32` is a reduced field element when it lies below the order.
pub open spec fn is_reduced(x: u32) -> bool {
    x < ORDER
}

/// Every entry of `s` is a reduced field element.
pub open spec fn all_reduced(s: Seq<u32>) -> bool {
    forall|i: int| 0 <= i < s.len() ==> is_reduced(#[trigger] s[i])
}

/// Field addition of the elements represented by `a` and `b`.
pub open spec fn add_mod(a: int, b: int) -> int {
    (a + b) % (ORDER as int)
}

/// Field multiplication of the elements represented by `a` and `b`.
pub open spec fn mul_mod(a: int, b: int) -> int {
    (a * b) % (ORDER as int)
}

/// The element `x` raised to the power `e`.
pub open spec fn pow_mod(x: int, e: nat) -> int {
    pow(x, e) % (ORDER as int)
}

/// Calls `BabyBear::from_wrapped_u32` and reads the element back with
/// `as_canonical_u32`. Trusted: the result is the remainder of `n` modulo the
/// order, which is what the conversion of a raw word into the field is
/// documented to give.
#[verifier::external_body]
pub(crate) fn reduce(n: u32) -> (r: u32)
    ensures
        r == n % ORDER,
{
    BabyBear::from_wrapped_u32(n).as_canonical_u32()
}

/// Calls the `+` of `BabyBear` on the elements that `a` and `b` stand for.
/// Trusted: the canonical representative of the sum is `(a + b) mod ORDER`.
#[verifier::external_body]
pub(crate) fn add_elements(a: u32, b: u32) -> (r: u32)
    ensures
        r == add_mod(a as int, b as int),
{
    (BabyBear::from_wrapped_u32(a) + BabyBear::from_wrapped_u32(b)).as_canonical_u32()
}

/// Calls the `*` of `BabyBear` on the elements that `a` and `b` stand for.
/// Trusted: the canonical representative of the product is
/// `(a * b) mod ORDER`.
#[verifier::external_body]
pub(crate) fn mul_elements(a: u32, b: u32) -> (r: u32)
    ensures
        r == mul_mod(a as int, b as int),
{
    (BabyBear::from_wrapped_u32(a) * BabyBear::from_wrapped_u32(b)).as_canonical_u32()
}

/// Two field multiplications starting from `a` give its cube, and two more
/// starting from the cube give its seventh power.
pub proof fn lemma_powers_by_multiplication(a: int)
    ensures
        mul_mod(mul_mod(a, a), a) == pow_mod(a, 3),
        mul_mod(mul_mod(pow_mod(a, 3), pow_mod(a, 3)), a) == pow_mod(a, 7),
{
    let m = ORDER as int;
    lemma_pow1(a);
    lemma_pow_adds(a, 1, 1);
    lemma_pow_adds(a, 2, 1);
    lemma_pow_adds(a, 3, 3);
    lemma_pow_adds(a, 6, 1);
    assert(pow(a, 2) == a * a);
    assert(pow(a, 3) == (a * a) * a);
    lemma_mul_mod_noop_general(a * a, a, m);
    let c = pow(a, 3);
    assert(pow(a, 6) == c * c);
    assert(pow(a, 7) == (c * c) * a);
    lemma_mul_mod_noop_general(c, c, m);
    lemma_mul_mod_noop_general(c * c, a, m);
}

} // verus!
