//! The attempt counter: a non-negative number of any size, kept by
//! `num_bigint`. Everything the search knows of such a number it knows
//! through the contracts in this file.

use crate::big_endian::{be_value, is_minimal, pow256};
use num_bigint::BigUint;
use num_traits::{One, Zero};
use vstd::arithmetic::power2::{lemma2_to64, lemma_pow2_adds, pow2};
use vstd::prelude::*;

verus! {

#[verifier::external_type_specification]
#[verifier::external_body]
pub struct ExBigUint(BigUint);

/// What a `BigUint` holds: its base-256 digits, most significant first, with
/// no zero in front (the number zero is the single digit 0).
pub uninterp spec fn digits_of(number: BigUint) -> Seq<u8>;

/// The number itself.
pub open spec fn value_of(number: BigUint) -> nat {
    be_value(digits_of(number))
}

/// The number of bits of an entropy buffer.
pub const ENTROPY_BITS: usize = 256;

/// The first counter value that no entropy buffer can hold: 2 to the power
/// 256, which is 256 to the power 32.
pub open spec fn counter_limit() -> nat {
    0x1_0000_0000_0000_0000_0000_0000_0000_0000_0000_0000_0000_0000_0000_0000_0000_0000nat
}

/// The counter limit is 256 to the power of the 32 bytes of an entropy
/// buffer.
pub proof fn lemma_counter_limit()
    ensures
        counter_limit() == pow256(32),
{
    assert(pow256(0) == 1);
    assert(pow256(1) == 0x100nat);
    assert(pow256(2) == 0x1_0000nat);
    assert(pow256(3) == 0x100_0000nat);
    assert(pow256(4) == 0x1_0000_0000nat);
    assert(pow256(5) == 0x100_0000_0000nat);
    assert(pow256(6) == 0x1_0000_0000_0000nat);
    assert(pow256(7) == 0x100_0000_0000_0000nat);
    assert(pow256(8) == 0x1_0000_0000_0000_0000nat);
    assert(pow256(9) == 0x100_0000_0000_0000_0000nat);
    assert(pow256(10) == 0x1_0000_0000_0000_0000_0000nat);
    assert(pow256(11) == 0x100_0000_0000_0000_0000_0000nat);
    assert(pow256(12) == 0x1_0000_0000_0000_0000_0000_0000nat);
    assert(pow256(13) == 0x100_0000_0000_0000_0000_0000_0000nat);
    assert(pow256(14) == 0x1_0000_0000_0000_0000_0000_0000_0000nat);
    assert(pow256(15) == 0x100_0000_0000_0000_0000_0000_0000_0000nat);
    assert(pow256(16) == 0x1_0000_0000_0000_0000_0000_0000_0000_0000nat);
    assert(pow256(17) == 0x100_0000_0000_0000_0000_0000_0000_0000_0000nat);
    assert(pow256(18) == 0x1_0000_0000_0000_0000_0000_0000_0000_0000_0000nat);
    assert(pow256(19) == 0x100_0000_0000_0000_0000_0000_0000_0000_0000_0000nat);
    assert(pow256(20) == 0x1_0000_0000_0000_0000_0000_0000_0000_0000_0000_0000nat);
    assert(pow256(21) == 0x100_0000_0000_0000_0000_0000_0000_0000_0000_0000_0000nat);
    assert(pow256(22) == 0x1_0000_0000_0000_0000_0000_0000_0000_0000_0000_0000_0000nat);
    assert(pow256(23) == 0x100_0000_0000_0000_0000_0000_0000_0000_0000_0000_0000_0000nat);
    assert(pow256(24) == 0x1_0000_0000_0000_0000_0000_0000_0000_0000_0000_0000_0000_0000nat);
    assert(pow256(25) == 0x100_0000_0000_0000_0000_0000_0000_0000_0000_0000_0000_0000_0000nat);
    assert(pow256(26) == 0x1_0000_0000_0000_0000_0000_0000_0000_0000_0000_0000_0000_0000_0000nat);
    assert(pow256(27) == 0x100_0000_0000_0000_0000_0000_0000_0000_0000_0000_0000_0000_0000_0000nat);
    assert(pow256(28) == 0x1_0000_0000_0000_0000_0000_0000_0000_0000_0000_0000_0000_0000_0000_0000nat);
    assert(pow256(29) == 0x100_0000_0000_0000_0000_0000_0000_0000_0000_0000_0000_0000_0000_0000_0000nat);
    assert(pow256(30) == 0x1_0000_0000_0000_0000_0000_0000_0000_0000_0000_0000_0000_0000_0000_0000_0000nat);
    assert(pow256(31) == 0x100_0000_0000_0000_0000_0000_0000_0000_0000_0000_0000_0000_0000_0000_0000_0000nat);
    assert(pow256(32) == 0x1_0000_0000_0000_0000_0000_0000_0000_0000_0000_0000_0000_0000_0000_0000_0000_0000nat);
}

/// Calls `BigUint::zero()` of `num_traits::Zero`. Trusted: the result is the
/// number 0.
#[verifier::external_body]
pub(crate) fn zero() -> (r: BigUint)
    ensures
        value_of(r) == 0,
{
    BigUint::zero()
}

/// Calls `BigUint::one()` of `num_traits::One`. Trusted: the result is the
/// number 1.
#[verifier::external_body]
pub(crate) fn one() -> (r: BigUint)
    ensures
        value_of(r) == 1,
{
    BigUint::one()
}

/// Calls `<<` of `&BigUint` with a `usize`. Trusted: the result is `number`
/// times 2 to the power `bits`. The shift allocates the new digits, so the
/// contract asks for a shift that stays small.
#[verifier::external_body]
pub(crate) fn shift_left(number: &BigUint, bits: usize) -> (r: BigUint)
    requires
        bits <= 4096,
    ensures
        value_of(r) == value_of(*number) * pow2(bits as nat),
{
    number << bits
}

/// Calls `-` of two `&BigUint`. Trusted: the result is the difference. The
/// outside function panics where the difference would be negative, so the
/// contract leaves those inputs out.
#[verifier::external_body]
pub(crate) fn subtract(minuend: &BigUint, subtrahend: &BigUint) -> (r: BigUint)
    requires
        value_of(*subtrahend) <= value_of(*minuend),
    ensures
        value_of(r) == value_of(*minuend) - value_of(*subtrahend),
{
    minuend - subtrahend
}

/// Calls `<=` of two `BigUint`. Trusted: it compares the numbers.
#[verifier::external_body]
pub(crate) fn at_most(left: &BigUint, right: &BigUint) -> (r: bool)
    ensures
        r == (value_of(*left) <= value_of(*right)),
{
    left <= right
}

/// Calls `==` of two `BigUint`. Trusted: it compares the numbers.
#[verifier::external_body]
pub(crate) fn same_number(left: &BigUint, right: &BigUint) -> (r: bool)
    ensures
        r == (value_of(*left) == value_of(*right)),
{
    left == right
}

/// Calls `+=` of `BigUint` with a `u32`. Trusted: the number grows by `step`.
#[verifier::external_body]
pub(crate) fn add_small(number: &mut BigUint, step: u32)
    ensures
        value_of(*final(number)) == value_of(*old(number)) + step,
{
    *number += step;
}

/// Calls `%` of `&BigUint` with a `u64`. Trusted: the result is the remainder
/// of the division. The outside function panics on a zero divisor, so the
/// contract leaves it out.
#[verifier::external_body]
pub(crate) fn remainder(number: &BigUint, divisor: u64) -> (r: BigUint)
    requires
        divisor != 0,
    ensures
        value_of(r) == value_of(*number) % (divisor as nat),
{
    number % divisor
}

/// Calls `BigUint::to_bytes_be`. Trusted: the result is the digits of the
/// number, in their shortest form (one zero digit for the number 0).
#[verifier::external_body]
pub(crate) fn to_bytes_be(number: &BigUint) -> (r: Vec<u8>)
    ensures
        r@ == digits_of(*number),
        is_minimal(r@),
{
    number.to_bytes_be()
}

proof fn lemma_pow2_of_bytes(n: nat)
    ensures
        pow2(8 * n) == pow256(n),
    decreases n,
{
    lemma2_to64();
    if n > 0 {
        lemma_pow2_of_bytes((n - 1) as nat);
        lemma_pow2_adds(8, 8 * (n - 1) as nat);
        assert(8 + 8 * (n - 1) == 8 * n);
    }
}

/// The largest counter value: every bit of a 32-byte entropy buffer set,
/// 2 to the power 256, less 1.
pub fn max_entropy() -> (r: BigUint)
    ensures
        value_of(r) == counter_limit() - 1,
{
    let unit = one();
    let limit = shift_left(&unit, ENTROPY_BITS);
    proof {
        lemma_pow2_of_bytes(32);
        lemma_counter_limit();
    }
    subtract(&limit, &unit)
}

/// Whether `divisor` divides `number`.
pub fn is_multiple_of(number: &BigUint, divisor: u64) -> (r: bool)
    requires
        divisor != 0,
    ensures
        r == (value_of(*number) % (divisor as nat) == 0),
{
    let rest = remainder(number, divisor);
    let nothing = zero();
    same_number(&rest, &nothing)
}

} // verus!
