//! From a counter value to the 32 bytes of entropy that a seed phrase of 24
//! words is made from.

use crate::big_endian::{
    all_ones, be_digits, be_value, left_padded, lemma_all_ones_value, lemma_be_digits,
    lemma_digits_of_value, lemma_left_padded_value, lemma_minimal_length,
    lemma_value_injective, lemma_zeros_value, zeros,
};
use crate::counter::{counter_limit, digits_of, lemma_counter_limit, to_bytes_be, value_of};
use num_bigint::BigUint;
use vstd::prelude::*;

verus! {

/// The length of an entropy buffer, in bytes.
pub const ENTROPY_LEN: usize = 32;

/// The entropy buffer of a counter value: the value in base 256, most
/// significant byte first, on exactly 32 bytes.
pub open spec fn entropy_bytes(value: nat) -> Seq<u8> {
    be_digits(value, ENTROPY_LEN as nat)
}

/// The entropy buffer of a counter value below 2 to the power 256 has 32
/// bytes, and they write the value.
pub proof fn lemma_entropy_writes_value(value: nat)
    requires
        value < counter_limit(),
    ensures
        entropy_bytes(value).len() == ENTROPY_LEN,
        be_value(entropy_bytes(value)) == value,
{
    lemma_counter_limit();
    lemma_be_digits(value, ENTROPY_LEN as nat);
}

/// Two counter values below 2 to the power 256 with one entropy buffer are
/// one value.
pub proof fn lemma_entropy_is_injective(first: nat, second: nat)
    requires
        first < counter_limit(),
        second < counter_limit(),
        entropy_bytes(first) == entropy_bytes(second),
    ensures
        first == second,
{
    lemma_entropy_writes_value(first);
    lemma_entropy_writes_value(second);
}

/// The entropy buffer of the counter value 0 is 32 zero bytes.
pub proof fn lemma_entropy_of_zero()
    ensures
        entropy_bytes(0) == zeros(ENTROPY_LEN as nat),
{
    lemma_entropy_writes_value(0);
    lemma_zeros_value(ENTROPY_LEN as nat);
    lemma_value_injective(entropy_bytes(0), zeros(ENTROPY_LEN as nat));
}

/// The entropy buffer of the largest counter value, 2 to the power 256 less
/// 1, is 32 bytes of 255.
pub proof fn lemma_entropy_of_max()
    ensures
        entropy_bytes((counter_limit() - 1) as nat) == all_ones(ENTROPY_LEN as nat),
{
    lemma_counter_limit();
    lemma_entropy_writes_value((counter_limit() - 1) as nat);
    lemma_all_ones_value(ENTROPY_LEN as nat);
    lemma_value_injective(
        entropy_bytes((counter_limit() - 1) as nat),
        all_ones(ENTROPY_LEN as nat),
    );
}

/// Writes `counter` into a buffer of 32 bytes, most significant byte first,
/// with zero bytes in front of its digits.
pub fn entropy_of(counter: &BigUint) -> (entropy: [u8; 32])
    requires
        value_of(*counter) < counter_limit(),
    ensures
        entropy@ == left_padded(digits_of(*counter), ENTROPY_LEN as nat),
        entropy@ == entropy_bytes(value_of(*counter)),
        be_value(entropy@) == value_of(*counter),
{
    let digits = to_bytes_be(counter);
    proof {
        lemma_counter_limit();
        lemma_minimal_length(digits@, ENTROPY_LEN as nat);
    }
    let count = digits.len();
    let offset = ENTROPY_LEN - count;
    let mut entropy = [0u8; 32];
    assert(entropy@ =~= zeros(ENTROPY_LEN as nat));
    let mut i: usize = 0;
    while i < count
        invariant
            count == digits.len(),
            count <= ENTROPY_LEN,
            offset == ENTROPY_LEN - count,
            i <= count,
            entropy@.len() == ENTROPY_LEN,
            forall|k: int| 0 <= k < offset ==> entropy@[k] == 0,
            forall|k: int| 0 <= k < i ==> entropy@[offset + k] == digits@[k],
        decreases count - i,
    {
        entropy[offset + i] = digits[i];
        i += 1;
    }
    proof {
        assert(entropy@ =~= left_padded(digits@, ENTROPY_LEN as nat));
        lemma_left_padded_value(digits@, ENTROPY_LEN as nat);
        lemma_digits_of_value(entropy@);
    }
    entropy
}

} // verus!
