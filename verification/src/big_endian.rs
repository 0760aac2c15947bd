//! Numbers written as base-256 digits, most significant digit first.

use vstd::prelude::*;

verus! {

/// 256 to the power `n`.
pub open spec fn pow256(n: nat) -> nat
    decreases n,
{
    if n == 0 {
        1
    } else {
        256 * pow256((n - 1) as nat)
    }
}

/// The number that `digits` writes in base 256, most significant digit first.
pub open spec fn be_value(digits: Seq<u8>) -> nat
    decreases digits.len(),
{
    if digits.len() == 0 {
        0
    } else {
        be_value(digits.drop_last()) * 256 + digits.last() as nat
    }
}

/// The `len` least significant base-256 digits of `value`, most significant
/// first: the big-endian form of `value`, padded with zeros on the left.
pub open spec fn be_digits(value: nat, len: nat) -> Seq<u8>
    decreases len,
{
    if len == 0 {
        Seq::empty()
    } else {
        be_digits(value / 256, (len - 1) as nat).push((value % 256) as u8)
    }
}

/// `len` zero digits.
pub open spec fn zeros(len: nat) -> Seq<u8> {
    Seq::new(len, |i: int| 0u8)
}

/// `len` digits of the largest value, 255.
pub open spec fn all_ones(len: nat) -> Seq<u8> {
    Seq::new(len, |i: int| 255u8)
}

/// `digits` with as many zeros in front as it takes to fill `len` places.
pub open spec fn left_padded(digits: Seq<u8>, len: nat) -> Seq<u8>
    recommends
        digits.len() <= len,
{
    zeros((len - digits.len()) as nat) + digits
}

/// `digits` is the shortest way to write its value: it has a digit, and no
/// zero in front unless that zero is the only digit.
pub open spec fn is_minimal(digits: Seq<u8>) -> bool {
    digits.len() >= 1 && (digits.len() > 1 ==> digits[0] != 0)
}

pub proof fn lemma_pow256_positive(n: nat)
    ensures
        pow256(n) >= 1,
    decreases n,
{
    if n > 0 {
        lemma_pow256_positive((n - 1) as nat);
    }
}

pub proof fn lemma_pow256_increases(a: nat, b: nat)
    requires
        a <= b,
    ensures
        pow256(a) <= pow256(b),
    decreases b,
{
    if a < b {
        lemma_pow256_increases(a, (b - 1) as nat);
        lemma_pow256_positive((b - 1) as nat);
    }
}

/// `len` digits write a number below 256 to the power `len`.
pub proof fn lemma_value_below_pow(digits: Seq<u8>)
    ensures
        be_value(digits) < pow256(digits.len()),
    decreases digits.len(),
{
    if digits.len() > 0 {
        lemma_value_below_pow(digits.drop_last());
    }
}

/// The value of two digit sequences written one after the other.
pub proof fn lemma_value_concat(high: Seq<u8>, low: Seq<u8>)
    ensures
        be_value(high + low) == be_value(high) * pow256(low.len()) + be_value(low),
    decreases low.len(),
{
    let h = be_value(high);
    if low.len() == 0 {
        assert(high + low =~= high);
        assert(h * 1 == h);
    } else {
        let whole = high + low;
        let rest = low.drop_last();
        assert(whole.drop_last() =~= high + rest);
        assert(whole.last() == low.last());
        lemma_value_concat(high, rest);
        let p = pow256(rest.len());
        let r = be_value(rest);
        assert(pow256(low.len()) == 256 * p);
        assert((h * p + r) * 256 == h * (256 * p) + r * 256) by (nonlinear_arith);
    }
}

pub proof fn lemma_zeros_value(len: nat)
    ensures
        be_value(zeros(len)) == 0,
    decreases len,
{
    if len > 0 {
        assert(zeros(len).drop_last() =~= zeros((len - 1) as nat));
        lemma_zeros_value((len - 1) as nat);
    }
}

pub proof fn lemma_all_ones_value(len: nat)
    ensures
        be_value(all_ones(len)) == pow256(len) - 1,
    decreases len,
{
    if len > 0 {
        assert(all_ones(len).drop_last() =~= all_ones((len - 1) as nat));
        lemma_all_ones_value((len - 1) as nat);
    }
}

/// Zeros in front change no value.
pub proof fn lemma_left_padded_value(digits: Seq<u8>, len: nat)
    requires
        digits.len() <= len,
    ensures
        left_padded(digits, len).len() == len,
        be_value(left_padded(digits, len)) == be_value(digits),
{
    let pad = zeros((len - digits.len()) as nat);
    lemma_zeros_value((len - digits.len()) as nat);
    lemma_value_concat(pad, digits);
    assert(0 * pow256(digits.len()) == 0);
}

/// A number that is written without a zero in front is at least 256 to the
/// power of the places after its first digit.
pub proof fn lemma_minimal_value_at_least(digits: Seq<u8>)
    requires
        digits.len() >= 1,
        digits[0] != 0,
    ensures
        be_value(digits) >= pow256((digits.len() - 1) as nat),
{
    let head = digits.take(1);
    let tail = digits.skip(1);
    assert(digits =~= head + tail);
    lemma_value_concat(head, tail);
    assert(head.drop_last().len() == 0);
    assert(be_value(head.drop_last()) == 0);
    assert(be_value(head) == digits[0] as nat);
    let p = pow256(tail.len());
    let d = digits[0] as nat;
    assert(d * p >= p) by (nonlinear_arith)
        requires
            d >= 1,
    ;
}

/// A minimal form of a number below 256 to the power `len` has at most `len`
/// digits.
pub proof fn lemma_minimal_length(digits: Seq<u8>, len: nat)
    requires
        is_minimal(digits),
        be_value(digits) < pow256(len),
        len >= 1,
    ensures
        digits.len() <= len,
{
    if digits.len() > len {
        lemma_minimal_value_at_least(digits);
        lemma_pow256_increases(len, (digits.len() - 1) as nat);
    }
}

/// Two digit sequences of one length that write the same number are the same.
pub proof fn lemma_value_injective(a: Seq<u8>, b: Seq<u8>)
    requires
        a.len() == b.len(),
        be_value(a) == be_value(b),
    ensures
        a == b,
    decreases a.len(),
{
    if a.len() == 0 {
        assert(a =~= b);
    } else {
        lemma_value_injective(a.drop_last(), b.drop_last());
        assert(a =~= a.drop_last().push(a.last()));
        assert(b =~= b.drop_last().push(b.last()));
    }
}

/// `be_digits` has the length asked for and, where the value fits, writes it.
pub proof fn lemma_be_digits(value: nat, len: nat)
    ensures
        be_digits(value, len).len() == len,
        value < pow256(len) ==> be_value(be_digits(value, len)) == value,
    decreases len,
{
    if len > 0 {
        lemma_be_digits(value / 256, (len - 1) as nat);
        let rest = be_digits(value / 256, (len - 1) as nat);
        let last = (value % 256) as u8;
        assert(rest.push(last).drop_last() =~= rest);
        if value < pow256(len) {
            assert(value / 256 < pow256((len - 1) as nat));
        }
    }
}

/// The digits of a number are the only sequence of their length that writes it.
pub proof fn lemma_digits_of_value(digits: Seq<u8>)
    ensures
        be_digits(be_value(digits), digits.len()) == digits,
{
    lemma_value_below_pow(digits);
    lemma_be_digits(be_value(digits), digits.len());
    lemma_value_injective(be_digits(be_value(digits), digits.len()), digits);
}

} // verus!
