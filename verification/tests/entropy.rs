use btc_cracker::counter::{is_multiple_of, max_entropy};
use btc_cracker::entropy::{entropy_of, ENTROPY_LEN};
use num_bigint::BigUint;

#[test]
fn entropy_of_zero_is_all_zero_bytes() {
    assert_eq!(entropy_of(&BigUint::from(0u32)), [0u8; 32]);
}

#[test]
fn entropy_of_largest_counter_is_all_ones() {
    let largest = (BigUint::from(1u32) << 256usize) - BigUint::from(1u32);
    assert_eq!(entropy_of(&largest), [0xFFu8; 32]);
}

#[test]
fn entropy_of_one_ends_in_one() {
    let mut expected = [0u8; 32];
    expected[31] = 1;
    assert_eq!(entropy_of(&BigUint::from(1u32)), expected);
}

#[test]
fn entropy_of_two_digits_is_right_aligned() {
    // 1125 is 4 * 256 + 101
    let mut expected = [0u8; 32];
    expected[30] = 4;
    expected[31] = 101;
    assert_eq!(entropy_of(&BigUint::from(1125u32)), expected);
}

#[test]
fn entropy_of_256_carries_into_the_next_byte() {
    let mut expected = [0u8; 32];
    expected[30] = 1;
    assert_eq!(entropy_of(&BigUint::from(256u32)), expected);
}

#[test]
fn entropy_of_a_full_width_value_keeps_every_byte() {
    let mut bytes = [0u8; 32];
    for (i, byte) in bytes.iter_mut().enumerate() {
        *byte = (i as u8) + 1;
    }
    let counter = BigUint::from_bytes_be(&bytes);
    assert_eq!(entropy_of(&counter), bytes);
}

#[test]
fn entropy_of_a_power_of_two_sets_one_bit() {
    let counter = BigUint::from(1u32) << 255usize;
    let mut expected = [0u8; 32];
    expected[0] = 0x80;
    assert_eq!(entropy_of(&counter), expected);
}

#[test]
fn entropy_has_the_fixed_length() {
    assert_eq!(ENTROPY_LEN, 32);
    assert_eq!(entropy_of(&BigUint::from(77u32)).len(), ENTROPY_LEN);
}

#[test]
fn entropy_is_the_big_endian_form_of_the_counter() {
    for value in [0u64, 1, 255, 256, 65_535, 65_536, 0xDEAD_BEEF, u64::MAX] {
        let entropy = entropy_of(&BigUint::from(value));
        assert_eq!(BigUint::from_bytes_be(&entropy), BigUint::from(value));
        assert_eq!(&entropy[24..], &value.to_be_bytes());
        assert_eq!(&entropy[..24], &[0u8; 24]);
    }
}

#[test]
fn max_entropy_is_two_to_the_256_less_one() {
    let expected = (BigUint::from(1u32) << 256usize) - BigUint::from(1u32);
    assert_eq!(max_entropy(), expected);
    assert_eq!(max_entropy().to_bytes_be(), vec![0xFFu8; 32]);
}

#[test]
fn multiples_are_told_from_the_rest() {
    assert!(is_multiple_of(&BigUint::from(0u32), 100));
    assert!(is_multiple_of(&BigUint::from(100u32), 100));
    assert!(is_multiple_of(&BigUint::from(12_300u32), 100));
    assert!(!is_multiple_of(&BigUint::from(1u32), 100));
    assert!(!is_multiple_of(&BigUint::from(99u32), 100));
    assert!(!is_multiple_of(&BigUint::from(101u32), 100));
    assert!(is_multiple_of(&BigUint::from(7u32), 1));
    let big = (BigUint::from(1u32) << 200usize) * BigUint::from(3u32);
    assert!(is_multiple_of(&big, 3));
    assert!(is_multiple_of(&big, 4));
    assert!(!is_multiple_of(&big, 5));
}
