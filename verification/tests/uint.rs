use ectoplasm::uint::{U256, U512};

#[test]
fn small_values_sit_in_the_lowest_word() {
    assert_eq!(U256::from_u64(7).limbs, [7, 0, 0, 0]);
    assert_eq!(U512::from_u64(7).limbs, [7, 0, 0, 0, 0, 0, 0, 0]);
    assert_eq!(U256::zero().limbs, [0; 4]);
    assert_eq!(U512::zero().limbs, [0; 8]);
}

#[test]
fn from_u128_splits_into_two_words() {
    let v: u128 = 0x0123_4567_89ab_cdef_fedc_ba98_7654_3210;
    assert_eq!(U256::from_u128(v).limbs, [0xfedc_ba98_7654_3210, 0x0123_4567_89ab_cdef, 0, 0]);
    assert_eq!(U256::from_u128(v).limbs, casper_types::U256::from(v).0);
    assert_eq!(U512::from_u128(v).limbs, casper_types::U512::from(v).0);
    assert_eq!(U512::from_u128(u128::MAX).limbs, casper_types::U512::from(u128::MAX).0);
}

#[test]
fn is_zero_looks_at_every_word() {
    assert!(U256::zero().is_zero());
    assert!(U512::zero().is_zero());
    assert!(!U256 { limbs: [0, 0, 0, 1] }.is_zero());
    assert!(!U512 { limbs: [0, 0, 0, 0, 0, 0, 0, 1] }.is_zero());
    assert!(!U512 { limbs: [0, 0, 0, 0, 1, 0, 0, 0] }.is_zero());
}

#[test]
fn widening_and_narrowing_keep_the_value() {
    let v = U256 { limbs: [1, 2, 3, 4] };
    assert_eq!(v.to_u512().limbs, [1, 2, 3, 4, 0, 0, 0, 0]);
    assert_eq!(v.to_u512().to_u256(), Some(v));
    assert_eq!(U512 { limbs: [1, 2, 3, 4, 1, 0, 0, 0] }.to_u256(), None);
    assert_eq!(U512 { limbs: [1, 2, 3, 4, 0, 0, 0, 1] }.to_u256(), None);
    assert_eq!(U512::from_u64(9).to_u64(), Some(9));
    assert_eq!(U512 { limbs: [9, 1, 0, 0, 0, 0, 0, 0] }.to_u64(), None);
}
