use vault_pipeline::bignum::NumOrder;
use vault_pipeline::codec::{
    from_onchain_u256, to_onchain_pair, u128_to_word, u256_to_decimal, word_to_u128,
};
use vault_pipeline::decimal::{dec_cmp, Decimal};

#[test]
fn integer_amount_encodes_as_itself() {
    let amount = Decimal::from_parts(false, 12345u128, 0);
    let (low, high) = to_onchain_pair(&amount).unwrap();
    assert_eq!(low, 12345i128);
    assert_eq!(high, 0i128);
}

#[test]
fn negative_scale_multiplies() {
    // Unscaled 12345 at scale -2 represents 1234500.
    let amount = Decimal::from_parts(false, 12345u128, -2);
    let (low, high) = to_onchain_pair(&amount).unwrap();
    assert_eq!(low, 1234500i128);
    assert_eq!(high, 0i128);
}

#[test]
fn positive_scale_truncates_toward_zero() {
    // 1.50 (unscaled 150 at scale 2) truncates to 1 on-chain.
    let amount = Decimal::from_parts(false, 150u128, 2);
    let (low, high) = to_onchain_pair(&amount).unwrap();
    assert_eq!(low, 1i128);
    assert_eq!(high, 0i128);

    // 0.75 truncates to zero.
    let small = Decimal::from_parts(false, 75u128, 2);
    let (low, high) = to_onchain_pair(&small).unwrap();
    assert_eq!(low, 0i128);
    assert_eq!(high, 0i128);
}

#[test]
fn high_half_is_populated_beyond_128_bits() {
    // 2^128 is byte 16 set: low word 0, high word 1.
    let mut bytes = vec![0u8; 17];
    bytes[16] = 1;
    let amount = Decimal::new(false, bytes, 0);
    let (low, high) = to_onchain_pair(&amount).unwrap();
    assert_eq!(low, 0i128);
    assert_eq!(high, 1i128);
}

#[test]
fn oversized_magnitude_is_rejected() {
    // 33 bytes of 0xff exceed 256 bits.
    let amount = Decimal::new(false, vec![0xffu8; 33], 0);
    assert!(to_onchain_pair(&amount).is_err());

    // Exactly 2^256 (byte 32 set) is also rejected.
    let mut bytes = vec![0u8; 33];
    bytes[32] = 1;
    let at_limit = Decimal::new(false, bytes, 0);
    assert!(to_onchain_pair(&at_limit).is_err());

    // A small magnitude blown up by a negative scale is rejected too.
    let scaled = Decimal::from_parts(false, 1u128, -78);
    assert!(to_onchain_pair(&scaled).is_err());
}

#[test]
fn largest_value_fits() {
    // 2^256 - 1 fits exactly; both words carry the all-ones bit pattern.
    let amount = Decimal::new(false, vec![0xffu8; 32], 0);
    let (low, high) = to_onchain_pair(&amount).unwrap();
    assert_eq!(low, -1i128);
    assert_eq!(high, -1i128);
}

#[test]
fn round_trip_recovers_integer_amounts() {
    let amount = Decimal::from_parts(false, 987654321u128, 0);
    let (low, high) = to_onchain_pair(&amount).unwrap();
    let back = from_onchain_u256(low, high);
    assert!(matches!(dec_cmp(&back, &amount), NumOrder::Equal));
}

#[test]
fn round_trip_recovers_truncated_value() {
    // 123.456 truncates to 123 on-chain; decoding yields exactly 123.
    let amount = Decimal::from_parts(false, 123456u128, 3);
    let (low, high) = to_onchain_pair(&amount).unwrap();
    let back = from_onchain_u256(low, high);
    let truncated = Decimal::from_parts(false, 123u128, 0);
    assert!(matches!(dec_cmp(&back, &truncated), NumOrder::Equal));
}

#[test]
fn round_trip_recovers_largest_value() {
    let amount = Decimal::new(false, vec![0xffu8; 32], 0);
    let (low, high) = to_onchain_pair(&amount).unwrap();
    let back = from_onchain_u256(low, high);
    assert!(matches!(dec_cmp(&back, &amount), NumOrder::Equal));
}

#[test]
fn word_reinterpretation_round_trips() {
    assert_eq!(u128_to_word(0), 0i128);
    assert_eq!(u128_to_word(u128::MAX), -1i128);
    assert_eq!(u128_to_word(1u128 << 127), i128::MIN);
    assert_eq!(word_to_u128(i128::MIN), 1u128 << 127);
    assert_eq!(word_to_u128(-1i128), u128::MAX);
    for w in [0i128, 1, -1, i128::MIN, i128::MAX, 42] {
        assert_eq!(u128_to_word(word_to_u128(w)), w);
    }
}

#[test]
fn u256_decimal_combines_halves() {
    let d = u256_to_decimal(7, 3);
    // 7 + 3 * 2^128, little-endian: byte 0 is 7, byte 16 is 3.
    let mut bytes = vec![0u8; 17];
    bytes[0] = 7;
    bytes[16] = 3;
    let expected = Decimal::new(false, bytes, 0);
    assert!(matches!(dec_cmp(&d, &expected), NumOrder::Equal));
}
