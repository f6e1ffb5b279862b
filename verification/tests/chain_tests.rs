use vault_pipeline::chain::{
    balance_calldata, balance_of_selector, decode_balance_words, deploy_vault_selector,
    extract_predicted_address, extract_predicted_address_hex, felt_from_hex, felt_from_u128,
    felt_to_hex, felts_to_u256, predict_address_selector, vault_calldata,
};
use vault_pipeline::codec::u256_to_decimal;
use vault_pipeline::decimal::{dec_cmp, Decimal};
use vault_pipeline::errors::StarknetError;

#[test]
fn hex_parsing_round_trips_through_the_field() {
    let f = felt_from_hex("0xabc").unwrap();
    assert_eq!(felt_to_hex(&f), "0xabc");
    let g = felt_from_u128(255);
    assert_eq!(felt_to_hex(&g), "0xff");
}

#[test]
fn out_of_field_values_are_rejected() {
    // One above the Stark prime: 2^251 + 17 * 2^192 + 2.
    assert!(felt_from_hex("0x800000000000011000000000000000000000000000000000000000000000002")
        .is_none());
    assert!(felt_from_hex("").is_none());
    assert!(felt_from_hex("xyz").is_none());
    assert!(felt_from_hex("0x1").is_some());
}

#[test]
fn selectors_resolve_to_distinct_words() {
    let predict = felt_to_hex(&predict_address_selector());
    let deploy = felt_to_hex(&deploy_vault_selector());
    let balance = felt_to_hex(&balance_of_selector());
    assert_ne!(predict, deploy);
    assert_ne!(deploy, balance);
    assert_ne!(predict, balance);
}

#[test]
fn calldata_carries_the_encoded_amount() {
    let user = felt_from_hex("0x1").unwrap();
    let id = felt_from_hex("0x2").unwrap();
    let token = felt_from_hex("0x3").unwrap();
    let target = felt_from_hex("0x4").unwrap();
    // Amount 12345 * 10^2.
    let amount = Decimal::from_parts(false, 12345u128, -2);
    let cd = vault_calldata(&user, &id, 1, &amount, &token, &target).unwrap();
    assert_eq!(cd.len(), 7);
    assert_eq!(felt_to_hex(&cd[0]), "0x1");
    assert_eq!(felt_to_hex(&cd[1]), "0x2");
    assert_eq!(felt_to_hex(&cd[2]), "0x1"); // action
    assert_eq!(felt_to_hex(&cd[3]), "0x12d644"); // 1234500 low
    assert_eq!(felt_to_hex(&cd[4]), "0x0"); // high
    assert_eq!(felt_to_hex(&cd[5]), "0x3");
    assert_eq!(felt_to_hex(&cd[6]), "0x4");

    let oversized = Decimal::new(false, vec![0xffu8; 33], 0);
    assert!(vault_calldata(&user, &id, 1, &oversized, &token, &target).is_err());
}

#[test]
fn high_bit_amount_words_embed_by_bit_pattern() {
    // Amount 2^128 - 1: the low word's bit pattern reads as the signed
    // integer -1, which the field embeds as its modulus minus one.
    let user = felt_from_hex("0x1").unwrap();
    let id = felt_from_hex("0x2").unwrap();
    let token = felt_from_hex("0x3").unwrap();
    let target = felt_from_hex("0x4").unwrap();
    let amount = Decimal::new(false, vec![0xffu8; 16], 0);
    let cd = vault_calldata(&user, &id, 1, &amount, &token, &target).unwrap();
    assert_eq!(
        felt_to_hex(&cd[3]),
        "0x800000000000011000000000000000000000000000000000000000000000000"
    );
    assert_eq!(felt_to_hex(&cd[4]), "0x0");
}

#[test]
fn balance_calldata_is_the_account_alone() {
    let account = felt_from_hex("0x77".to_string().as_str()).unwrap();
    let cd = balance_calldata(&account);
    assert_eq!(cd.len(), 1);
    assert_eq!(felt_to_hex(&cd[0]), "0x77");
}

#[test]
fn empty_prediction_response_is_invalid() {
    let empty: Vec<starknet::core::types::Felt> = Vec::new();
    assert!(matches!(
        extract_predicted_address(&empty),
        Err(StarknetError::InvalidResponse(_))
    ));
    let one = vec![felt_from_u128(9)];
    let f = extract_predicted_address(&one).unwrap();
    assert_eq!(felt_to_hex(&f), "0x9");
    assert_eq!(extract_predicted_address_hex(&one).unwrap(), "0x9");
    assert!(extract_predicted_address_hex(&empty).is_err());
}

#[test]
fn balance_reply_must_hold_exactly_two_words() {
    let one = vec![felt_from_u128(1)];
    assert!(matches!(
        decode_balance_words(&one),
        Err(StarknetError::InvalidResponse(_))
    ));
    let three = vec![felt_from_u128(1), felt_from_u128(2), felt_from_u128(3)];
    assert!(matches!(
        decode_balance_words(&three),
        Err(StarknetError::InvalidResponse(_))
    ));
    let two = vec![felt_from_u128(5), felt_from_u128(2)];
    assert_eq!(decode_balance_words(&two).unwrap(), (5, 2));
}

#[test]
fn oversized_balance_words_are_invalid_data() {
    // 2^128 does not fit a 128-bit half.
    let too_big = felt_from_hex("0x100000000000000000000000000000000").unwrap();
    let words = vec![too_big, felt_from_u128(0)];
    assert!(matches!(
        decode_balance_words(&words),
        Err(StarknetError::InvalidDataFormat(_))
    ));
}

#[test]
fn balance_words_combine_into_the_decimal_balance() {
    let low = felt_from_u128(123);
    let high = felt_from_u128(1);
    let (l, h) = felts_to_u256(&low, &high).unwrap();
    let d = u256_to_decimal(l, h);
    // 123 + 2^128, little-endian bytes: byte 0 is 123, byte 16 is 1.
    let mut bytes = vec![0u8; 17];
    bytes[0] = 123;
    bytes[16] = 1;
    let expected = Decimal::new(false, bytes, 0);
    assert!(matches!(
        dec_cmp(&d, &expected),
        vault_pipeline::bignum::NumOrder::Equal
    ));
}
