use vault_pipeline::bignum::NumOrder;
use vault_pipeline::decimal::{dec_cmp, Decimal};

#[test]
fn equal_values_with_different_scales_compare_equal() {
    // 1.50 and 1.5
    let a = Decimal::from_parts(false, 150u128, 2);
    let b = Decimal::from_parts(false, 15u128, 1);
    assert!(matches!(dec_cmp(&a, &b), NumOrder::Equal));

    // 12345 * 10^2 and 1234500
    let c = Decimal::from_parts(false, 12345u128, -2);
    let d = Decimal::from_parts(false, 1234500u128, 0);
    assert!(matches!(dec_cmp(&c, &d), NumOrder::Equal));
}

#[test]
fn ordering_follows_value_not_magnitude() {
    // 0.9 < 2, although 9 > 2 as unscaled magnitudes.
    let a = Decimal::from_parts(false, 9u128, 1);
    let b = Decimal::from_parts(false, 2u128, 0);
    assert!(matches!(dec_cmp(&a, &b), NumOrder::Less));
    assert!(matches!(dec_cmp(&b, &a), NumOrder::Greater));
}

#[test]
fn signs_order_correctly() {
    let neg = Decimal::from_parts(true, 5u128, 0);
    let pos = Decimal::from_parts(false, 3u128, 0);
    assert!(matches!(dec_cmp(&neg, &pos), NumOrder::Less));
    assert!(matches!(dec_cmp(&pos, &neg), NumOrder::Greater));

    let more_negative = Decimal::from_parts(true, 7u128, 0);
    assert!(matches!(dec_cmp(&more_negative, &neg), NumOrder::Less));
}

#[test]
fn zero_ignores_sign_and_scale() {
    let plus_zero = Decimal::from_parts(false, 0u128, 5);
    let minus_zero = Decimal::from_parts(true, 0u128, -3);
    assert!(matches!(dec_cmp(&plus_zero, &minus_zero), NumOrder::Equal));
    assert!(!plus_zero.is_positive());
    assert!(!minus_zero.is_positive());
    assert!(plus_zero.is_zero());
}

#[test]
fn positivity_requires_nonzero_magnitude_and_plus_sign() {
    assert!(Decimal::from_parts(false, 1u128, 9).is_positive());
    assert!(!Decimal::from_parts(true, 1u128, 0).is_positive());
    assert!(!Decimal::from_parts(false, 0u128, 0).is_positive());
}

#[test]
fn trailing_zero_bytes_do_not_change_the_value() {
    let mut padded = vec![42u8];
    padded.extend_from_slice(&[0u8; 10]);
    let a = Decimal::new(false, padded, 0);
    let b = Decimal::from_parts(false, 42u128, 0);
    assert!(matches!(dec_cmp(&a, &b), NumOrder::Equal));
}
