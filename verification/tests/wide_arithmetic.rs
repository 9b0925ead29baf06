use berry_farm::wide::{mul_div, wide_div, wide_mul, Wide};

#[test]
fn product_of_small_numbers() {
    assert_eq!(wide_mul(6, 7), Wide { hi: 0, lo: 42 });
}

#[test]
fn product_of_largest_words() {
    // (2^128 - 1)^2 = 2^256 - 2^129 + 1
    assert_eq!(wide_mul(u128::MAX, u128::MAX), Wide { hi: u128::MAX - 1, lo: 1 });
}

#[test]
fn quotient_of_wide_number() {
    // (3 * 2^128 + 5) / 7
    let n = Wide { hi: 3, lo: 5 };
    let expected = 145835300108973627198589117470757804910u128;
    assert_eq!(wide_div(n, 7), expected);
}

#[test]
fn mul_div_exceeds_native_product() {
    let a = 1u128 << 100;
    let b = 1u128 << 100;
    let d = 1u128 << 90;
    assert_eq!(mul_div(a, b, d), Some(1u128 << 110));
}

#[test]
fn mul_div_rounds_down() {
    assert_eq!(mul_div(7, 3, 2), Some(10));
    assert_eq!(mul_div(1, 1, 2), Some(0));
}

#[test]
fn mul_div_by_zero_is_none() {
    assert_eq!(mul_div(5, 5, 0), None);
}

#[test]
fn mul_div_too_large_is_none() {
    assert_eq!(mul_div(u128::MAX, 2, 1), None);
    assert_eq!(mul_div(u128::MAX, u128::MAX, u128::MAX), Some(u128::MAX));
}

#[test]
fn wide_numbers_are_ordered_by_value() {
    let small = Wide { hi: 1, lo: u128::MAX };
    let large = Wide { hi: 2, lo: 0 };
    assert!(small.le(&large));
    assert!(!large.le(&small));
    assert!(small.le(&small));
    assert!(Wide { hi: 2, lo: 0 }.le(&Wide { hi: 2, lo: 1 }));
    assert!(!Wide { hi: 2, lo: 2 }.le(&Wide { hi: 2, lo: 1 }));
}

#[test]
fn wide_difference_borrows_from_the_high_word() {
    let a = Wide { hi: 2, lo: 0 };
    let b = Wide { hi: 1, lo: u128::MAX };
    assert_eq!(a.minus(&b), Wide { hi: 0, lo: 1 });
    assert_eq!(a.minus(&a), Wide { hi: 0, lo: 0 });
    let c = Wide { hi: 5, lo: 10 };
    assert_eq!(c.minus(&Wide { hi: 2, lo: 3 }), Wide { hi: 3, lo: 7 });
    assert_eq!(c.minus(&Wide { hi: 2, lo: 11 }), Wide { hi: 2, lo: u128::MAX });
}
