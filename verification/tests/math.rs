use amm_engine::error::AmmError;
use amm_engine::math::{checked_div, checked_div_ceil, checked_mul, checked_pow10, isqrt, scale_ratio};

#[test]
fn checked_mul_returns_the_product() {
    assert_eq!(checked_mul(0, u128::MAX), Ok(0));
    assert_eq!(checked_mul(12, 12), Ok(144));
    assert_eq!(
        checked_mul(u64::MAX as u128, u64::MAX as u128),
        Ok(340282366920938463426481119284349108225)
    );
    assert_eq!(checked_mul(u128::MAX, 1), Ok(u128::MAX));
}

#[test]
fn checked_mul_reports_overflow() {
    assert_eq!(checked_mul(u128::MAX, 2), Err(AmmError::ArithmeticOverflow));
    assert_eq!(checked_mul(1 << 64, 1 << 64), Err(AmmError::ArithmeticOverflow));
}

#[test]
fn checked_div_rounds_down() {
    assert_eq!(checked_div(7, 2), Ok(3));
    assert_eq!(checked_div(0, 5), Ok(0));
    assert_eq!(checked_div(2_000_000_000_000, 1_009_970), Ok(1_980_256));
}

#[test]
fn checked_div_refuses_zero_divisor() {
    assert_eq!(checked_div(7, 0), Err(AmmError::DivisionByZero));
    assert_eq!(checked_div(0, 0), Err(AmmError::DivisionByZero));
}

#[test]
fn checked_div_ceil_rounds_up() {
    assert_eq!(checked_div_ceil(7, 2), Ok(4));
    assert_eq!(checked_div_ceil(8, 2), Ok(4));
    assert_eq!(checked_div_ceil(0, 5), Ok(0));
    assert_eq!(checked_div_ceil(1, 5), Ok(1));
    assert_eq!(checked_div_ceil(2_000_000_000_000, 1_009_970), Ok(1_980_257));
    assert_eq!(checked_div_ceil(u128::MAX, 1), Ok(u128::MAX));
    assert_eq!(checked_div_ceil(u128::MAX, u128::MAX), Ok(1));
    assert_eq!(checked_div_ceil(u128::MAX, 2), Ok(1 << 127));
}

#[test]
fn checked_div_ceil_refuses_zero_divisor() {
    assert_eq!(checked_div_ceil(7, 0), Err(AmmError::DivisionByZero));
}

#[test]
fn checked_pow10_values() {
    assert_eq!(checked_pow10(0), Ok(1));
    assert_eq!(checked_pow10(1), Ok(10));
    assert_eq!(checked_pow10(6), Ok(1_000_000));
    assert_eq!(checked_pow10(38), Ok(100_000_000_000_000_000_000_000_000_000_000_000_000));
}

#[test]
fn checked_pow10_reports_overflow() {
    assert_eq!(checked_pow10(39), Err(AmmError::ArithmeticOverflow));
    assert_eq!(checked_pow10(255), Err(AmmError::ArithmeticOverflow));
}

#[test]
fn isqrt_of_small_numbers() {
    assert_eq!(isqrt(0), 0);
    assert_eq!(isqrt(1), 1);
    assert_eq!(isqrt(2), 1);
    assert_eq!(isqrt(3), 1);
    assert_eq!(isqrt(4), 2);
    assert_eq!(isqrt(15), 3);
    assert_eq!(isqrt(16), 4);
    assert_eq!(isqrt(17), 4);
    assert_eq!(isqrt(2_000_000_000_000), 1_414_213);
}

#[test]
fn isqrt_at_the_top_of_the_range() {
    assert_eq!(isqrt(u128::MAX), u64::MAX);
    assert_eq!(isqrt((u64::MAX as u128) * (u64::MAX as u128)), u64::MAX);
    assert_eq!(isqrt((u64::MAX as u128) * (u64::MAX as u128) - 1), u64::MAX - 1);
    assert_eq!(isqrt(1 << 126), 1 << 63);
}

#[test]
fn isqrt_brackets_its_argument() {
    let mut n: u128 = 1;
    while n < 1 << 100 {
        let r = isqrt(n) as u128;
        assert!(r * r <= n);
        assert!(n < (r + 1) * (r + 1));
        n = n * 7 + 3;
    }
}

#[test]
fn scale_ratio_rounds_down() {
    assert_eq!(scale_ratio(10, 300, 100, 6), Ok(30));
    assert_eq!(scale_ratio(1, 2001, 3, 6), Ok(667));
    assert_eq!(scale_ratio(10, 1000, 3, 6), Ok(3333));
    assert_eq!(scale_ratio(0, 1000, 3, 6), Ok(0));
    assert_eq!(scale_ratio(1 << 40, 1 << 40, 1 << 30, 6), Ok(1 << 50));
}

#[test]
fn scale_ratio_does_not_depend_on_the_scale_while_it_fits() {
    for decimals in 0..=18u8 {
        assert_eq!(scale_ratio(123_456_789, 987_654_321, 1_000, decimals), Ok(121_932_631_112_635));
    }
}

#[test]
fn scale_ratio_refuses_zero_denominator() {
    assert_eq!(scale_ratio(5, 7, 0, 6), Err(AmmError::DivisionByZero));
    assert_eq!(scale_ratio(5, 7, 0, 39), Err(AmmError::DivisionByZero));
}

#[test]
fn scale_ratio_reports_overflow_of_the_scale() {
    assert_eq!(scale_ratio(1, 1, 1, 38), Ok(1));
    assert_eq!(scale_ratio(1, 1, 1, 39), Err(AmmError::ArithmeticOverflow));
    assert_eq!(scale_ratio(0, 0, 1, 39), Err(AmmError::ArithmeticOverflow));
}

#[test]
fn scale_ratio_reports_overflow_of_the_scaled_product() {
    assert_eq!(scale_ratio(u64::MAX, u64::MAX, u64::MAX, 0), Ok(u64::MAX));
    assert_eq!(scale_ratio(u64::MAX, u64::MAX, u64::MAX, 6), Err(AmmError::ArithmeticOverflow));
}

#[test]
fn scale_ratio_reports_overflow_of_the_quotient() {
    assert_eq!(scale_ratio(u64::MAX, 1, 1, 0), Ok(u64::MAX));
    assert_eq!(scale_ratio(u64::MAX, 2, 1, 0), Err(AmmError::ArithmeticOverflow));
    assert_eq!(scale_ratio(1 << 40, 1 << 40, 1, 6), Err(AmmError::ArithmeticOverflow));
}
