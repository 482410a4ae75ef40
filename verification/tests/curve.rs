use amm_engine::curve::{
    deposit_amounts, swap, withdraw_amounts, DepositQuote, SwapQuote, WithdrawQuote,
};
use amm_engine::error::AmmError;

#[test]
fn swap_worked_example() {
    // 10_000 in at 30 bps: 9_970 take part; the output reserve keeps
    // 1_980_257 of 2_000_000.
    assert_eq!(
        swap(1_000_000, 2_000_000, 30, 10_000, 0),
        Ok(SwapQuote { amount_in: 10_000, amount_out: 19_743 })
    );
}

#[test]
fn swap_in_the_other_direction() {
    assert_eq!(
        swap(2_000_000, 1_000_000, 30, 10_000, 0),
        Ok(SwapQuote { amount_in: 10_000, amount_out: 4_960 })
    );
}

#[test]
fn swap_without_fee() {
    assert_eq!(swap(1000, 1000, 0, 100, 0), Ok(SwapQuote { amount_in: 100, amount_out: 90 }));
    assert_eq!(swap(5_000, 7_000, 100, 333, 0), Ok(SwapQuote { amount_in: 333, amount_out: 432 }));
}

#[test]
fn swap_returns_the_whole_input_as_owed() {
    let quote = swap(1_000_000, 2_000_000, 2_500, 40_000, 1).unwrap();
    assert_eq!(quote.amount_in, 40_000);
}

#[test]
fn swap_at_the_top_of_the_range() {
    assert_eq!(
        swap(u64::MAX, u64::MAX, 0, u64::MAX, 0),
        Ok(SwapQuote { amount_in: u64::MAX, amount_out: 9_223_372_036_854_775_807 })
    );
}

#[test]
fn swap_minimum_equal_to_output_is_granted() {
    assert_eq!(
        swap(1_000_000, 2_000_000, 30, 10_000, 19_743),
        Ok(SwapQuote { amount_in: 10_000, amount_out: 19_743 })
    );
}

#[test]
fn swap_minimum_one_above_output_is_refused() {
    assert_eq!(swap(1_000_000, 2_000_000, 30, 10_000, 19_744), Err(AmmError::SlippageExceeded));
}

#[test]
fn swap_too_small_to_buy_a_unit() {
    assert_eq!(swap(3, 3, 0, 1, 0), Err(AmmError::ZeroOutput));
    assert_eq!(swap(1_000_000, 1, 0, 1, 0), Err(AmmError::ZeroOutput));
    assert_eq!(swap(1000, 1000, 50, 1, 0), Err(AmmError::ZeroOutput));
}

#[test]
fn swap_zero_output_comes_before_slippage() {
    assert_eq!(swap(3, 3, 0, 1, 5), Err(AmmError::ZeroOutput));
}

#[test]
fn swap_whole_input_taken_as_fee() {
    assert_eq!(swap(1000, 1000, 10_000, 5, 0), Err(AmmError::ZeroOutput));
    assert_eq!(swap(0, 100, 10_000, 5, 0), Err(AmmError::DivisionByZero));
}

#[test]
fn swap_fee_above_one_whole() {
    assert_eq!(swap(1000, 1000, 10_001, 5, 0), Err(AmmError::ArithmeticOverflow));
    assert_eq!(swap(1000, 1000, u16::MAX, 5, 0), Err(AmmError::ArithmeticOverflow));
}

#[test]
fn swap_never_lowers_the_product() {
    let cases: [(u64, u64, u16, u64); 8] = [
        (1_000_000, 2_000_000, 30, 10_000),
        (1_000_000, 2_000_000, 0, 10_000),
        (3, 5, 0, 2),
        (7, 11, 0, 13),
        (999, 1_001, 1, 17),
        (1, u64::MAX, 0, 1),
        (u64::MAX / 2, u64::MAX, 9_999, u64::MAX / 2),
        (123_456_789, 987_654_321, 250, 55_555),
    ];
    for (reserve_in, reserve_out, fee_bps, amount_in) in cases {
        let quote = swap(reserve_in, reserve_out, fee_bps, amount_in, 0).unwrap();
        let before = (reserve_in as u128) * (reserve_out as u128);
        let after = (reserve_in as u128 + quote.amount_in as u128)
            * (reserve_out as u128 - quote.amount_out as u128);
        assert!(after >= before);
        if fee_bps > 0 {
            assert!(after > before);
        }
    }
}

#[test]
fn swap_output_is_the_most_the_product_allows() {
    // One more unit out would take the product below its old value, had the
    // whole input bought output.
    let quote = swap(1000, 1000, 0, 100, 0).unwrap();
    assert!(1_100u128 * (1000 - quote.amount_out as u128) >= 1_000_000);
    assert!(1_100u128 * (1000 - quote.amount_out as u128 - 1) < 1_000_000);
}

#[test]
fn deposit_amounts_are_proportional() {
    assert_eq!(
        deposit_amounts(1000, 2000, 100, 10, 6),
        Ok(DepositQuote { amount_x: 100, amount_y: 200 })
    );
    assert_eq!(
        deposit_amounts(1_000_000, 2_000_000, 1_000, 250, 6),
        Ok(DepositQuote { amount_x: 250_000, amount_y: 500_000 })
    );
}

#[test]
fn deposit_amounts_round_down() {
    assert_eq!(
        deposit_amounts(1000, 2001, 3, 1, 6),
        Ok(DepositQuote { amount_x: 333, amount_y: 667 })
    );
}

#[test]
fn deposit_amounts_without_shares_outstanding() {
    assert_eq!(deposit_amounts(1000, 2000, 0, 10, 6), Err(AmmError::DivisionByZero));
    assert_eq!(deposit_amounts(0, 0, 0, 10, 6), Err(AmmError::DivisionByZero));
}

#[test]
fn deposit_amounts_over_an_empty_reserve() {
    assert_eq!(deposit_amounts(0, 2000, 100, 10, 6), Err(AmmError::InsufficientLiquidity));
    assert_eq!(deposit_amounts(1000, 0, 100, 10, 6), Err(AmmError::InsufficientLiquidity));
    assert_eq!(deposit_amounts(0, 0, 100, 10, 6), Err(AmmError::InsufficientLiquidity));
}

#[test]
fn deposit_amounts_out_of_range() {
    assert_eq!(
        deposit_amounts(u64::MAX, u64::MAX, 1, u64::MAX, 6),
        Err(AmmError::ArithmeticOverflow)
    );
    assert_eq!(deposit_amounts(1000, 2000, 100, 10, 39), Err(AmmError::ArithmeticOverflow));
    assert_eq!(deposit_amounts(1 << 40, 5, 1, 1 << 40, 6), Err(AmmError::ArithmeticOverflow));
    assert_eq!(deposit_amounts(5, 1 << 40, 1, 1 << 40, 6), Err(AmmError::ArithmeticOverflow));
}

#[test]
fn withdraw_amounts_are_proportional() {
    assert_eq!(
        withdraw_amounts(1000, 2000, 100, 10, 6),
        Ok(WithdrawQuote { amount_x: 100, amount_y: 200 })
    );
    assert_eq!(
        withdraw_amounts(1000, 2001, 3, 1, 6),
        Ok(WithdrawQuote { amount_x: 333, amount_y: 667 })
    );
    assert_eq!(
        withdraw_amounts(1_000_000_000_000, 3_000_000_000_000, 1_000_000_000, 500_000_000, 6),
        Ok(WithdrawQuote { amount_x: 500_000_000_000, amount_y: 1_500_000_000_000 })
    );
}

#[test]
fn withdraw_amounts_of_the_whole_supply() {
    assert_eq!(
        withdraw_amounts(1234, 5678, 99, 99, 6),
        Ok(WithdrawQuote { amount_x: 1234, amount_y: 5678 })
    );
}

#[test]
fn withdraw_amounts_from_an_empty_reserve() {
    assert_eq!(
        withdraw_amounts(0, 2000, 100, 10, 6),
        Ok(WithdrawQuote { amount_x: 0, amount_y: 200 })
    );
}

#[test]
fn withdraw_amounts_without_shares_outstanding() {
    assert_eq!(withdraw_amounts(1000, 2000, 0, 10, 6), Err(AmmError::DivisionByZero));
    assert_eq!(withdraw_amounts(0, 0, 0, 0, 6), Err(AmmError::DivisionByZero));
}

#[test]
fn withdraw_amounts_out_of_range() {
    assert_eq!(
        withdraw_amounts(u64::MAX, u64::MAX, u64::MAX, u64::MAX, 6),
        Err(AmmError::ArithmeticOverflow)
    );
    assert_eq!(withdraw_amounts(1000, 2000, 100, 10, 40), Err(AmmError::ArithmeticOverflow));
}

#[test]
fn withdraw_after_deposit_on_the_curve() {
    let (reserve_x, reserve_y, supply, shares) = (1_000_003u64, 2_000_001u64, 777u64, 55u64);
    let cost = deposit_amounts(reserve_x, reserve_y, supply, shares, 6).unwrap();
    assert_eq!(cost, DepositQuote { amount_x: 70_785, amount_y: 141_570 });
    let back = withdraw_amounts(
        reserve_x + cost.amount_x,
        reserve_y + cost.amount_y,
        supply + shares,
        shares,
        6,
    )
    .unwrap();
    assert!(back.amount_x <= cost.amount_x);
    assert!(back.amount_y <= cost.amount_y);
    assert_eq!(back, WithdrawQuote { amount_x: 70_785, amount_y: 141_570 });
}

#[test]
fn swap_output_is_the_rounded_down_part_of_the_output_reserve() {
    // reserve_out - ceil(k / n) is floor(reserve_out * input / n).
    let mut state: u64 = 0x9e37_79b9_7f4a_7c15;
    let mut next = move || {
        state = state.wrapping_mul(6364136223846793005).wrapping_add(1442695040888963407);
        state >> 20
    };
    let mut granted = 0;
    for _ in 0..2_000 {
        let reserve_in = next() % 1_000_000_000_000 + 1;
        let reserve_out = next() % 1_000_000_000_000 + 1;
        let amount_in = next() % 1_000_000_000 + 1;
        let fee_bps = (next() % 10_001) as u16;
        let input = amount_in as u128 * (10_000 - fee_bps as u128) / 10_000;
        let expected = reserve_out as u128 * input / (reserve_in as u128 + input);
        match swap(reserve_in, reserve_out, fee_bps, amount_in, 0) {
            Ok(quote) => {
                assert_eq!(quote.amount_in, amount_in);
                assert_eq!(quote.amount_out as u128, expected);
                granted += 1;
            }
            Err(e) => {
                assert_eq!(e, AmmError::ZeroOutput);
                assert_eq!(expected, 0);
            }
        }
    }
    assert!(granted > 1_000);
}

#[test]
fn proportional_amounts_are_within_one_unit_of_the_ratio() {
    let mut state: u64 = 0x2545_f491_4f6c_dd1d;
    let mut next = move || {
        state = state.wrapping_mul(6364136223846793005).wrapping_add(1442695040888963407);
        state >> 24
    };
    for _ in 0..2_000 {
        let reserve_x = next() % 1_000_000_000_000 + 1;
        let reserve_y = next() % 1_000_000_000_000 + 1;
        let supply = next() % 1_000_000_000 + 1;
        let shares = next() % supply + 1;
        let cost = deposit_amounts(reserve_x, reserve_y, supply, shares, 6).unwrap();
        let exact_x = shares as u128 * reserve_x as u128;
        let exact_y = shares as u128 * reserve_y as u128;
        assert!(cost.amount_x as u128 * supply as u128 <= exact_x);
        assert!(exact_x < (cost.amount_x as u128 + 1) * supply as u128);
        assert!(cost.amount_y as u128 * supply as u128 <= exact_y);
        assert!(exact_y < (cost.amount_y as u128 + 1) * supply as u128);
        let paid = withdraw_amounts(reserve_x, reserve_y, supply, shares, 6).unwrap();
        assert_eq!((paid.amount_x, paid.amount_y), (cost.amount_x, cost.amount_y));
    }
}
