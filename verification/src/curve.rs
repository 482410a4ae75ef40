//! The constant-product curve `x * y = k` and what follows from it for a
//! proportional deposit, a proportional withdrawal and a fee-adjusted swap.
//!
//! Everything here is a pure function of the numbers handed in. No function
//! reads a pool or a ledger.

use vstd::prelude::*;
use vstd::arithmetic::div_mod::{
    lemma_div_by_multiple, lemma_div_is_ordered, lemma_fundamental_div_mod,
};
use crate::error::AmmError;
use crate::math::{
    checked_div_ceil, div_ceil, lemma_div_ceil_from_bounds, lemma_div_ceil_is_least,
    lemma_div_from_bounds, lemma_u64_product_fits, scale_ratio, scale_ratio_spec,
};

verus! {

/// One whole, in basis points.
pub const BPS_DENOMINATOR: u16 = 10_000;

/// What a deposit costs: the units of each asset that enter the pool.
#[derive(Clone, Copy, Debug, PartialEq, Eq, Structural)]
pub struct DepositQuote {
    pub amount_x: u64,
    pub amount_y: u64,
}

/// What a withdrawal pays: the units of each asset that leave the pool.
#[derive(Clone, Copy, Debug, PartialEq, Eq, Structural)]
pub struct WithdrawQuote {
    pub amount_x: u64,
    pub amount_y: u64,
}

/// What a swap moves: the units that enter on the input side, fee included,
/// and the units that leave on the output side.
#[derive(Clone, Copy, Debug, PartialEq, Eq, Structural)]
pub struct SwapQuote {
    pub amount_in: u64,
    pub amount_out: u64,
}

/// The share of both reserves that `shares` out of `share_supply` stand for,
/// each rounded down.
pub open spec fn proportional_amounts(
    reserve_x: u64,
    reserve_y: u64,
    share_supply: u64,
    shares: u64,
    decimals: u8,
) -> Result<(u64, u64), AmmError> {
    match scale_ratio_spec(shares, reserve_x, share_supply, decimals) {
        Err(e) => Err(e),
        Ok(x) => match scale_ratio_spec(shares, reserve_y, share_supply, decimals) {
            Err(e) => Err(e),
            Ok(y) => Ok((x, y)),
        },
    }
}

/// What `deposit_amounts` returns.
pub open spec fn deposit_amounts_spec(
    reserve_x: u64,
    reserve_y: u64,
    share_supply: u64,
    shares_requested: u64,
    decimals: u8,
) -> Result<DepositQuote, AmmError> {
    if share_supply == 0 {
        Err(AmmError::DivisionByZero)
    } else if reserve_x == 0 || reserve_y == 0 {
        Err(AmmError::InsufficientLiquidity)
    } else {
        match proportional_amounts(reserve_x, reserve_y, share_supply, shares_requested, decimals) {
            Err(e) => Err(e),
            Ok(amounts) => Ok(DepositQuote { amount_x: amounts.0, amount_y: amounts.1 }),
        }
    }
}

/// What `withdraw_amounts` returns.
pub open spec fn withdraw_amounts_spec(
    reserve_x: u64,
    reserve_y: u64,
    share_supply: u64,
    shares_burned: u64,
    decimals: u8,
) -> Result<WithdrawQuote, AmmError> {
    match proportional_amounts(reserve_x, reserve_y, share_supply, shares_burned, decimals) {
        Err(e) => Err(e),
        Ok(amounts) => Ok(WithdrawQuote { amount_x: amounts.0, amount_y: amounts.1 }),
    }
}

/// The part of `amount_in` that takes part in the exchange once the fee of
/// `fee_bps` basis points has been set aside, rounded down.
pub open spec fn input_after_fee(amount_in: int, fee_bps: int) -> int {
    amount_in * (10_000 - fee_bps) / 10_000
}

/// The least output reserve that keeps the product of the reserves at or
/// above `reserve_in * reserve_out` once `input` has joined the input reserve.
pub open spec fn output_reserve_kept(reserve_in: int, reserve_out: int, input: int) -> int {
    div_ceil(reserve_in * reserve_out, reserve_in + input)
}

/// The units that a swap pays out: what the output reserve holds beyond the
/// part that has to stay.
pub open spec fn swap_output(reserve_in: int, reserve_out: int, fee_bps: int, amount_in: int)
    -> int {
    reserve_out - output_reserve_kept(reserve_in, reserve_out, input_after_fee(amount_in, fee_bps))
}

/// What `swap` returns.
pub open spec fn swap_spec(
    reserve_in: u64,
    reserve_out: u64,
    fee_bps: u16,
    amount_in: u64,
    min_amount_out: u64,
) -> Result<SwapQuote, AmmError> {
    let amount_out = swap_output(
        reserve_in as int,
        reserve_out as int,
        fee_bps as int,
        amount_in as int,
    );
    if fee_bps > 10_000 {
        Err(AmmError::ArithmeticOverflow)
    } else if reserve_in + input_after_fee(amount_in as int, fee_bps as int) == 0 {
        Err(AmmError::DivisionByZero)
    } else if amount_out == 0 {
        Err(AmmError::ZeroOutput)
    } else if amount_out < min_amount_out {
        Err(AmmError::SlippageExceeded)
    } else {
        Ok(SwapQuote { amount_in, amount_out: amount_out as u64 })
    }
}

/// The fee never makes the input larger, and a positive fee on a positive
/// input makes it smaller.
pub proof fn lemma_input_after_fee_bounds(amount_in: int, fee_bps: int)
    requires
        0 <= amount_in,
        0 <= fee_bps <= 10_000,
    ensures
        0 <= input_after_fee(amount_in, fee_bps) <= amount_in,
        fee_bps == 0 ==> input_after_fee(amount_in, fee_bps) == amount_in,
        fee_bps > 0 && amount_in > 0 ==> input_after_fee(amount_in, fee_bps) < amount_in,
{
    let kept = amount_in * (10_000 - fee_bps);
    assert(0 <= kept <= amount_in * 10_000) by (nonlinear_arith)
        requires
            0 <= amount_in,
            0 <= fee_bps <= 10_000,
            kept == amount_in * (10_000 - fee_bps),
    ;
    if fee_bps > 0 && amount_in > 0 {
        assert(kept <= amount_in * 10_000 - 1) by (nonlinear_arith)
            requires
                0 < amount_in,
                0 < fee_bps <= 10_000,
                kept == amount_in * (10_000 - fee_bps),
        ;
    }
}

/// A swap pays out between nothing and the whole output reserve.
pub proof fn lemma_swap_output_bounds(reserve_in: int, reserve_out: int, fee_bps: int, amount_in: int)
    requires
        0 <= reserve_in,
        0 <= reserve_out,
        0 <= amount_in,
        0 <= fee_bps <= 10_000,
        0 < reserve_in + input_after_fee(amount_in, fee_bps),
    ensures
        0 <= swap_output(reserve_in, reserve_out, fee_bps, amount_in) <= reserve_out,
{
    lemma_input_after_fee_bounds(amount_in, fee_bps);
    let input = input_after_fee(amount_in, fee_bps);
    let k = reserve_in * reserve_out;
    assert(0 <= k <= reserve_out * (reserve_in + input)) by (nonlinear_arith)
        requires
            0 <= reserve_in,
            0 <= reserve_out,
            0 <= input,
            k == reserve_in * reserve_out,
    ;
    lemma_div_ceil_is_least(k, reserve_in + input, reserve_out);
}

/// A granted swap never lowers the product of the two reserves: with the
/// whole input received and the output paid, the product is at least what it
/// was. Where a fee is charged and both reserves are funded, it grows.
pub proof fn lemma_swap_never_lowers_product(
    reserve_in: u64,
    reserve_out: u64,
    fee_bps: u16,
    amount_in: u64,
    min_amount_out: u64,
)
    requires
        swap_spec(reserve_in, reserve_out, fee_bps, amount_in, min_amount_out) is Ok,
    ensures
        ({
            let quote = swap_spec(reserve_in, reserve_out, fee_bps, amount_in, min_amount_out)->Ok_0;
            &&& 0 < amount_in == quote.amount_in
            &&& 0 < quote.amount_out <= reserve_out
            &&& min_amount_out <= quote.amount_out
            &&& (reserve_in + quote.amount_in) * (reserve_out - quote.amount_out) >= reserve_in
                * reserve_out
            &&& fee_bps > 0 && reserve_in > 0 && reserve_out > 0 ==> (reserve_in + quote.amount_in)
                * (reserve_out - quote.amount_out) > reserve_in * reserve_out
        }),
{
    let rin = reserve_in as int;
    let rout = reserve_out as int;
    let a = amount_in as int;
    let input = input_after_fee(a, fee_bps as int);
    let k = rin * rout;
    let kept = output_reserve_kept(rin, rout, input);
    lemma_input_after_fee_bounds(a, fee_bps as int);
    lemma_swap_output_bounds(rin, rout, fee_bps as int, a);
    assert(0 <= k) by (nonlinear_arith)
        requires
            0 <= rin,
            0 <= rout,
            k == rin * rout,
    ;
    lemma_div_ceil_is_least(k, rin + input, rout);
    assert((rin + a) * kept >= k) by (nonlinear_arith)
        requires
            k <= kept * (rin + input),
            0 <= kept,
            input <= a,
    ;
    if a == 0 {
        assert(kept >= rout) by (nonlinear_arith)
            requires
                k <= kept * (rin + input),
                k == rin * rout,
                input == 0,
                0 < rin,
        ;
    }
    if fee_bps > 0 && reserve_in > 0 && reserve_out > 0 {
        assert((rin + a) * kept > k) by (nonlinear_arith)
            requires
                k <= kept * (rin + input),
                0 <= kept,
                input < a,
                k == rin * rout,
                0 < rin,
                0 < rout,
                0 <= input,
        ;
    }
}

/// A swap pays out the most that the product of the reserves allows. With
/// the input after the fee added to the input reserve, the product does not
/// fall below its old value, and one more unit paid out would take it below.
pub proof fn lemma_swap_output_is_greatest(
    reserve_in: int,
    reserve_out: int,
    fee_bps: int,
    amount_in: int,
)
    requires
        0 <= reserve_in,
        0 <= reserve_out,
        0 <= amount_in,
        0 <= fee_bps <= 10_000,
        0 < reserve_in + input_after_fee(amount_in, fee_bps),
    ensures
        ({
            let joined = reserve_in + input_after_fee(amount_in, fee_bps);
            let paid = swap_output(reserve_in, reserve_out, fee_bps, amount_in);
            &&& joined * (reserve_out - paid) >= reserve_in * reserve_out
            &&& joined * (reserve_out - paid - 1) < reserve_in * reserve_out
        }),
{
    let joined = reserve_in + input_after_fee(amount_in, fee_bps);
    let k = reserve_in * reserve_out;
    let kept = output_reserve_kept(reserve_in, reserve_out, input_after_fee(amount_in, fee_bps));
    assert(0 <= k) by (nonlinear_arith)
        requires
            0 <= reserve_in,
            0 <= reserve_out,
            k == reserve_in * reserve_out,
    ;
    lemma_div_ceil_is_least(k, joined, reserve_out);
    assert(joined * kept == kept * joined && joined * (kept - 1) == kept * joined - joined)
        by (nonlinear_arith);
}

/// No other output has that property, so what a swap pays can be told
/// without a division. Where `input` is the input after the fee, that is where
/// `input * 10000` is the last multiple of 10000 within
/// `amount_in * (10000 - fee_bps)`, and `paid` keeps the product while one
/// unit more would not, `paid` is what the swap pays out.
pub proof fn lemma_swap_output_is_determined(
    reserve_in: int,
    reserve_out: int,
    fee_bps: int,
    amount_in: int,
    input: int,
    paid: int,
)
    requires
        input * 10_000 <= amount_in * (10_000 - fee_bps) < (input + 1) * 10_000,
        0 < reserve_in + input,
        (reserve_in + input) * (reserve_out - paid) >= reserve_in * reserve_out,
        (reserve_in + input) * (reserve_out - paid - 1) < reserve_in * reserve_out,
    ensures
        input_after_fee(amount_in, fee_bps) == input,
        swap_output(reserve_in, reserve_out, fee_bps, amount_in) == paid,
{
    lemma_div_from_bounds(amount_in * (10_000 - fee_bps), 10_000, input);
    let joined = reserve_in + input;
    let kept = reserve_out - paid;
    assert(joined * kept == kept * joined && joined * (kept - 1) == (kept - 1) * joined)
        by (nonlinear_arith);
    lemma_div_ceil_from_bounds(reserve_in * reserve_out, joined, kept);
}

/// The example in the documentation of `swap`: 10_000 units in, at 30 basis
/// points, against reserves of 1_000_000 and 2_000_000, buy 19_743 units out.
pub proof fn lemma_swap_example()
    ensures
        input_after_fee(10_000, 30) == 9_970,
        output_reserve_kept(1_000_000, 2_000_000, 9_970) == 1_980_257,
        swap_spec(1_000_000, 2_000_000, 30, 10_000, 0) == Ok::<SwapQuote, AmmError>(
            SwapQuote { amount_in: 10_000, amount_out: 19_743 },
        ),
{
    assert(9_970int * 10_000 <= 10_000int * (10_000 - 30) < (9_970int + 1) * 10_000);
    assert(1_000_000int * 2_000_000 == 2_000_000_000_000);
    assert((1_000_000int + 9_970) * (2_000_000 - 19_743) == 2_000_000_162_290);
    assert((1_000_000int + 9_970) * (2_000_000 - 19_743 - 1) == 1_999_999_152_320);
    lemma_swap_output_is_determined(1_000_000, 2_000_000, 30, 10_000, 9_970, 19_743);
}

/// The minimum that a caller states is compared with the exact output. A
/// granted swap is granted again, with the same quote, when the caller asks
/// for exactly the output it pays; asking for one unit more is refused with
/// `SlippageExceeded`.
pub proof fn lemma_swap_slippage_boundary(
    reserve_in: u64,
    reserve_out: u64,
    fee_bps: u16,
    amount_in: u64,
    min_amount_out: u64,
)
    requires
        swap_spec(reserve_in, reserve_out, fee_bps, amount_in, min_amount_out) is Ok,
    ensures
        ({
            let granted = swap_spec(reserve_in, reserve_out, fee_bps, amount_in, min_amount_out);
            let paid = granted->Ok_0.amount_out;
            &&& swap_spec(reserve_in, reserve_out, fee_bps, amount_in, paid) == granted
            &&& paid < u64::MAX ==> swap_spec(
                reserve_in,
                reserve_out,
                fee_bps,
                amount_in,
                (paid + 1) as u64,
            ) == Err::<SwapQuote, AmmError>(AmmError::SlippageExceeded)
        }),
{
    lemma_swap_output_bounds(
        reserve_in as int,
        reserve_out as int,
        fee_bps as int,
        amount_in as int,
    );
}

/// A proportional amount that was granted is the exact ratio rounded down.
pub proof fn lemma_proportional_amounts_value(
    reserve_x: u64,
    reserve_y: u64,
    share_supply: u64,
    shares: u64,
    decimals: u8,
)
    requires
        proportional_amounts(reserve_x, reserve_y, share_supply, shares, decimals) is Ok,
    ensures
        share_supply > 0,
        proportional_amounts(reserve_x, reserve_y, share_supply, shares, decimals)->Ok_0.0 == (shares
            * reserve_x) / (share_supply as int),
        proportional_amounts(reserve_x, reserve_y, share_supply, shares, decimals)->Ok_0.1 == (shares
            * reserve_y) / (share_supply as int),
{
    lemma_u64_product_fits(shares, reserve_x);
    lemma_u64_product_fits(shares, reserve_y);
    lemma_div_is_ordered(0, shares * reserve_x, share_supply as int);
    lemma_div_is_ordered(0, shares * reserve_y, share_supply as int);
}

/// A proportional amount is within one unit of the exact ratio, and never
/// above it.
pub proof fn lemma_proportional_amounts_within_one_unit(
    reserve_x: u64,
    reserve_y: u64,
    share_supply: u64,
    shares: u64,
    decimals: u8,
)
    requires
        proportional_amounts(reserve_x, reserve_y, share_supply, shares, decimals) is Ok,
    ensures
        ({
            let amounts = proportional_amounts(
                reserve_x,
                reserve_y,
                share_supply,
                shares,
                decimals,
            )->Ok_0;
            &&& amounts.0 * share_supply <= shares * reserve_x < (amounts.0 + 1) * share_supply
            &&& amounts.1 * share_supply <= shares * reserve_y < (amounts.1 + 1) * share_supply
        }),
{
    lemma_proportional_amounts_value(reserve_x, reserve_y, share_supply, shares, decimals);
    let supply = share_supply as int;
    lemma_fundamental_div_mod(shares * reserve_x, supply);
    lemma_fundamental_div_mod(shares * reserve_y, supply);
    let x = (shares * reserve_x) / supply;
    let y = (shares * reserve_y) / supply;
    assert(x * supply == supply * x && (x + 1) * supply == supply * x + supply) by (nonlinear_arith);
    assert(y * supply == supply * y && (y + 1) * supply == supply * y + supply) by (nonlinear_arith);
}

/// Paying `shares * reserve / supply` (rounded down) into a reserve for
/// `shares` new shares, and then redeeming the same `shares`, returns exactly
/// what was paid.
pub proof fn lemma_redeem_after_issue(reserve: int, supply: int, shares: int)
    requires
        0 <= reserve,
        0 < supply,
        0 <= shares,
    ensures
        (shares * (reserve + shares * reserve / supply)) / (supply + shares) == shares * reserve
            / supply,
{
    let paid = shares * reserve / supply;
    let rest = (shares * reserve) % supply;
    lemma_fundamental_div_mod(shares * reserve, supply);
    assert(paid * (supply + shares) <= shares * (reserve + paid) < (paid + 1) * (supply + shares))
        by (nonlinear_arith)
        requires
            shares * reserve == supply * paid + rest,
            0 <= rest < supply,
            0 <= shares,
    ;
    lemma_div_from_bounds(shares * (reserve + paid), supply + shares, paid);
}

/// Shares bought by a proportional deposit and redeemed at once, against the
/// reserves and the supply that the deposit left behind, pay back no more of
/// either asset than the deposit cost.
pub proof fn lemma_withdraw_after_deposit(
    reserve_x: u64,
    reserve_y: u64,
    share_supply: u64,
    shares: u64,
    decimals: u8,
    withdraw_decimals: u8,
)
    requires
        deposit_amounts_spec(reserve_x, reserve_y, share_supply, shares, decimals) is Ok,
        ({
            let paid = deposit_amounts_spec(reserve_x, reserve_y, share_supply, shares, decimals)->Ok_0;
            &&& reserve_x + paid.amount_x <= u64::MAX
            &&& reserve_y + paid.amount_y <= u64::MAX
            &&& share_supply + shares <= u64::MAX
            &&& withdraw_amounts_spec(
                (reserve_x + paid.amount_x) as u64,
                (reserve_y + paid.amount_y) as u64,
                (share_supply + shares) as u64,
                shares,
                withdraw_decimals,
            ) is Ok
        }),
    ensures
        ({
            let paid = deposit_amounts_spec(reserve_x, reserve_y, share_supply, shares, decimals)->Ok_0;
            let back = withdraw_amounts_spec(
                (reserve_x + paid.amount_x) as u64,
                (reserve_y + paid.amount_y) as u64,
                (share_supply + shares) as u64,
                shares,
                withdraw_decimals,
            )->Ok_0;
            &&& back.amount_x <= paid.amount_x
            &&& back.amount_y <= paid.amount_y
        }),
{
    let paid = deposit_amounts_spec(reserve_x, reserve_y, share_supply, shares, decimals)->Ok_0;
    lemma_proportional_amounts_value(reserve_x, reserve_y, share_supply, shares, decimals);
    lemma_proportional_amounts_value(
        (reserve_x + paid.amount_x) as u64,
        (reserve_y + paid.amount_y) as u64,
        (share_supply + shares) as u64,
        shares,
        withdraw_decimals,
    );
    lemma_redeem_after_issue(reserve_x as int, share_supply as int, shares as int);
    lemma_redeem_after_issue(reserve_y as int, share_supply as int, shares as int);
}

/// Redeeming the whole supply pays out the whole of both reserves.
pub proof fn lemma_redeem_whole_supply(reserve: int, supply: int)
    requires
        0 <= reserve,
        0 < supply,
    ensures
        (supply * reserve) / supply == reserve,
{
    lemma_div_by_multiple(reserve, supply);
    assert(supply * reserve == reserve * supply) by (nonlinear_arith);
}

/// Amounts of both assets owed for `shares_requested` new shares of a pool
/// that already has liquidity: `shares_requested * reserve / share_supply` for
/// each asset, rounded down and carried through the decimal scale
/// `10^decimals`.
///
/// A pool without shares has no ratio to go by (`DivisionByZero`); the first
/// deposit is priced by its depositor, not by this function. Outstanding shares
/// over an empty reserve are refused with `InsufficientLiquidity`, and a value
/// that leaves the working range with `ArithmeticOverflow`.
pub fn deposit_amounts(
    reserve_x: u64,
    reserve_y: u64,
    share_supply: u64,
    shares_requested: u64,
    decimals: u8,
) -> (r: Result<DepositQuote, AmmError>)
    ensures
        r == deposit_amounts_spec(reserve_x, reserve_y, share_supply, shares_requested, decimals),
        r matches Ok(cost) ==> {
            &&& cost.amount_x * share_supply <= shares_requested * reserve_x < (cost.amount_x + 1)
                * share_supply
            &&& cost.amount_y * share_supply <= shares_requested * reserve_y < (cost.amount_y + 1)
                * share_supply
        },
{
    proof {
        if deposit_amounts_spec(reserve_x, reserve_y, share_supply, shares_requested, decimals)
            is Ok {
            lemma_proportional_amounts_within_one_unit(
                reserve_x,
                reserve_y,
                share_supply,
                shares_requested,
                decimals,
            );
        }
    }
    if share_supply == 0 {
        return Err(AmmError::DivisionByZero);
    }
    if reserve_x == 0 || reserve_y == 0 {
        return Err(AmmError::InsufficientLiquidity);
    }
    let amount_x: u64 = match scale_ratio(shares_requested, reserve_x, share_supply, decimals) {
        Ok(v) => v,
        Err(e) => {
            return Err(e);
        },
    };
    let amount_y: u64 = match scale_ratio(shares_requested, reserve_y, share_supply, decimals) {
        Ok(v) => v,
        Err(e) => {
            return Err(e);
        },
    };
    Ok(DepositQuote { amount_x, amount_y })
}

/// Amounts of both assets that `shares_burned` shares redeem:
/// `shares_burned * reserve / share_supply` for each asset, rounded down and
/// carried through the decimal scale `10^decimals`.
///
/// Fails with `DivisionByZero` when no shares are outstanding and with
/// `ArithmeticOverflow` when a value leaves the working range.
pub fn withdraw_amounts(
    reserve_x: u64,
    reserve_y: u64,
    share_supply: u64,
    shares_burned: u64,
    decimals: u8,
) -> (r: Result<WithdrawQuote, AmmError>)
    ensures
        r == withdraw_amounts_spec(reserve_x, reserve_y, share_supply, shares_burned, decimals),
        r matches Ok(paid) ==> {
            &&& paid.amount_x * share_supply <= shares_burned * reserve_x < (paid.amount_x + 1)
                * share_supply
            &&& paid.amount_y * share_supply <= shares_burned * reserve_y < (paid.amount_y + 1)
                * share_supply
        },
{
    proof {
        if withdraw_amounts_spec(reserve_x, reserve_y, share_supply, shares_burned, decimals)
            is Ok {
            lemma_proportional_amounts_within_one_unit(
                reserve_x,
                reserve_y,
                share_supply,
                shares_burned,
                decimals,
            );
        }
    }
    let amount_x: u64 = match scale_ratio(shares_burned, reserve_x, share_supply, decimals) {
        Ok(v) => v,
        Err(e) => {
            return Err(e);
        },
    };
    let amount_y: u64 = match scale_ratio(shares_burned, reserve_y, share_supply, decimals) {
        Ok(v) => v,
        Err(e) => {
            return Err(e);
        },
    };
    Ok(WithdrawQuote { amount_x, amount_y })
}

/// Prices a swap of `amount_in` units against the two reserves.
///
/// The fee is taken from the input before the exchange: only
/// `amount_in * (10000 - fee_bps) / 10000` units buy output. The output
/// reserve keeps the least amount that holds the product of the reserves at
/// its old value, so the amount paid out is rounded down, in the pool's
/// favour. The whole `amount_in` is owed by the trader; the fee stays in the
/// pool.
///
/// With reserves of 1_000_000 and 2_000_000 and a fee of 30 basis points,
/// 10_000 units in buy 19_743 units out: 9_970 of them take part, and of the
/// product 2_000_000_000_000 the output reserve keeps 1_980_257.
///
/// Fails with `ArithmeticOverflow` for a fee above 10000 basis points, with
/// `DivisionByZero` when the input reserve and the input after the fee are
/// both zero, with `ZeroOutput` when not a single unit can be paid out, and
/// with `SlippageExceeded` when the output is below `min_amount_out`.
pub fn swap(reserve_in: u64, reserve_out: u64, fee_bps: u16, amount_in: u64, min_amount_out: u64)
    -> (r: Result<SwapQuote, AmmError>)
    ensures
        r == swap_spec(reserve_in, reserve_out, fee_bps, amount_in, min_amount_out),
        r matches Ok(quote) ==> {
            &&& 0 < amount_in == quote.amount_in
            &&& 0 < quote.amount_out <= reserve_out
            &&& min_amount_out <= quote.amount_out
            &&& (reserve_in + quote.amount_in) * (reserve_out - quote.amount_out) >= reserve_in
                * reserve_out
        },
{
    proof {
        if swap_spec(reserve_in, reserve_out, fee_bps, amount_in, min_amount_out) is Ok {
            lemma_swap_never_lowers_product(
                reserve_in,
                reserve_out,
                fee_bps,
                amount_in,
                min_amount_out,
            );
        }
    }
    if fee_bps > BPS_DENOMINATOR {
        return Err(AmmError::ArithmeticOverflow);
    }
    let kept_bps: u128 = (BPS_DENOMINATOR - fee_bps) as u128;
    proof {
        lemma_input_after_fee_bounds(amount_in as int, fee_bps as int);
        lemma_u64_product_fits(reserve_in, reserve_out);
        assert(amount_in * kept_bps <= u128::MAX) by (nonlinear_arith)
            requires
                0 <= amount_in <= u64::MAX,
                0 <= kept_bps <= 10_000,
        ;
    }
    let input: u128 = (amount_in as u128) * kept_bps / (BPS_DENOMINATOR as u128);
    let new_reserve_in: u128 = reserve_in as u128 + input;
    let product: u128 = (reserve_in as u128) * (reserve_out as u128);
    let kept: u128 = match checked_div_ceil(product, new_reserve_in) {
        Ok(v) => v,
        Err(e) => {
            return Err(e);
        },
    };
    proof {
        lemma_swap_output_bounds(
            reserve_in as int,
            reserve_out as int,
            fee_bps as int,
            amount_in as int,
        );
    }
    let amount_out: u64 = (reserve_out as u128 - kept) as u64;
    if amount_out == 0 {
        Err(AmmError::ZeroOutput)
    } else if amount_out < min_amount_out {
        Err(AmmError::SlippageExceeded)
    } else {
        Ok(SwapQuote { amount_in, amount_out })
    }
}

} // verus!
