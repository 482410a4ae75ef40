//! Checked fixed-point helpers on which the curve is built.
//!
//! Every helper works in a 128-bit range and reports, instead of wrapping or
//! saturating, when a value leaves it.

use vstd::prelude::*;
use vstd::arithmetic::div_mod::{
    lemma_div_denominator, lemma_div_multiples_vanish_quotient, lemma_fundamental_div_mod,
};
use vstd::arithmetic::mul::lemma_mul_is_commutative;
use crate::error::AmmError;

verus! {

/// Ten to the power `e`.
pub open spec fn pow10(e: nat) -> nat
    decreases e,
{
    if e == 0 {
        1
    } else {
        10 * pow10((e - 1) as nat)
    }
}

/// The quotient `a / b` rounded up, for a positive divisor.
pub open spec fn div_ceil(a: int, b: int) -> int {
    if a % b == 0 {
        a / b
    } else {
        a / b + 1
    }
}

/// What `scale_ratio` returns: `amount * numerator / denominator`, rounded
/// down, as long as every intermediate product of the scaled computation stays
/// within 128 bits and the quotient within 64.
pub open spec fn scale_ratio_spec(amount: u64, numerator: u64, denominator: u64, decimals: u8)
    -> Result<u64, AmmError> {
    let product = amount as int * numerator as int;
    let scale = pow10(decimals as nat) as int;
    if denominator == 0 {
        Err(AmmError::DivisionByZero)
    } else if scale > u128::MAX || product * scale > u128::MAX || product / (denominator as int)
        > u64::MAX {
        Err(AmmError::ArithmeticOverflow)
    } else {
        Ok((product / (denominator as int)) as u64)
    }
}

/// Powers of ten are positive and grow with the exponent.
pub proof fn lemma_pow10_monotonic(a: nat, b: nat)
    requires
        a <= b,
    ensures
        1 <= pow10(a) <= pow10(b),
    decreases b,
{
    if b == 0 {
    } else if a == b {
        lemma_pow10_monotonic((a - 1) as nat, (a - 1) as nat);
    } else {
        lemma_pow10_monotonic(a, (b - 1) as nat);
    }
}

/// The product of two 64-bit values fits in 128 bits.
pub proof fn lemma_u64_product_fits(a: u64, b: u64)
    ensures
        0 <= a * b <= 0xffff_ffff_ffff_ffff * 0xffff_ffff_ffff_ffff,
        a * b <= u128::MAX,
{
    assert(0 <= a * b <= 0xffff_ffff_ffff_ffff * 0xffff_ffff_ffff_ffff) by (nonlinear_arith)
        requires
            0 <= a <= 0xffff_ffff_ffff_ffff,
            0 <= b <= 0xffff_ffff_ffff_ffff,
    ;
}

/// `div_ceil(a, b)` is the least integer whose product with `b` reaches `a`.
pub proof fn lemma_div_ceil_is_least(a: int, b: int, m: int)
    requires
        0 <= a,
        0 < b,
    ensures
        a <= div_ceil(a, b) * b < a + b,
        0 <= div_ceil(a, b),
        a <= m * b ==> div_ceil(a, b) <= m,
{
    lemma_fundamental_div_mod(a, b);
    let q = a / b;
    let r = a % b;
    assert(a == b * q + r);
    assert(0 <= r < b);
    assert(b * q == q * b) by (nonlinear_arith);
    assert((q + 1) * b == q * b + b) by (nonlinear_arith);
    assert(0 <= q) by (nonlinear_arith)
        requires
            0 <= a,
            0 < b,
            a == q * b + r,
            0 <= r < b,
    ;
    if a <= m * b {
        assert(div_ceil(a, b) <= m) by (nonlinear_arith)
            requires
                a <= m * b,
                0 < b,
                a == q * b + r,
                0 <= r < b,
                div_ceil(a, b) == if r == 0 {
                    q
                } else {
                    q + 1
                },
        ;
    }
}

/// A quotient rounded down is the one integer that its bounds admit.
pub proof fn lemma_div_from_bounds(a: int, b: int, q: int)
    requires
        0 < b,
        q * b <= a < (q + 1) * b,
    ensures
        a / b == q,
{
    lemma_fundamental_div_mod(a, b);
    let d = a / b;
    let r = a % b;
    assert(d == q) by (nonlinear_arith)
        requires
            0 < b,
            q * b <= a < (q + 1) * b,
            a == b * d + r,
            0 <= r < b,
    ;
}

/// A quotient rounded up is the one integer that its bounds admit.
pub proof fn lemma_div_ceil_from_bounds(a: int, b: int, q: int)
    requires
        0 < b,
        (q - 1) * b < a <= q * b,
    ensures
        div_ceil(a, b) == q,
{
    lemma_fundamental_div_mod(a, b);
    let d = a / b;
    let r = a % b;
    assert(div_ceil(a, b) == q) by (nonlinear_arith)
        requires
            0 < b,
            (q - 1) * b < a <= q * b,
            a == b * d + r,
            0 <= r < b,
            div_ceil(a, b) == if r == 0 {
                d
            } else {
                d + 1
            },
    ;
}

/// Scaling a numerator up by `p` before a division and back down after it
/// does not change the rounded-down quotient.
pub proof fn lemma_scaled_division(a: int, d: int, p: int)
    requires
        0 <= a,
        0 < d,
        0 < p,
    ensures
        (a * p / d) / p == a / d,
{
    assert(0 <= a * p) by (nonlinear_arith)
        requires
            0 <= a,
            0 < p,
    ;
    lemma_div_denominator(a * p, d, p);
    lemma_div_multiples_vanish_quotient(p, a, d);
    lemma_mul_is_commutative(a, p);
    lemma_mul_is_commutative(d, p);
}

/// Product of two 128-bit values, or `ArithmeticOverflow` when it does not
/// fit in 128 bits.
pub fn checked_mul(a: u128, b: u128) -> (r: Result<u128, AmmError>)
    ensures
        a * b <= u128::MAX ==> r == Ok::<u128, AmmError>((a * b) as u128),
        a * b > u128::MAX ==> r == Err::<u128, AmmError>(AmmError::ArithmeticOverflow),
{
    match a.checked_mul(b) {
        Some(p) => Ok(p),
        None => Err(AmmError::ArithmeticOverflow),
    }
}

/// Quotient of two 128-bit values rounded down, or `DivisionByZero`.
pub fn checked_div(a: u128, b: u128) -> (r: Result<u128, AmmError>)
    ensures
        b != 0 ==> r == Ok::<u128, AmmError>(a / b),
        b == 0 ==> r == Err::<u128, AmmError>(AmmError::DivisionByZero),
{
    if b == 0 {
        Err(AmmError::DivisionByZero)
    } else {
        Ok(a / b)
    }
}

/// Quotient of two 128-bit values rounded up, or `DivisionByZero`.
pub fn checked_div_ceil(a: u128, b: u128) -> (r: Result<u128, AmmError>)
    ensures
        b != 0 ==> r == Ok::<u128, AmmError>(div_ceil(a as int, b as int) as u128),
        b != 0 ==> 0 <= div_ceil(a as int, b as int) <= a,
        b == 0 ==> r == Err::<u128, AmmError>(AmmError::DivisionByZero),
{
    if b == 0 {
        return Err(AmmError::DivisionByZero);
    }
    let q: u128 = a / b;
    let rem: u128 = a % b;
    proof {
        lemma_div_ceil_is_least(a as int, b as int, a as int);
        assert(a as int <= (a as int) * (b as int)) by (nonlinear_arith)
            requires
                0 <= a,
                1 <= b,
        ;
    }
    if rem == 0 {
        Ok(q)
    } else {
        Ok(q + 1)
    }
}

/// Ten to the power `decimals`, or `ArithmeticOverflow` when it does not fit
/// in 128 bits.
pub fn checked_pow10(decimals: u8) -> (r: Result<u128, AmmError>)
    ensures
        pow10(decimals as nat) <= u128::MAX ==> r == Ok::<u128, AmmError>(
            pow10(decimals as nat) as u128,
        ),
        pow10(decimals as nat) > u128::MAX ==> r == Err::<u128, AmmError>(
            AmmError::ArithmeticOverflow,
        ),
{
    let mut acc: u128 = 1;
    let mut i: u8 = 0;
    while i < decimals
        invariant
            i <= decimals,
            acc == pow10(i as nat),
        decreases decimals - i,
    {
        match acc.checked_mul(10) {
            Some(next) => {
                acc = next;
            },
            None => {
                proof {
                    lemma_pow10_monotonic((i + 1) as nat, decimals as nat);
                }
                return Err(AmmError::ArithmeticOverflow);
            },
        }
        i = i + 1;
    }
    Ok(acc)
}

/// Integer square root: the largest `r` whose square does not exceed `n`.
pub fn isqrt(n: u128) -> (r: u64)
    ensures
        r * r <= n,
        n < (r + 1) * (r + 1),
{
    let mut lo: u128 = 0;
    let mut hi: u128 = 0x1_0000_0000_0000_0000;
    assert(0x1_0000_0000_0000_0000int * 0x1_0000_0000_0000_0000int
        == 0x1_0000_0000_0000_0000_0000_0000_0000_0000int) by (nonlinear_arith);
    while hi - lo > 1
        invariant
            lo < hi <= 0x1_0000_0000_0000_0000,
            lo * lo <= n,
            n < hi * hi,
        decreases hi - lo,
    {
        let mid: u128 = lo + (hi - lo) / 2;
        assert(mid * mid <= u128::MAX) by (nonlinear_arith)
            requires
                0 <= mid < 0x1_0000_0000_0000_0000,
        ;
        if mid * mid <= n {
            lo = mid;
        } else {
            hi = mid;
        }
    }
    lo as u64
}

/// Overflow-safe ratio scaling: `amount * numerator / denominator`, rounded
/// down. The product is carried through the decimal scale `10^decimals` in a
/// 128-bit range, so the result is within one unit of the exact ratio; the
/// call fails with `ArithmeticOverflow` when the scale, the scaled product or
/// the quotient leaves its range, and with `DivisionByZero` when
/// `denominator` is zero.
pub fn scale_ratio(amount: u64, numerator: u64, denominator: u64, decimals: u8) -> (r: Result<
    u64,
    AmmError,
>)
    ensures
        r == scale_ratio_spec(amount, numerator, denominator, decimals),
{
    if denominator == 0 {
        return Err(AmmError::DivisionByZero);
    }
    let scale: u128 = match checked_pow10(decimals) {
        Ok(s) => s,
        Err(e) => {
            return Err(e);
        },
    };
    proof {
        lemma_pow10_monotonic(0, decimals as nat);
        lemma_u64_product_fits(amount, numerator);
    }
    let product: u128 = (amount as u128) * (numerator as u128);
    let scaled: u128 = match checked_mul(product, scale) {
        Ok(s) => s,
        Err(e) => {
            return Err(e);
        },
    };
    let quotient: u128 = (scaled / (denominator as u128)) / scale;
    proof {
        lemma_scaled_division(product as int, denominator as int, scale as int);
    }
    if quotient > u64::MAX as u128 {
        Err(AmmError::ArithmeticOverflow)
    } else {
        Ok(quotient as u64)
    }
}

} // verus!
