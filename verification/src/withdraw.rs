//! Withdraw: shares are burned and their part of both reserves is paid out.

use vstd::prelude::*;
use crate::curve::{
    lemma_proportional_amounts_value, lemma_redeem_whole_supply, lemma_withdraw_after_deposit,
    withdraw_amounts, withdraw_amounts_spec, WithdrawQuote,
};
use crate::deposit::{lemma_deposit_effect, Deposit};
use crate::error::AmmError;
use crate::ledger::{Asset, LedgerCall, Owner};
use crate::pool::{lemma_after_triple, PoolModel, PoolState, DECIMALS_NORMALIZATION};

verus! {

/// A withdrawal from the pool whose snapshot it holds.
#[derive(Clone, Copy, Debug)]
pub struct Withdraw {
    /// The pool as it stands when the withdrawal is made.
    pub pool: PoolState,
}

impl Withdraw {
    /// What burning `amount` shares pays, or why it is refused.
    pub open spec fn quote(pool: PoolModel, amount: u64, min_x: u64, min_y: u64) -> Result<
        WithdrawQuote,
        AmmError,
    > {
        if pool.locked {
            Err(AmmError::PoolLocked)
        } else if amount == 0 || (min_x == 0 && min_y == 0) {
            Err(AmmError::InvalidAmount)
        } else {
            match withdraw_amounts_spec(
                pool.reserve_x,
                pool.reserve_y,
                pool.share_supply,
                amount,
                DECIMALS_NORMALIZATION,
            ) {
                Err(e) => Err(e),
                Ok(paid) => if paid.amount_x < min_x || paid.amount_y < min_y {
                    Err(AmmError::SlippageExceeded)
                } else {
                    Ok(paid)
                },
            }
        }
    }

    /// The ledger calls of a granted withdrawal, in the order in which they
    /// are issued: asset X out, asset Y out, shares burned.
    pub open spec fn calls(paid: WithdrawQuote, amount: u64) -> Seq<LedgerCall> {
        seq![
            LedgerCall::pay_out(Asset::X, paid.amount_x),
            LedgerCall::pay_out(Asset::Y, paid.amount_y),
            LedgerCall::burn_shares(amount),
        ]
    }

    /// A withdrawal from `pool`.
    pub fn new(pool: PoolState) -> (w: Withdraw)
        ensures
            w.pool == pool,
    {
        Withdraw { pool }
    }

    /// Burns `amount` shares for at least `min_x` units of asset X and
    /// `min_y` units of asset Y.
    ///
    /// Returns the ledger calls that carry the withdrawal out: the transfer
    /// of asset X and the transfer of asset Y from the pool to the withdrawer,
    /// then the burn of `amount` shares out of the withdrawer's holdings. An
    /// `Err` hands out no call at all. A locked pool refuses with `PoolLocked`
    /// whatever else is asked; an unlocked one refuses zero shares, and two
    /// zero minima, with `InvalidAmount`, and a payment below either minimum
    /// with `SlippageExceeded`.
    ///
    /// Once the ledger has applied the calls, both reserves have shrunk by
    /// the payment and the share supply by `amount`.
    pub fn withdraw(&self, amount: u64, min_x: u64, min_y: u64) -> (r: Result<
        Vec<LedgerCall>,
        AmmError,
    >)
        ensures
            match r {
                Ok(calls) => {
                    &&& Self::quote(self.pool@, amount, min_x, min_y) is Ok
                    &&& calls@ == Self::calls(
                        Self::quote(self.pool@, amount, min_x, min_y)->Ok_0,
                        amount,
                    )
                },
                Err(e) => Self::quote(self.pool@, amount, min_x, min_y) == Err::<
                    WithdrawQuote,
                    AmmError,
                >(e),
            },
            self.pool@.locked ==> r == Err::<Vec<LedgerCall>, AmmError>(AmmError::PoolLocked),
            !self.pool@.locked && (amount == 0 || (min_x == 0 && min_y == 0)) ==> r == Err::<
                Vec<LedgerCall>,
                AmmError,
            >(AmmError::InvalidAmount),
            r matches Ok(calls) ==> {
                let paid = Self::quote(self.pool@, amount, min_x, min_y)->Ok_0;
                &&& paid.amount_x >= min_x
                &&& paid.amount_y >= min_y
                &&& self.pool@.accepts_all(calls@) <==> {
                    &&& paid.amount_x <= self.pool@.reserve_x
                    &&& paid.amount_y <= self.pool@.reserve_y
                    &&& amount <= self.pool@.share_supply
                }
                &&& self.pool@.accepts_all(calls@) ==> self.pool@.after(calls@) == (PoolModel {
                    reserve_x: (self.pool@.reserve_x - paid.amount_x) as u64,
                    reserve_y: (self.pool@.reserve_y - paid.amount_y) as u64,
                    share_supply: (self.pool@.share_supply - amount) as u64,
                    fee_bps: self.pool@.fee_bps,
                    locked: self.pool@.locked,
                })
            },
    {
        if self.pool.locked() {
            return Err(AmmError::PoolLocked);
        }
        if amount == 0 {
            return Err(AmmError::InvalidAmount);
        }
        if min_x == 0 && min_y == 0 {
            return Err(AmmError::InvalidAmount);
        }
        let paid: WithdrawQuote = match withdraw_amounts(
            self.pool.reserve_x(),
            self.pool.reserve_y(),
            self.pool.share_supply(),
            amount,
            self.pool.decimals_normalization(),
        ) {
            Ok(q) => q,
            Err(e) => {
                return Err(e);
            },
        };
        if paid.amount_x < min_x || paid.amount_y < min_y {
            return Err(AmmError::SlippageExceeded);
        }
        let mut calls: Vec<LedgerCall> = Vec::new();
        calls.push(self.withdraw_tokens(true, paid.amount_x));
        calls.push(self.withdraw_tokens(false, paid.amount_y));
        calls.push(self.burn_lp_tokens(amount));
        proof {
            assert(calls@ == Self::calls(paid, amount));
            lemma_withdraw_effect(self.pool@, paid, amount);
        }
        Ok(calls)
    }

    /// The transfer of `amount` units from the pool to the withdrawer, under
    /// the pool's control authority: of asset X where `is_x` holds, of asset
    /// Y otherwise.
    pub fn withdraw_tokens(&self, is_x: bool, amount: u64) -> (call: LedgerCall)
        ensures
            call == LedgerCall::pay_out(
                if is_x {
                    Asset::X
                } else {
                    Asset::Y
                },
                amount,
            ),
    {
        let asset: Asset = if is_x {
            Asset::X
        } else {
            Asset::Y
        };
        LedgerCall::Transfer { source: Owner::Pool, dest: Owner::User, asset, amount }
    }

    /// The burn of `amount` pool shares out of the withdrawer's holdings.
    pub fn burn_lp_tokens(&self, amount: u64) -> (call: LedgerCall)
        ensures
            call == LedgerCall::burn_shares(amount),
    {
        LedgerCall::Burn { asset: Asset::Share, source: Owner::User, amount }
    }
}

/// What the calls of a withdrawal do to the pool: both reserves shrink by
/// the payment and the share supply by the shares burned. The ledger can apply
/// them exactly when the pool holds what is paid and the shares exist.
pub proof fn lemma_withdraw_effect(pool: PoolModel, paid: WithdrawQuote, amount: u64)
    ensures
        pool.accepts_all(Withdraw::calls(paid, amount)) <==> {
            &&& paid.amount_x <= pool.reserve_x
            &&& paid.amount_y <= pool.reserve_y
            &&& amount <= pool.share_supply
        },
        pool.accepts_all(Withdraw::calls(paid, amount)) ==> pool.after(
            Withdraw::calls(paid, amount),
        ) == (PoolModel {
            reserve_x: (pool.reserve_x - paid.amount_x) as u64,
            reserve_y: (pool.reserve_y - paid.amount_y) as u64,
            share_supply: (pool.share_supply - amount) as u64,
            fee_bps: pool.fee_bps,
            locked: pool.locked,
        }),
{
    lemma_after_triple(
        pool,
        LedgerCall::pay_out(Asset::X, paid.amount_x),
        LedgerCall::pay_out(Asset::Y, paid.amount_y),
        LedgerCall::burn_shares(amount),
    );
}

/// A granted withdrawal never pays less than the withdrawer's minima.
pub proof fn lemma_withdraw_meets_minima(pool: PoolModel, amount: u64, min_x: u64, min_y: u64)
    requires
        Withdraw::quote(pool, amount, min_x, min_y) is Ok,
    ensures
        Withdraw::quote(pool, amount, min_x, min_y)->Ok_0.amount_x >= min_x,
        Withdraw::quote(pool, amount, min_x, min_y)->Ok_0.amount_y >= min_y,
        amount > 0,
        !pool.locked,
{
}

/// A part of a reserve that is redeemed for a part of the supply is no more
/// than the reserve, all of it for the whole supply, and less than a funded
/// reserve for less than the whole supply.
pub proof fn lemma_redeemed_part(reserve: int, supply: int, shares: int)
    requires
        0 <= reserve,
        0 < supply,
        0 <= shares <= supply,
    ensures
        0 <= shares * reserve / supply <= reserve,
        shares == supply ==> shares * reserve / supply == reserve,
        shares < supply && reserve > 0 ==> shares * reserve / supply < reserve,
{
    let paid = shares * reserve / supply;
    let rest = (shares * reserve) % supply;
    vstd::arithmetic::div_mod::lemma_fundamental_div_mod(shares * reserve, supply);
    assert(0 <= paid <= reserve) by (nonlinear_arith)
        requires
            shares * reserve == supply * paid + rest,
            0 <= rest < supply,
            0 <= reserve,
            0 <= shares <= supply,
    ;
    if shares == supply {
        lemma_redeem_whole_supply(reserve, supply);
    }
    if shares < supply && reserve > 0 {
        assert(paid < reserve) by (nonlinear_arith)
            requires
                shares * reserve == supply * paid + rest,
                0 <= rest < supply,
                0 < reserve,
                0 <= shares < supply,
        ;
    }
}

/// A withdrawal of shares that exist never pays more than the pool holds.
pub proof fn lemma_withdraw_within_reserves(pool: PoolModel, amount: u64, min_x: u64, min_y: u64)
    requires
        Withdraw::quote(pool, amount, min_x, min_y) is Ok,
        amount <= pool.share_supply,
    ensures
        pool.accepts_all(Withdraw::calls(Withdraw::quote(pool, amount, min_x, min_y)->Ok_0, amount)),
{
    let paid = Withdraw::quote(pool, amount, min_x, min_y)->Ok_0;
    lemma_proportional_amounts_value(
        pool.reserve_x,
        pool.reserve_y,
        pool.share_supply,
        amount,
        DECIMALS_NORMALIZATION,
    );
    lemma_redeemed_part(pool.reserve_x as int, pool.share_supply as int, amount as int);
    lemma_redeemed_part(pool.reserve_y as int, pool.share_supply as int, amount as int);
    lemma_withdraw_effect(pool, paid, amount);
}

/// A granted withdrawal of shares that exist leaves a consistent pool
/// consistent.
pub proof fn lemma_withdraw_keeps_consistency(pool: PoolModel, amount: u64, min_x: u64, min_y: u64)
    requires
        pool.consistent(),
        Withdraw::quote(pool, amount, min_x, min_y) is Ok,
        amount <= pool.share_supply,
    ensures
        pool.after(
            Withdraw::calls(Withdraw::quote(pool, amount, min_x, min_y)->Ok_0, amount),
        ).consistent(),
{
    let paid = Withdraw::quote(pool, amount, min_x, min_y)->Ok_0;
    lemma_proportional_amounts_value(
        pool.reserve_x,
        pool.reserve_y,
        pool.share_supply,
        amount,
        DECIMALS_NORMALIZATION,
    );
    lemma_redeemed_part(pool.reserve_x as int, pool.share_supply as int, amount as int);
    lemma_redeemed_part(pool.reserve_y as int, pool.share_supply as int, amount as int);
    lemma_withdraw_effect(pool, paid, amount);
}

/// Rounding never favours the caller. Where a deposit is granted, its calls
/// are applied, and the same number of shares is withdrawn at once from the
/// pool that they left, the withdrawal pays back no more of either asset than
/// the deposit cost.
pub proof fn lemma_withdraw_returns_no_more_than_deposited(
    pool: PoolModel,
    amount: u64,
    max_x: u64,
    max_y: u64,
    min_x: u64,
    min_y: u64,
)
    requires
        Deposit::quote(pool, amount, max_x, max_y) is Ok,
        pool.accepts_all(Deposit::calls(Deposit::quote(pool, amount, max_x, max_y)->Ok_0, amount)),
        Withdraw::quote(
            pool.after(Deposit::calls(Deposit::quote(pool, amount, max_x, max_y)->Ok_0, amount)),
            amount,
            min_x,
            min_y,
        ) is Ok,
    ensures
        ({
            let cost = Deposit::quote(pool, amount, max_x, max_y)->Ok_0;
            let paid = Withdraw::quote(
                pool.after(Deposit::calls(cost, amount)),
                amount,
                min_x,
                min_y,
            )->Ok_0;
            &&& paid.amount_x <= cost.amount_x
            &&& paid.amount_y <= cost.amount_y
        }),
{
    let cost = Deposit::quote(pool, amount, max_x, max_y)->Ok_0;
    let funded = pool.after(Deposit::calls(cost, amount));
    lemma_deposit_effect(pool, cost, amount);
    if pool.is_empty() {
        lemma_proportional_amounts_value(
            funded.reserve_x,
            funded.reserve_y,
            funded.share_supply,
            amount,
            DECIMALS_NORMALIZATION,
        );
        lemma_redeem_whole_supply(max_x as int, amount as int);
        lemma_redeem_whole_supply(max_y as int, amount as int);
    } else {
        lemma_withdraw_after_deposit(
            pool.reserve_x,
            pool.reserve_y,
            pool.share_supply,
            amount,
            DECIMALS_NORMALIZATION,
            DECIMALS_NORMALIZATION,
        );
    }
}

} // verus!
