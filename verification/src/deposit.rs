//! Deposit: assets enter the pool and new shares are minted for them.

use vstd::prelude::*;
use crate::curve::{deposit_amounts, deposit_amounts_spec, DepositQuote};
use crate::error::AmmError;
use crate::ledger::{Asset, LedgerCall, Owner};
use crate::pool::{lemma_after_triple, PoolModel, PoolState, DECIMALS_NORMALIZATION};

verus! {

/// A deposit into the pool whose snapshot it holds.
#[derive(Clone, Copy, Debug)]
pub struct Deposit {
    /// The pool as it stands when the deposit is made.
    pub pool: PoolState,
}

impl Deposit {
    /// What a deposit of `amount` shares costs, or why it is refused.
    ///
    /// The first deposit into an untouched pool is priced by its depositor:
    /// it costs exactly `max_x` and `max_y`. Every later one costs its
    /// proportional part of both reserves.
    pub open spec fn quote(pool: PoolModel, amount: u64, max_x: u64, max_y: u64) -> Result<
        DepositQuote,
        AmmError,
    > {
        if pool.locked {
            Err(AmmError::PoolLocked)
        } else if amount == 0 {
            Err(AmmError::InvalidAmount)
        } else {
            let priced = if pool.is_empty() {
                Ok(DepositQuote { amount_x: max_x, amount_y: max_y })
            } else {
                deposit_amounts_spec(
                    pool.reserve_x,
                    pool.reserve_y,
                    pool.share_supply,
                    amount,
                    DECIMALS_NORMALIZATION,
                )
            };
            match priced {
                Err(e) => Err(e),
                Ok(cost) => if cost.amount_x > max_x || cost.amount_y > max_y {
                    Err(AmmError::SlippageExceeded)
                } else {
                    Ok(cost)
                },
            }
        }
    }

    /// The ledger calls of a granted deposit, in the order in which they are
    /// issued: asset X in, asset Y in, shares minted.
    pub open spec fn calls(cost: DepositQuote, amount: u64) -> Seq<LedgerCall> {
        seq![
            LedgerCall::pay_in(Asset::X, cost.amount_x),
            LedgerCall::pay_in(Asset::Y, cost.amount_y),
            LedgerCall::mint_shares(amount),
        ]
    }

    /// A deposit into `pool`.
    pub fn new(pool: PoolState) -> (d: Deposit)
        ensures
            d.pool == pool,
    {
        Deposit { pool }
    }

    /// Asks for `amount` new shares against at most `max_x` units of asset X
    /// and `max_y` units of asset Y.
    ///
    /// Returns the ledger calls that carry the deposit out: the transfer of
    /// asset X and the transfer of asset Y from the depositor into the pool,
    /// then the mint of `amount` shares to the depositor. An `Err` hands out
    /// no call at all. A locked pool refuses with `PoolLocked` whatever else
    /// is asked; an unlocked one refuses zero shares with `InvalidAmount` and
    /// a cost above either maximum with `SlippageExceeded`.
    ///
    /// Once the ledger has applied the calls, both reserves have grown by the
    /// cost and the share supply by `amount`.
    pub fn deposit(&self, amount: u64, max_x: u64, max_y: u64) -> (r: Result<
        Vec<LedgerCall>,
        AmmError,
    >)
        ensures
            match r {
                Ok(calls) => {
                    &&& Self::quote(self.pool@, amount, max_x, max_y) is Ok
                    &&& calls@ == Self::calls(
                        Self::quote(self.pool@, amount, max_x, max_y)->Ok_0,
                        amount,
                    )
                },
                Err(e) => Self::quote(self.pool@, amount, max_x, max_y) == Err::<
                    DepositQuote,
                    AmmError,
                >(e),
            },
            self.pool@.locked ==> r == Err::<Vec<LedgerCall>, AmmError>(AmmError::PoolLocked),
            !self.pool@.locked && amount == 0 ==> r == Err::<Vec<LedgerCall>, AmmError>(
                AmmError::InvalidAmount,
            ),
            r matches Ok(calls) ==> {
                let cost = Self::quote(self.pool@, amount, max_x, max_y)->Ok_0;
                &&& cost.amount_x <= max_x
                &&& cost.amount_y <= max_y
                &&& self.pool@.accepts_all(calls@) <==> {
                    &&& self.pool@.reserve_x + cost.amount_x <= u64::MAX
                    &&& self.pool@.reserve_y + cost.amount_y <= u64::MAX
                    &&& self.pool@.share_supply + amount <= u64::MAX
                }
                &&& self.pool@.accepts_all(calls@) ==> self.pool@.after(calls@) == (PoolModel {
                    reserve_x: (self.pool@.reserve_x + cost.amount_x) as u64,
                    reserve_y: (self.pool@.reserve_y + cost.amount_y) as u64,
                    share_supply: (self.pool@.share_supply + amount) as u64,
                    fee_bps: self.pool@.fee_bps,
                    locked: self.pool@.locked,
                })
            },
    {
        if self.pool.locked() {
            return Err(AmmError::PoolLocked);
        }
        if amount == 0 {
            return Err(AmmError::InvalidAmount);
        }
        let cost: DepositQuote = if self.pool.is_empty() {
            DepositQuote { amount_x: max_x, amount_y: max_y }
        } else {
            match deposit_amounts(
                self.pool.reserve_x(),
                self.pool.reserve_y(),
                self.pool.share_supply(),
                amount,
                self.pool.decimals_normalization(),
            ) {
                Ok(q) => q,
                Err(e) => {
                    return Err(e);
                },
            }
        };
        if cost.amount_x > max_x || cost.amount_y > max_y {
            return Err(AmmError::SlippageExceeded);
        }
        let mut calls: Vec<LedgerCall> = Vec::new();
        calls.push(self.deposit_tokens(true, cost.amount_x));
        calls.push(self.deposit_tokens(false, cost.amount_y));
        calls.push(self.mint_lp_tokens(amount));
        proof {
            assert(calls@ == Self::calls(cost, amount));
            lemma_deposit_effect(self.pool@, cost, amount);
        }
        Ok(calls)
    }

    /// The transfer of `amount` units from the depositor into the pool: of
    /// asset X where `is_x` holds, of asset Y otherwise.
    pub fn deposit_tokens(&self, is_x: bool, amount: u64) -> (call: LedgerCall)
        ensures
            call == LedgerCall::pay_in(
                if is_x {
                    Asset::X
                } else {
                    Asset::Y
                },
                amount,
            ),
    {
        let asset: Asset = if is_x {
            Asset::X
        } else {
            Asset::Y
        };
        LedgerCall::Transfer { source: Owner::User, dest: Owner::Pool, asset, amount }
    }

    /// The mint of `amount` pool shares to the depositor, under the pool's
    /// control authority.
    pub fn mint_lp_tokens(&self, amount: u64) -> (call: LedgerCall)
        ensures
            call == LedgerCall::mint_shares(amount),
    {
        LedgerCall::Mint { asset: Asset::Share, dest: Owner::User, amount }
    }
}

/// What the calls of a deposit do to the pool: both reserves grow by the
/// cost and the share supply by the shares minted. The ledger can apply them
/// exactly when none of the three sums leaves the range of a balance.
pub proof fn lemma_deposit_effect(pool: PoolModel, cost: DepositQuote, amount: u64)
    ensures
        pool.accepts_all(Deposit::calls(cost, amount)) <==> {
            &&& pool.reserve_x + cost.amount_x <= u64::MAX
            &&& pool.reserve_y + cost.amount_y <= u64::MAX
            &&& pool.share_supply + amount <= u64::MAX
        },
        pool.accepts_all(Deposit::calls(cost, amount)) ==> pool.after(Deposit::calls(cost, amount))
            == (PoolModel {
            reserve_x: (pool.reserve_x + cost.amount_x) as u64,
            reserve_y: (pool.reserve_y + cost.amount_y) as u64,
            share_supply: (pool.share_supply + amount) as u64,
            fee_bps: pool.fee_bps,
            locked: pool.locked,
        }),
{
    lemma_after_triple(
        pool,
        LedgerCall::pay_in(Asset::X, cost.amount_x),
        LedgerCall::pay_in(Asset::Y, cost.amount_y),
        LedgerCall::mint_shares(amount),
    );
}

/// A granted deposit never costs more than the depositor's maxima.
pub proof fn lemma_deposit_within_maxima(pool: PoolModel, amount: u64, max_x: u64, max_y: u64)
    requires
        Deposit::quote(pool, amount, max_x, max_y) is Ok,
    ensures
        Deposit::quote(pool, amount, max_x, max_y)->Ok_0.amount_x <= max_x,
        Deposit::quote(pool, amount, max_x, max_y)->Ok_0.amount_y <= max_y,
        amount > 0,
        !pool.locked,
{
}

/// The first deposit sets the reserves. On an untouched, unlocked pool a
/// deposit of any positive number of shares is granted at exactly the
/// depositor's maxima, whatever the number of shares is, and once its calls
/// are applied the reserves are those maxima and the supply is those shares.
pub proof fn lemma_first_deposit_sets_reserves(pool: PoolModel, amount: u64, max_x: u64, max_y: u64)
    requires
        pool.is_empty(),
        !pool.locked,
        amount > 0,
    ensures
        Deposit::quote(pool, amount, max_x, max_y) == Ok::<DepositQuote, AmmError>(
            DepositQuote { amount_x: max_x, amount_y: max_y },
        ),
        pool.accepts_all(Deposit::calls(DepositQuote { amount_x: max_x, amount_y: max_y }, amount)),
        pool.after(Deposit::calls(DepositQuote { amount_x: max_x, amount_y: max_y }, amount)) == (
        PoolModel {
            reserve_x: max_x,
            reserve_y: max_y,
            share_supply: amount,
            fee_bps: pool.fee_bps,
            locked: pool.locked,
        }),
{
    lemma_deposit_effect(pool, DepositQuote { amount_x: max_x, amount_y: max_y }, amount);
}

/// A granted deposit leaves a consistent pool consistent, unless it is a
/// first deposit that pays in nothing of either asset.
pub proof fn lemma_deposit_keeps_consistency(pool: PoolModel, amount: u64, max_x: u64, max_y: u64)
    requires
        pool.consistent(),
        Deposit::quote(pool, amount, max_x, max_y) is Ok,
        pool.accepts_all(Deposit::calls(Deposit::quote(pool, amount, max_x, max_y)->Ok_0, amount)),
        !(pool.is_empty() && max_x == 0 && max_y == 0),
    ensures
        pool.after(
            Deposit::calls(Deposit::quote(pool, amount, max_x, max_y)->Ok_0, amount),
        ).consistent(),
{
    let cost = Deposit::quote(pool, amount, max_x, max_y)->Ok_0;
    lemma_deposit_effect(pool, cost, amount);
}

} // verus!
