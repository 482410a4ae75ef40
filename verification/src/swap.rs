//! Swap: one asset is paid in, the other is paid out along the curve.

use vstd::prelude::*;
use crate::curve::{
    lemma_swap_never_lowers_product, lemma_swap_slippage_boundary, swap, swap_spec, SwapQuote,
};
use crate::error::AmmError;
use crate::ledger::{Asset, LedgerCall, Owner};
use crate::pool::{lemma_after_pair, Direction, PoolModel, PoolState};

verus! {

impl Direction {
    /// The asset that a swap in this direction takes in.
    pub open spec fn asset_in(self) -> Asset {
        match self {
            Direction::XtoY => Asset::X,
            Direction::YtoX => Asset::Y,
        }
    }

    /// The asset that a swap in this direction pays out.
    pub open spec fn asset_out(self) -> Asset {
        match self {
            Direction::XtoY => Asset::Y,
            Direction::YtoX => Asset::X,
        }
    }
}

/// A swap against the pool whose snapshot it holds.
#[derive(Clone, Copy, Debug)]
pub struct Swap {
    /// The pool as it stands when the swap is made.
    pub pool: PoolState,
}

impl Swap {
    /// What a swap of `amount` units in `direction` moves, or why it is
    /// refused.
    pub open spec fn quote(pool: PoolModel, direction: Direction, amount: u64, min: u64) -> Result<
        SwapQuote,
        AmmError,
    > {
        if pool.locked {
            Err(AmmError::PoolLocked)
        } else if amount == 0 {
            Err(AmmError::InvalidAmount)
        } else {
            swap_spec(
                pool.reserve_in(direction),
                pool.reserve_out(direction),
                pool.fee_bps,
                amount,
                min,
            )
        }
    }

    /// The ledger calls of a granted swap, in the order in which they are
    /// issued: the input in, the output out.
    pub open spec fn calls(direction: Direction, moved: SwapQuote) -> Seq<LedgerCall> {
        seq![
            LedgerCall::pay_in(direction.asset_in(), moved.amount_in),
            LedgerCall::pay_out(direction.asset_out(), moved.amount_out),
        ]
    }

    /// A swap against `pool`.
    pub fn new(pool: PoolState) -> (s: Swap)
        ensures
            s.pool == pool,
    {
        Swap { pool }
    }

    /// Pays `amount` units in, in `direction`, for at least `min` units of
    /// the other asset.
    ///
    /// Returns the ledger calls that carry the swap out: the transfer of the
    /// whole `amount` from the trader into the pool, then the transfer of the
    /// output from the pool to the trader. An `Err` hands out no call at all.
    /// A locked pool refuses with `PoolLocked` whatever else is asked; an
    /// unlocked one refuses a zero input with `InvalidAmount`, and hands on
    /// unchanged whatever the curve refuses.
    ///
    /// Once the ledger has applied the calls, the input reserve has grown by
    /// `amount`, the output reserve has shrunk by the output, and the product
    /// of the two reserves is no smaller than it was.
    pub fn swap(&self, direction: Direction, amount: u64, min: u64) -> (r: Result<
        Vec<LedgerCall>,
        AmmError,
    >)
        ensures
            match r {
                Ok(calls) => {
                    &&& Self::quote(self.pool@, direction, amount, min) is Ok
                    &&& calls@ == Self::calls(
                        direction,
                        Self::quote(self.pool@, direction, amount, min)->Ok_0,
                    )
                },
                Err(e) => Self::quote(self.pool@, direction, amount, min) == Err::<
                    SwapQuote,
                    AmmError,
                >(e),
            },
            self.pool@.locked ==> r == Err::<Vec<LedgerCall>, AmmError>(AmmError::PoolLocked),
            !self.pool@.locked && amount == 0 ==> r == Err::<Vec<LedgerCall>, AmmError>(
                AmmError::InvalidAmount,
            ),
            r matches Ok(calls) ==> {
                let moved = Self::quote(self.pool@, direction, amount, min)->Ok_0;
                let after = self.pool@.after(calls@);
                &&& moved.amount_in == amount
                &&& min <= moved.amount_out <= self.pool@.reserve_out(direction)
                &&& 0 < moved.amount_out
                &&& self.pool@.accepts_all(calls@) <==> self.pool@.reserve_in(direction) + amount
                    <= u64::MAX
                &&& self.pool@.accepts_all(calls@) ==> {
                    &&& after.reserve_in(direction) == self.pool@.reserve_in(direction) + amount
                    &&& after.reserve_out(direction) == self.pool@.reserve_out(direction)
                        - moved.amount_out
                    &&& after.share_supply == self.pool@.share_supply
                    &&& after.fee_bps == self.pool@.fee_bps
                    &&& after.locked == self.pool@.locked
                    &&& after.reserve_x * after.reserve_y >= self.pool@.reserve_x
                        * self.pool@.reserve_y
                }
            },
    {
        if self.pool.locked() {
            return Err(AmmError::PoolLocked);
        }
        if amount == 0 {
            return Err(AmmError::InvalidAmount);
        }
        let (reserve_in, reserve_out) = self.pool.reserves(direction);
        let moved: SwapQuote = match swap(reserve_in, reserve_out, self.pool.fee_bps(), amount, min) {
            Ok(q) => q,
            Err(e) => {
                return Err(e);
            },
        };
        let is_x: bool = match direction {
            Direction::XtoY => true,
            Direction::YtoX => false,
        };
        let mut calls: Vec<LedgerCall> = Vec::new();
        calls.push(self.deposit_tokens(is_x, moved.amount_in));
        calls.push(self.withdraw_tokens(is_x, moved.amount_out));
        proof {
            assert(calls@ == Self::calls(direction, moved));
            lemma_swap_meets_minimum(self.pool@, direction, amount, min);
            lemma_swap_effect(self.pool@, direction, moved);
            if self.pool@.accepts_all(calls@) {
                lemma_swap_keeps_invariant(self.pool@, direction, amount, min);
            }
        }
        Ok(calls)
    }

    /// The transfer of `amount` units from the trader into the pool: of
    /// asset X where `is_x` holds, of asset Y otherwise.
    pub fn deposit_tokens(&self, is_x: bool, amount: u64) -> (call: LedgerCall)
        ensures
            call == LedgerCall::pay_in(
                if is_x {
                    Asset::X
                } else {
                    Asset::Y
                },
                amount,
            ),
    {
        let asset: Asset = if is_x {
            Asset::X
        } else {
            Asset::Y
        };
        LedgerCall::Transfer { source: Owner::User, dest: Owner::Pool, asset, amount }
    }

    /// The transfer of `amount` units from the pool to the trader, under the
    /// pool's control authority. `is_x` names the asset that was paid in, so
    /// the transfer is of asset Y where it holds and of asset X otherwise.
    pub fn withdraw_tokens(&self, is_x: bool, amount: u64) -> (call: LedgerCall)
        ensures
            call == LedgerCall::pay_out(
                if is_x {
                    Asset::Y
                } else {
                    Asset::X
                },
                amount,
            ),
    {
        let asset: Asset = if is_x {
            Asset::Y
        } else {
            Asset::X
        };
        LedgerCall::Transfer { source: Owner::Pool, dest: Owner::User, asset, amount }
    }
}

/// What the calls of a swap do to the pool: the input reserve grows by the
/// whole input, the output reserve shrinks by the output and the share supply
/// stays. The ledger can apply them exactly when the input reserve has room
/// for the input and the output reserve holds the output.
pub proof fn lemma_swap_effect(pool: PoolModel, direction: Direction, moved: SwapQuote)
    ensures
        pool.accepts_all(Swap::calls(direction, moved)) <==> {
            &&& pool.reserve_in(direction) + moved.amount_in <= u64::MAX
            &&& moved.amount_out <= pool.reserve_out(direction)
        },
        pool.accepts_all(Swap::calls(direction, moved)) ==> {
            let after = pool.after(Swap::calls(direction, moved));
            &&& after.reserve_in(direction) == pool.reserve_in(direction) + moved.amount_in
            &&& after.reserve_out(direction) == pool.reserve_out(direction) - moved.amount_out
            &&& after.share_supply == pool.share_supply
            &&& after.fee_bps == pool.fee_bps
            &&& after.locked == pool.locked
        },
{
    lemma_after_pair(
        pool,
        LedgerCall::pay_in(direction.asset_in(), moved.amount_in),
        LedgerCall::pay_out(direction.asset_out(), moved.amount_out),
    );
}

/// A swap never lowers the product of the reserves. Once the calls of a
/// granted swap are applied, `reserve_x * reserve_y` is at least what it was;
/// where the pool charges a fee and both reserves were funded, it is more.
pub proof fn lemma_swap_keeps_invariant(pool: PoolModel, direction: Direction, amount: u64, min: u64)
    requires
        Swap::quote(pool, direction, amount, min) is Ok,
        pool.accepts_all(Swap::calls(direction, Swap::quote(pool, direction, amount, min)->Ok_0)),
    ensures
        ({
            let after = pool.after(
                Swap::calls(direction, Swap::quote(pool, direction, amount, min)->Ok_0),
            );
            &&& after.reserve_x * after.reserve_y >= pool.reserve_x * pool.reserve_y
            &&& pool.fee_bps > 0 && pool.reserve_x > 0 && pool.reserve_y > 0 ==> after.reserve_x
                * after.reserve_y > pool.reserve_x * pool.reserve_y
        }),
{
    let moved = Swap::quote(pool, direction, amount, min)->Ok_0;
    let after = pool.after(Swap::calls(direction, moved));
    lemma_swap_effect(pool, direction, moved);
    lemma_swap_never_lowers_product(
        pool.reserve_in(direction),
        pool.reserve_out(direction),
        pool.fee_bps,
        amount,
        min,
    );
    assert(after.reserve_x * after.reserve_y == after.reserve_in(direction) * after.reserve_out(
        direction,
    )) by (nonlinear_arith)
        requires
            (after.reserve_in(direction) == after.reserve_x && after.reserve_out(direction)
                == after.reserve_y) || (after.reserve_in(direction) == after.reserve_y
                && after.reserve_out(direction) == after.reserve_x),
    ;
    assert(pool.reserve_x * pool.reserve_y == pool.reserve_in(direction) * pool.reserve_out(
        direction,
    )) by (nonlinear_arith)
        requires
            (pool.reserve_in(direction) == pool.reserve_x && pool.reserve_out(direction)
                == pool.reserve_y) || (pool.reserve_in(direction) == pool.reserve_y
                && pool.reserve_out(direction) == pool.reserve_x),
    ;
}

/// The minimum that a trader states is compared with the exact output. A
/// granted swap is granted again, with the same quote, when the trader asks
/// for exactly the output it pays; asking for one unit more is refused with
/// `SlippageExceeded`.
pub proof fn lemma_swap_minimum_is_exact(pool: PoolModel, direction: Direction, amount: u64, min: u64)
    requires
        Swap::quote(pool, direction, amount, min) is Ok,
    ensures
        ({
            let granted = Swap::quote(pool, direction, amount, min);
            let paid = granted->Ok_0.amount_out;
            &&& Swap::quote(pool, direction, amount, paid) == granted
            &&& paid < u64::MAX ==> Swap::quote(pool, direction, amount, (paid + 1) as u64) == Err::<
                SwapQuote,
                AmmError,
            >(AmmError::SlippageExceeded)
        }),
{
    lemma_swap_slippage_boundary(
        pool.reserve_in(direction),
        pool.reserve_out(direction),
        pool.fee_bps,
        amount,
        min,
    );
}

/// A granted swap takes in the whole input and never pays less than the
/// trader's minimum, nor nothing.
pub proof fn lemma_swap_meets_minimum(pool: PoolModel, direction: Direction, amount: u64, min: u64)
    requires
        Swap::quote(pool, direction, amount, min) is Ok,
    ensures
        Swap::quote(pool, direction, amount, min)->Ok_0.amount_in == amount,
        Swap::quote(pool, direction, amount, min)->Ok_0.amount_out >= min,
        Swap::quote(pool, direction, amount, min)->Ok_0.amount_out > 0,
        amount > 0,
        !pool.locked,
{
    lemma_swap_never_lowers_product(
        pool.reserve_in(direction),
        pool.reserve_out(direction),
        pool.fee_bps,
        amount,
        min,
    );
}

/// A granted swap never pays more than the pool holds, and leaves a
/// consistent pool consistent.
pub proof fn lemma_swap_keeps_consistency(pool: PoolModel, direction: Direction, amount: u64, min: u64)
    requires
        pool.consistent(),
        Swap::quote(pool, direction, amount, min) is Ok,
        pool.reserve_in(direction) + amount <= u64::MAX,
    ensures
        pool.accepts_all(Swap::calls(direction, Swap::quote(pool, direction, amount, min)->Ok_0)),
        pool.after(
            Swap::calls(direction, Swap::quote(pool, direction, amount, min)->Ok_0),
        ).consistent(),
{
    let moved = Swap::quote(pool, direction, amount, min)->Ok_0;
    lemma_swap_never_lowers_product(
        pool.reserve_in(direction),
        pool.reserve_out(direction),
        pool.fee_bps,
        amount,
        min,
    );
    lemma_swap_effect(pool, direction, moved);
}

} // verus!
