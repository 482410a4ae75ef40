//! One pool: its configuration and a snapshot of its live balances.
//!
//! The engine reads a pool and never writes one. The reserves and the share
//! supply change only as the ledger applies the calls that an operation
//! handed out; `PoolState::settle` tells what the next snapshot will show once
//! they have been applied.

use vstd::prelude::*;
use crate::ledger::{Asset, LedgerCall, Owner};

verus! {

/// The precision, in decimal digits, through which proportional amounts are
/// scaled.
pub const DECIMALS_NORMALIZATION: u8 = 6;

/// The highest fee that a pool can charge, in basis points.
pub const MAX_FEE_BPS: u16 = 10_000;

/// Which asset a swap takes in.
#[derive(Clone, Copy, Debug, PartialEq, Eq, Structural)]
pub enum Direction {
    /// Asset X is paid in and asset Y is paid out.
    XtoY,
    /// Asset Y is paid in and asset X is paid out.
    YtoX,
}

/// What a `PoolState` stands for: the values that contracts speak of.
pub struct PoolModel {
    /// Units of asset X that the ledger reports in the pool's holding account.
    pub reserve_x: u64,
    /// Units of asset Y that the ledger reports in the pool's holding account.
    pub reserve_y: u64,
    /// Pool shares outstanding.
    pub share_supply: u64,
    /// Fee on the input side of a swap, in basis points.
    pub fee_bps: u16,
    /// Whether the pool is administratively paused.
    pub locked: bool,
}

/// By how many units `call` changes the pool's own balance of `asset`.
pub open spec fn reserve_delta(call: LedgerCall, asset: Asset) -> int {
    match call {
        LedgerCall::Transfer { source, dest, asset: moved, amount } => {
            if moved != asset {
                0
            } else {
                (if dest == Owner::Pool {
                    amount as int
                } else {
                    0
                }) - (if source == Owner::Pool {
                    amount as int
                } else {
                    0
                })
            }
        },
        LedgerCall::Mint { asset: minted, dest, amount } => {
            if minted == asset && dest == Owner::Pool {
                amount as int
            } else {
                0
            }
        },
        LedgerCall::Burn { asset: burned, source, amount } => {
            if burned == asset && source == Owner::Pool {
                -(amount as int)
            } else {
                0
            }
        },
    }
}

/// By how many units `call` changes the number of pool shares outstanding.
pub open spec fn supply_delta(call: LedgerCall) -> int {
    match call {
        LedgerCall::Transfer { .. } => 0,
        LedgerCall::Mint { asset, amount, .. } => {
            if asset == Asset::Share {
                amount as int
            } else {
                0
            }
        },
        LedgerCall::Burn { asset, amount, .. } => {
            if asset == Asset::Share {
                -(amount as int)
            } else {
                0
            }
        },
    }
}

impl PoolModel {
    /// The pool is either untouched or has shares outstanding over at least
    /// one funded reserve, and its fee is at most one whole.
    pub open spec fn consistent(self) -> bool {
        &&& self.fee_bps <= MAX_FEE_BPS
        &&& (self.reserve_x == 0 && self.reserve_y == 0 <==> self.share_supply == 0)
    }

    /// No liquidity has been provided yet.
    pub open spec fn is_empty(self) -> bool {
        self.reserve_x == 0 && self.reserve_y == 0 && self.share_supply == 0
    }

    /// The reserve of the asset that a swap in `direction` takes in.
    pub open spec fn reserve_in(self, direction: Direction) -> u64 {
        match direction {
            Direction::XtoY => self.reserve_x,
            Direction::YtoX => self.reserve_y,
        }
    }

    /// The reserve of the asset that a swap in `direction` pays out.
    pub open spec fn reserve_out(self, direction: Direction) -> u64 {
        match direction {
            Direction::XtoY => self.reserve_y,
            Direction::YtoX => self.reserve_x,
        }
    }

    /// The ledger can apply `call` as far as the pool can tell: neither
    /// reserve and not the share supply would leave the range of a balance.
    pub open spec fn accepts(self, call: LedgerCall) -> bool {
        &&& 0 <= self.reserve_x + reserve_delta(call, Asset::X) <= u64::MAX
        &&& 0 <= self.reserve_y + reserve_delta(call, Asset::Y) <= u64::MAX
        &&& 0 <= self.share_supply + supply_delta(call) <= u64::MAX
    }

    /// The pool as the ledger reports it once `call` has been applied.
    pub open spec fn after_call(self, call: LedgerCall) -> PoolModel {
        PoolModel {
            reserve_x: (self.reserve_x + reserve_delta(call, Asset::X)) as u64,
            reserve_y: (self.reserve_y + reserve_delta(call, Asset::Y)) as u64,
            share_supply: (self.share_supply + supply_delta(call)) as u64,
            fee_bps: self.fee_bps,
            locked: self.locked,
        }
    }

    /// The ledger can apply `calls` one after the other.
    pub open spec fn accepts_all(self, calls: Seq<LedgerCall>) -> bool
        decreases calls.len(),
    {
        calls.len() == 0 || (self.accepts_all(calls.drop_last()) && self.after(
            calls.drop_last(),
        ).accepts(calls.last()))
    }

    /// The pool as the ledger reports it once `calls` have been applied one
    /// after the other.
    pub open spec fn after(self, calls: Seq<LedgerCall>) -> PoolModel
        decreases calls.len(),
    {
        if calls.len() == 0 {
            self
        } else {
            self.after(calls.drop_last()).after_call(calls.last())
        }
    }
}

/// The configuration of one pool together with a snapshot of its reserves
/// and of its share supply.
#[derive(Clone, Copy, Debug, PartialEq, Eq, Structural)]
pub struct PoolState {
    reserve_x: u64,
    reserve_y: u64,
    share_supply: u64,
    fee_bps: u16,
    locked: bool,
}

impl View for PoolState {
    type V = PoolModel;

    closed spec fn view(&self) -> PoolModel {
        PoolModel {
            reserve_x: self.reserve_x,
            reserve_y: self.reserve_y,
            share_supply: self.share_supply,
            fee_bps: self.fee_bps,
            locked: self.locked,
        }
    }
}

/// By how many units `call` changes the pool's own balance of `asset`.
fn reserve_change(call: &LedgerCall, asset: Asset) -> (d: i128)
    ensures
        d == reserve_delta(*call, asset),
{
    match call {
        LedgerCall::Transfer { source, dest, asset: moved, amount } => {
            if *moved != asset {
                0
            } else {
                let credit: i128 = if *dest == Owner::Pool {
                    *amount as i128
                } else {
                    0
                };
                let debit: i128 = if *source == Owner::Pool {
                    *amount as i128
                } else {
                    0
                };
                credit - debit
            }
        },
        LedgerCall::Mint { asset: minted, dest, amount } => {
            if *minted == asset && *dest == Owner::Pool {
                *amount as i128
            } else {
                0
            }
        },
        LedgerCall::Burn { asset: burned, source, amount } => {
            if *burned == asset && *source == Owner::Pool {
                -(*amount as i128)
            } else {
                0
            }
        },
    }
}

/// By how many units `call` changes the number of pool shares outstanding.
fn supply_change(call: &LedgerCall) -> (d: i128)
    ensures
        d == supply_delta(*call),
{
    match call {
        LedgerCall::Transfer { .. } => 0,
        LedgerCall::Mint { asset, amount, .. } => {
            if *asset == Asset::Share {
                *amount as i128
            } else {
                0
            }
        },
        LedgerCall::Burn { asset, amount, .. } => {
            if *asset == Asset::Share {
                -(*amount as i128)
            } else {
                0
            }
        },
    }
}

/// `balance + change`, where that is again a balance.
fn shifted(balance: u64, change: i128) -> (r: Option<u64>)
    requires
        -0x1_0000_0000_0000_0000 <= change <= 0x1_0000_0000_0000_0000,
    ensures
        0 <= balance + change <= u64::MAX ==> r == Some((balance + change) as u64),
        !(0 <= balance + change <= u64::MAX) ==> r.is_none(),
{
    let moved: i128 = balance as i128 + change;
    if moved < 0 || moved > u64::MAX as i128 {
        None
    } else {
        Some(moved as u64)
    }
}

impl PoolState {
    /// A pool as read from its configuration and from the ledger. Nothing is
    /// asked of the values: what `is_consistent` tells of them is for the
    /// caller to test.
    pub fn new(reserve_x: u64, reserve_y: u64, share_supply: u64, fee_bps: u16, locked: bool) -> (pool:
        PoolState)
        ensures
            pool@ == (PoolModel { reserve_x, reserve_y, share_supply, fee_bps, locked }),
    {
        PoolState { reserve_x, reserve_y, share_supply, fee_bps, locked }
    }

    /// A pool as its creation leaves it: no reserves, no shares, unlocked.
    /// There is none for a fee above `MAX_FEE_BPS`.
    pub fn fresh(fee_bps: u16) -> (r: Option<PoolState>)
        ensures
            fee_bps <= MAX_FEE_BPS ==> r.is_some() && r.unwrap()@ == (PoolModel {
                reserve_x: 0,
                reserve_y: 0,
                share_supply: 0,
                fee_bps,
                locked: false,
            }) && r.unwrap()@.consistent() && r.unwrap()@.is_empty(),
            fee_bps > MAX_FEE_BPS ==> r.is_none(),
    {
        if fee_bps > MAX_FEE_BPS {
            None
        } else {
            Some(PoolState { reserve_x: 0, reserve_y: 0, share_supply: 0, fee_bps, locked: false })
        }
    }

    /// Units of asset X in the pool's holding account.
    pub fn reserve_x(&self) -> (r: u64)
        ensures
            r == self@.reserve_x,
    {
        self.reserve_x
    }

    /// Units of asset Y in the pool's holding account.
    pub fn reserve_y(&self) -> (r: u64)
        ensures
            r == self@.reserve_y,
    {
        self.reserve_y
    }

    /// Pool shares outstanding.
    pub fn share_supply(&self) -> (r: u64)
        ensures
            r == self@.share_supply,
    {
        self.share_supply
    }

    /// Fee on the input side of a swap, in basis points.
    pub fn fee_bps(&self) -> (r: u16)
        ensures
            r == self@.fee_bps,
    {
        self.fee_bps
    }

    /// Whether the pool is administratively paused.
    pub fn locked(&self) -> (r: bool)
        ensures
            r == self@.locked,
    {
        self.locked
    }

    /// The precision, in decimal digits, of the proportional formulas.
    pub fn decimals_normalization(&self) -> (r: u8)
        ensures
            r == DECIMALS_NORMALIZATION,
    {
        DECIMALS_NORMALIZATION
    }

    /// Whether no liquidity has been provided yet.
    pub fn is_empty(&self) -> (r: bool)
        ensures
            r == self@.is_empty(),
    {
        self.reserve_x == 0 && self.reserve_y == 0 && self.share_supply == 0
    }

    /// Whether the snapshot is one that the engine can have produced: see
    /// `PoolModel::consistent`.
    pub fn is_consistent(&self) -> (r: bool)
        ensures
            r == self@.consistent(),
    {
        self.fee_bps <= MAX_FEE_BPS && ((self.reserve_x == 0 && self.reserve_y == 0) == (
        self.share_supply == 0))
    }

    /// The reserves that a swap in `direction` reads: first the one it pays
    /// into, then the one it is paid from.
    pub fn reserves(&self, direction: Direction) -> (r: (u64, u64))
        ensures
            r.0 == self@.reserve_in(direction),
            r.1 == self@.reserve_out(direction),
    {
        match direction {
            Direction::XtoY => (self.reserve_x, self.reserve_y),
            Direction::YtoX => (self.reserve_y, self.reserve_x),
        }
    }

    /// The snapshot that follows once the ledger has applied `call`, or
    /// `None` where the ledger must refuse it because a reserve or the share
    /// supply would leave the range of a balance.
    pub fn apply(&self, call: &LedgerCall) -> (r: Option<PoolState>)
        ensures
            self@.accepts(*call) ==> r.is_some() && r.unwrap()@ == self@.after_call(*call),
            !self@.accepts(*call) ==> r.is_none(),
    {
        let reserve_x: u64 = match shifted(self.reserve_x, reserve_change(call, Asset::X)) {
            Some(v) => v,
            None => {
                return None;
            },
        };
        let reserve_y: u64 = match shifted(self.reserve_y, reserve_change(call, Asset::Y)) {
            Some(v) => v,
            None => {
                return None;
            },
        };
        let share_supply: u64 = match shifted(self.share_supply, supply_change(call)) {
            Some(v) => v,
            None => {
                return None;
            },
        };
        Some(PoolState { reserve_x, reserve_y, share_supply, fee_bps: self.fee_bps, locked: self.locked })
    }

    /// The snapshot that follows once the ledger has applied `calls` in
    /// order, or `None` where it must refuse one of them.
    pub fn settle(&self, calls: &Vec<LedgerCall>) -> (r: Option<PoolState>)
        ensures
            self@.accepts_all(calls@) ==> r.is_some() && r.unwrap()@ == self@.after(calls@),
            !self@.accepts_all(calls@) ==> r.is_none(),
    {
        let mut current: PoolState = *self;
        let mut i: usize = 0;
        while i < calls.len()
            invariant
                i <= calls.len(),
                self@.accepts_all(calls@.take(i as int)),
                current@ == self@.after(calls@.take(i as int)),
            decreases calls.len() - i,
        {
            proof {
                assert(calls@.take(i + 1).drop_last() == calls@.take(i as int));
                assert(calls@.take(i + 1).last() == calls@[i as int]);
            }
            match current.apply(&calls[i]) {
                Some(next) => {
                    current = next;
                },
                None => {
                    proof {
                        if self@.accepts_all(calls@) {
                            lemma_accepts_all_prefix(self@, calls@, i + 1);
                        }
                    }
                    return None;
                },
            }
            i = i + 1;
        }
        proof {
            assert(calls@.take(i as int) == calls@);
        }
        Some(current)
    }
}

/// Calls that the ledger can apply in a row can be applied up to any point.
pub proof fn lemma_accepts_all_prefix(pool: PoolModel, calls: Seq<LedgerCall>, n: int)
    requires
        0 <= n <= calls.len(),
        pool.accepts_all(calls),
    ensures
        pool.accepts_all(calls.take(n)),
    decreases calls.len(),
{
    if n == calls.len() {
        assert(calls.take(n) == calls);
    } else {
        lemma_accepts_all_prefix(pool, calls.drop_last(), n);
        assert(calls.drop_last().take(n) == calls.take(n));
    }
}

/// Applying one call is applying it to the pool as it stands.
pub proof fn lemma_after_single(pool: PoolModel, call: LedgerCall)
    ensures
        pool.accepts_all(seq![call]) <==> pool.accepts(call),
        pool.after(seq![call]) == pool.after_call(call),
{
    let calls = seq![call];
    assert(calls.drop_last() == Seq::<LedgerCall>::empty());
    assert(calls.last() == call);
    assert(pool.after(calls.drop_last()) == pool);
    assert(pool.accepts_all(calls.drop_last()));
}

/// Applying two calls is applying the second to what the first left.
pub proof fn lemma_after_pair(pool: PoolModel, first: LedgerCall, second: LedgerCall)
    ensures
        pool.accepts_all(seq![first, second]) <==> pool.accepts(first) && pool.after_call(
            first,
        ).accepts(second),
        pool.after(seq![first, second]) == pool.after_call(first).after_call(second),
{
    let calls = seq![first, second];
    lemma_after_single(pool, first);
    assert(calls.drop_last() == seq![first]);
    assert(calls.last() == second);
}

/// Applying three calls is applying the third to what the first two left.
pub proof fn lemma_after_triple(
    pool: PoolModel,
    first: LedgerCall,
    second: LedgerCall,
    third: LedgerCall,
)
    ensures
        pool.accepts_all(seq![first, second, third]) <==> pool.accepts(first) && pool.after_call(
            first,
        ).accepts(second) && pool.after_call(first).after_call(second).accepts(third),
        pool.after(seq![first, second, third]) == pool.after_call(first).after_call(
            second,
        ).after_call(third),
{
    let calls = seq![first, second, third];
    lemma_after_pair(pool, first, second);
    assert(calls.drop_last() == seq![first, second]);
    assert(calls.last() == third);
}

} // verus!
