//! The calls that the engine asks of the asset ledger.
//!
//! The ledger keeps, per owner, a balance of asset X, of asset Y and of pool
//! shares. The engine never calls it. An operation hands back the calls that
//! its caller must issue, in order, within one atomic transaction: each call
//! either applies in full or fails, and a failure undoes the whole operation.

use vstd::prelude::*;

verus! {

/// The three kinds of unit that the ledger keeps.
#[derive(Clone, Copy, Debug, PartialEq, Eq, Structural)]
pub enum Asset {
    /// The first asset of the pair.
    X,
    /// The second asset of the pair.
    Y,
    /// The pool's own share.
    Share,
}

/// Whose balance a call debits or credits.
#[derive(Clone, Copy, Debug, PartialEq, Eq, Structural)]
pub enum Owner {
    /// Whoever asked for the operation: the depositor, the withdrawer or the
    /// trader. A debit of this owner is authorised by its own signature.
    User,
    /// The pool's holding account. A debit of it, and every mint, is
    /// authorised by the pool's control authority.
    Pool,
}

/// One call to the ledger.
#[derive(Clone, Copy, Debug, PartialEq, Eq, Structural)]
pub enum LedgerCall {
    /// Move `amount` units of `asset` from `source` to `dest`.
    Transfer { source: Owner, dest: Owner, asset: Asset, amount: u64 },
    /// Create `amount` units of `asset` in the balance of `dest`.
    Mint { asset: Asset, dest: Owner, amount: u64 },
    /// Destroy `amount` units of `asset` out of the balance of `source`.
    Burn { asset: Asset, source: Owner, amount: u64 },
}

impl LedgerCall {
    /// The transfer that pays `amount` units of `asset` into the pool.
    pub open spec fn pay_in(asset: Asset, amount: u64) -> LedgerCall {
        LedgerCall::Transfer { source: Owner::User, dest: Owner::Pool, asset, amount }
    }

    /// The transfer that pays `amount` units of `asset` out of the pool.
    pub open spec fn pay_out(asset: Asset, amount: u64) -> LedgerCall {
        LedgerCall::Transfer { source: Owner::Pool, dest: Owner::User, asset, amount }
    }

    /// The mint of `amount` pool shares to the user.
    pub open spec fn mint_shares(amount: u64) -> LedgerCall {
        LedgerCall::Mint { asset: Asset::Share, dest: Owner::User, amount }
    }

    /// The burn of `amount` pool shares out of the user's holdings.
    pub open spec fn burn_shares(amount: u64) -> LedgerCall {
        LedgerCall::Burn { asset: Asset::Share, source: Owner::User, amount }
    }

    /// Under whose authority the call is issued: a transfer and a burn under
    /// that of the owner they debit, a mint under that of the pool.
    pub open spec fn authorized_by(self) -> Owner {
        match self {
            LedgerCall::Transfer { source, .. } => source,
            LedgerCall::Mint { .. } => Owner::Pool,
            LedgerCall::Burn { source, .. } => source,
        }
    }

    /// Under whose authority the call is issued: a transfer and a burn under
    /// that of the owner they debit, a mint under that of the pool's control
    /// authority.
    pub fn authority(&self) -> (owner: Owner)
        ensures
            owner == self.authorized_by(),
    {
        match self {
            LedgerCall::Transfer { source, .. } => *source,
            LedgerCall::Mint { .. } => Owner::Pool,
            LedgerCall::Burn { source, .. } => *source,
        }
    }
}

} // verus!
