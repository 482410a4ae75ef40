//! The ways in which an operation can be refused.

use vstd::prelude::*;

verus! {

/// Why the engine refused an operation. Every error aborts the whole
/// operation before any ledger call has been handed out.
#[derive(Clone, Copy, Debug, PartialEq, Eq, Structural)]
pub enum AmmError {
    /// The pool is administratively paused.
    PoolLocked,
    /// A caller-supplied quantity is zero or otherwise unusable.
    InvalidAmount,
    /// The exact amounts violate the bound that the caller stated.
    SlippageExceeded,
    /// An intermediate value or a result left the working range.
    ArithmeticOverflow,
    /// A quotient was asked for whose divisor is zero.
    DivisionByZero,
    /// Shares are outstanding but a reserve is empty.
    InsufficientLiquidity,
    /// The input is too small to buy a single unit of output.
    ZeroOutput,
}

/// Failures of the wager program that settles through the same ledger as the
/// pool. No operation of the pool engine returns them; they are declared beside
/// `AmmError` so that both programs take their error definitions from one place.
#[derive(Clone, Copy, Debug, PartialEq, Eq, Structural)]
pub enum CustomError {
    /// The bet is still inside the window in which the house may resolve it.
    BetNotResolved,
    /// The instruction that should carry the house signature is malformed.
    InvalidInstruction,
    /// The house signature does not verify against the bet.
    InvalidSignature,
}

} // verus!
