//! Accounting engine for a two-asset constant-product liquidity pool.
//!
//! The engine decides how many units of each asset move on a deposit, a
//! withdrawal or a swap, and how many pool shares are minted or burned. It
//! never touches a balance itself: every operation returns the ledger calls
//! that the caller has to issue, in order, inside one atomic transaction.

pub mod error;
pub mod math;
pub mod curve;
pub mod ledger;
pub mod pool;
pub mod deposit;
pub mod withdraw;
pub mod swap;
