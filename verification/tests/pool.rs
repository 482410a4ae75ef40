use amm_engine::ledger::{Asset, LedgerCall, Owner};
use amm_engine::pool::{Direction, PoolState, DECIMALS_NORMALIZATION, MAX_FEE_BPS};

fn pay_in(asset: Asset, amount: u64) -> LedgerCall {
    LedgerCall::Transfer { source: Owner::User, dest: Owner::Pool, asset, amount }
}

fn pay_out(asset: Asset, amount: u64) -> LedgerCall {
    LedgerCall::Transfer { source: Owner::Pool, dest: Owner::User, asset, amount }
}

#[test]
fn pool_accessors_read_back_what_was_given() {
    let pool = PoolState::new(11, 22, 33, 44, true);
    assert_eq!(pool.reserve_x(), 11);
    assert_eq!(pool.reserve_y(), 22);
    assert_eq!(pool.share_supply(), 33);
    assert_eq!(pool.fee_bps(), 44);
    assert!(pool.locked());
    assert_eq!(pool.decimals_normalization(), 6);
    assert_eq!(DECIMALS_NORMALIZATION, 6);
    assert_eq!(MAX_FEE_BPS, 10_000);
}

#[test]
fn pool_reserves_follow_the_direction() {
    let pool = PoolState::new(11, 22, 33, 44, false);
    assert_eq!(pool.reserves(Direction::XtoY), (11, 22));
    assert_eq!(pool.reserves(Direction::YtoX), (22, 11));
}

#[test]
fn pool_emptiness() {
    assert!(PoolState::new(0, 0, 0, 30, false).is_empty());
    assert!(!PoolState::new(1, 0, 0, 30, false).is_empty());
    assert!(!PoolState::new(0, 1, 0, 30, false).is_empty());
    assert!(!PoolState::new(0, 0, 1, 30, false).is_empty());
}

#[test]
fn pool_consistency() {
    assert!(PoolState::new(0, 0, 0, 30, false).is_consistent());
    assert!(PoolState::new(5, 7, 3, 10_000, true).is_consistent());
    assert!(PoolState::new(0, 7, 3, 0, false).is_consistent());
    assert!(PoolState::new(5, 0, 3, 0, false).is_consistent());
    // Shares over nothing, and reserves without shares.
    assert!(!PoolState::new(0, 0, 3, 30, false).is_consistent());
    assert!(!PoolState::new(5, 7, 0, 30, false).is_consistent());
    assert!(!PoolState::new(5, 0, 0, 30, false).is_consistent());
    // A fee above one whole.
    assert!(!PoolState::new(5, 7, 3, 10_001, false).is_consistent());
}

#[test]
fn apply_transfer_into_the_pool() {
    let pool = PoolState::new(100, 200, 10, 30, false);
    assert_eq!(pool.apply(&pay_in(Asset::X, 5)), Some(PoolState::new(105, 200, 10, 30, false)));
    assert_eq!(pool.apply(&pay_in(Asset::Y, 5)), Some(PoolState::new(100, 205, 10, 30, false)));
}

#[test]
fn apply_transfer_out_of_the_pool() {
    let pool = PoolState::new(100, 200, 10, 30, false);
    assert_eq!(pool.apply(&pay_out(Asset::X, 100)), Some(PoolState::new(0, 200, 10, 30, false)));
    assert_eq!(pool.apply(&pay_out(Asset::Y, 1)), Some(PoolState::new(100, 199, 10, 30, false)));
}

#[test]
fn apply_refuses_what_the_pool_does_not_hold() {
    let pool = PoolState::new(100, 200, 10, 30, false);
    assert_eq!(pool.apply(&pay_out(Asset::X, 101)), None);
    assert_eq!(pool.apply(&pay_out(Asset::Y, 201)), None);
    assert_eq!(
        pool.apply(&LedgerCall::Burn { asset: Asset::Share, source: Owner::User, amount: 11 }),
        None
    );
}

#[test]
fn apply_refuses_what_a_balance_cannot_hold() {
    let pool = PoolState::new(u64::MAX, 200, u64::MAX - 1, 30, false);
    assert_eq!(pool.apply(&pay_in(Asset::X, 1)), None);
    assert_eq!(
        pool.apply(&LedgerCall::Mint { asset: Asset::Share, dest: Owner::User, amount: 2 }),
        None
    );
    assert_eq!(
        pool.apply(&LedgerCall::Mint { asset: Asset::Share, dest: Owner::User, amount: 1 }),
        Some(PoolState::new(u64::MAX, 200, u64::MAX, 30, false))
    );
}

#[test]
fn apply_mint_and_burn_of_shares() {
    let pool = PoolState::new(100, 200, 10, 30, true);
    assert_eq!(
        pool.apply(&LedgerCall::Mint { asset: Asset::Share, dest: Owner::User, amount: 4 }),
        Some(PoolState::new(100, 200, 14, 30, true))
    );
    assert_eq!(
        pool.apply(&LedgerCall::Burn { asset: Asset::Share, source: Owner::User, amount: 10 }),
        Some(PoolState::new(100, 200, 0, 30, true))
    );
}

#[test]
fn apply_calls_that_pass_the_pool_by() {
    let pool = PoolState::new(100, 200, 10, 30, false);
    // Shares change hands: no reserve and no supply moves.
    assert_eq!(
        pool.apply(&LedgerCall::Transfer {
            source: Owner::User,
            dest: Owner::Pool,
            asset: Asset::Share,
            amount: 3
        }),
        Some(pool)
    );
    // From the user to the user.
    assert_eq!(
        pool.apply(&LedgerCall::Transfer {
            source: Owner::User,
            dest: Owner::User,
            asset: Asset::X,
            amount: 3
        }),
        Some(pool)
    );
    // An asset minted to, or burned from, the user.
    assert_eq!(
        pool.apply(&LedgerCall::Mint { asset: Asset::X, dest: Owner::User, amount: 3 }),
        Some(pool)
    );
    assert_eq!(
        pool.apply(&LedgerCall::Burn { asset: Asset::Y, source: Owner::User, amount: 3 }),
        Some(pool)
    );
}

#[test]
fn apply_asset_minted_to_or_burned_from_the_pool() {
    let pool = PoolState::new(100, 200, 10, 30, false);
    assert_eq!(
        pool.apply(&LedgerCall::Mint { asset: Asset::Y, dest: Owner::Pool, amount: 3 }),
        Some(PoolState::new(100, 203, 10, 30, false))
    );
    assert_eq!(
        pool.apply(&LedgerCall::Burn { asset: Asset::X, source: Owner::Pool, amount: 3 }),
        Some(PoolState::new(97, 200, 10, 30, false))
    );
}

#[test]
fn settle_applies_calls_in_order() {
    let pool = PoolState::new(100, 200, 10, 30, false);
    // The pool first receives what it then pays out.
    let calls = vec![pay_in(Asset::X, 50), pay_out(Asset::X, 150)];
    assert_eq!(pool.settle(&calls), Some(PoolState::new(0, 200, 10, 30, false)));
    let reversed = vec![pay_out(Asset::X, 150), pay_in(Asset::X, 50)];
    assert_eq!(pool.settle(&reversed), None);
}

#[test]
fn settle_nothing_changes_nothing() {
    let pool = PoolState::new(100, 200, 10, 30, false);
    assert_eq!(pool.settle(&Vec::new()), Some(pool));
}

#[test]
fn settle_refuses_when_a_later_call_fails() {
    let pool = PoolState::new(100, 200, 10, 30, false);
    let calls = vec![
        pay_out(Asset::X, 10),
        pay_out(Asset::Y, 20),
        LedgerCall::Burn { asset: Asset::Share, source: Owner::User, amount: 11 },
    ];
    assert_eq!(pool.settle(&calls), None);
}

#[test]
fn calls_are_authorized_by_whom_they_debit() {
    assert_eq!(pay_in(Asset::X, 5).authority(), Owner::User);
    assert_eq!(pay_out(Asset::Y, 5).authority(), Owner::Pool);
    assert_eq!(
        LedgerCall::Burn { asset: Asset::Share, source: Owner::User, amount: 5 }.authority(),
        Owner::User
    );
}

#[test]
fn mints_are_authorized_by_the_pool() {
    assert_eq!(
        LedgerCall::Mint { asset: Asset::Share, dest: Owner::User, amount: 5 }.authority(),
        Owner::Pool
    );
}

#[test]
fn fresh_pool_is_empty_and_unlocked() {
    let pool = PoolState::fresh(30).unwrap();
    assert_eq!(pool, PoolState::new(0, 0, 0, 30, false));
    assert!(pool.is_empty());
    assert!(pool.is_consistent());
    assert!(!pool.locked());
    assert!(PoolState::fresh(0).is_some());
    assert!(PoolState::fresh(10_000).is_some());
}

#[test]
fn fresh_pool_with_a_fee_above_one_whole() {
    assert_eq!(PoolState::fresh(10_001), None);
    assert_eq!(PoolState::fresh(u16::MAX), None);
}
