use amm_core::errors::AmmError;
use amm_core::pool::{apply_requests, initialize, Asset, LedgerSnapshot, Pool};

const AUTHORITY: u64 = 41;
const STRANGER: u64 = 99;

fn pool_with_fee(fee_bps: u16) -> Pool {
    initialize(1, fee_bps, Some(AUTHORITY), 11, 12).unwrap()
}

fn snap(reserve_x: u64, reserve_y: u64, share_supply: u64) -> LedgerSnapshot {
    LedgerSnapshot {
        reserve_x,
        reserve_y,
        share_supply,
    }
}

#[test]
fn initialize_sets_fields() {
    let p = initialize(7, 30, Some(AUTHORITY), 11, 12).unwrap();
    assert_eq!(p.seed, 7);
    assert_eq!(p.fee_bps, 30);
    assert_eq!(p.authority, Some(AUTHORITY));
    assert_eq!(p.asset_x, 11);
    assert_eq!(p.asset_y, 12);
    assert!(!p.locked);
}

#[test]
fn initialize_rejects_high_fee() {
    assert_eq!(
        initialize(7, 10001, None, 11, 12).map(|p| p.seed),
        Err(AmmError::InvalidFee)
    );
    assert!(initialize(7, 10000, None, 11, 12).is_ok());
}

#[test]
fn genesis_deposit_sets_price() {
    // Scenario: a fresh pool, first deposit of 1000 shares against bounds
    // (1000, 1000): the bounds themselves are deposited, no curve math.
    let p = pool_with_fee(30);
    let o = p.deposit(snap(0, 0, 0), 1000, 1000, 1000).unwrap();
    assert_eq!(o.x, 1000);
    assert_eq!(o.y, 1000);
    assert_eq!(o.after, snap(1000, 1000, 1000));
}

#[test]
fn proportional_deposit() {
    // Scenario: pool at (1000, 1000) with supply 1000; depositing 500
    // shares costs exactly (500, 500).
    let p = pool_with_fee(30);
    let o = p.deposit(snap(1000, 1000, 1000), 500, 600, 600).unwrap();
    assert_eq!(o.x, 500);
    assert_eq!(o.y, 500);
    assert_eq!(o.after, snap(1500, 1500, 1500));
}

#[test]
fn deposit_slippage_fails() {
    let p = pool_with_fee(30);
    assert!(matches!(
        p.deposit(snap(1000, 1000, 1000), 500, 499, 600),
        Err(AmmError::SlippageExceeded)
    ));
}

#[test]
fn deposit_zero_fails() {
    let p = pool_with_fee(30);
    assert!(matches!(
        p.deposit(snap(1000, 1000, 1000), 0, 100, 100),
        Err(AmmError::InvalidAmount)
    ));
}

#[test]
fn deposit_degenerate_supply_fails() {
    // Reserves without any shares: not a genesis pool, and proportional
    // math has no supply to divide by.
    let p = pool_with_fee(30);
    assert!(matches!(
        p.deposit(snap(5, 5, 0), 10, 100, 100),
        Err(AmmError::ArithmeticError)
    ));
}

#[test]
fn deposit_requests_replay_to_after() {
    let p = pool_with_fee(30);
    let before = snap(1000, 2000, 700);
    let o = p.deposit(before, 333, 1000, 1000).unwrap();
    assert_eq!(apply_requests(before, &o.requests), Some(o.after));
}

#[test]
fn swap_x_for_y() {
    // Scenario: pool at (1500, 1500), 30 bps; swapping 100 of X nets 99
    // against the curve after the 1-unit fee, and pays out
    // 1500 - ceil(2_250_000 / 1599) = 92, within the bound of 90.
    let p = pool_with_fee(30);
    let o = p.swap(snap(1500, 1500, 1500), Asset::X, 100, 90).unwrap();
    assert_eq!(o.result.fee, 1);
    assert_eq!(o.result.deposit, 99);
    assert_eq!(o.result.withdraw, 92);
    assert_eq!(o.after, snap(1600, 1408, 1500));
}

#[test]
fn swap_y_for_x_mirrors() {
    let p = pool_with_fee(30);
    let o = p.swap(snap(1500, 1500, 1500), Asset::Y, 100, 90).unwrap();
    assert_eq!(o.result.withdraw, 92);
    assert_eq!(o.after, snap(1408, 1600, 1500));
}

#[test]
fn swap_requests_replay_to_after() {
    let p = pool_with_fee(30);
    let before = snap(1500, 1500, 1500);
    let o = p.swap(before, Asset::X, 100, 90).unwrap();
    assert_eq!(apply_requests(before, &o.requests), Some(o.after));
}

#[test]
fn swap_zero_amount_fails() {
    let p = pool_with_fee(30);
    assert!(matches!(
        p.swap(snap(1500, 1500, 1500), Asset::X, 0, 0),
        Err(AmmError::InvalidAmount)
    ));
}

#[test]
fn swap_empty_pool_fails() {
    let p = pool_with_fee(30);
    assert!(matches!(
        p.swap(snap(0, 0, 0), Asset::X, 100, 0),
        Err(AmmError::ArithmeticError)
    ));
    assert!(matches!(
        p.swap(snap(0, 1500, 1500), Asset::X, 100, 0),
        Err(AmmError::ArithmeticError)
    ));
}

#[test]
fn swap_grows_product() {
    let p = pool_with_fee(30);
    let before = snap(1500, 1500, 1500);
    let o = p.swap(before, Asset::X, 100, 0).unwrap();
    let before_k = before.reserve_x as u128 * before.reserve_y as u128;
    let after_k = o.after.reserve_x as u128 * o.after.reserve_y as u128;
    assert!(after_k > before_k);
}

#[test]
fn withdraw_full_supply_drains_pool() {
    // Scenario: redeeming the whole supply of 1500 against (1600, 1407)
    // pays everything out and leaves the pool empty.
    let p = pool_with_fee(30);
    let o = p.withdraw(snap(1600, 1407, 1500), 1500, 1, 1).unwrap();
    assert_eq!(o.x, 1600);
    assert_eq!(o.y, 1407);
    assert_eq!(o.after, snap(0, 0, 0));
}

#[test]
fn withdraw_requests_replay_to_after() {
    let p = pool_with_fee(30);
    let before = snap(1600, 1407, 1500);
    let o = p.withdraw(before, 1500, 1, 1).unwrap();
    assert_eq!(apply_requests(before, &o.requests), Some(o.after));
}

#[test]
fn withdraw_slippage_fails() {
    let p = pool_with_fee(30);
    assert!(matches!(
        p.withdraw(snap(1000, 1000, 1000), 500, 501, 0),
        Err(AmmError::SlippageExceeded)
    ));
}

#[test]
fn withdraw_zero_fails() {
    let p = pool_with_fee(30);
    assert!(matches!(
        p.withdraw(snap(1000, 1000, 1000), 0, 0, 0),
        Err(AmmError::InvalidAmount)
    ));
}

#[test]
fn withdraw_more_than_supply_fails() {
    let p = pool_with_fee(30);
    assert!(matches!(
        p.withdraw(snap(10, 10, 5), 6, 0, 0),
        Err(AmmError::ArithmeticError)
    ));
}

#[test]
fn deposit_then_withdraw_returns_deposit() {
    // Round trip: depositing 333 shares and immediately withdrawing them
    // returns exactly the deposited amounts and the original balances,
    // floor rounding notwithstanding.
    let p = pool_with_fee(30);
    let before = snap(1000, 2000, 700);
    let d = p.deposit(before, 333, 1000, 1000).unwrap();
    assert_eq!((d.x, d.y), (475, 951));
    let w = p.withdraw(d.after, 333, 0, 0).unwrap();
    assert_eq!((w.x, w.y), (d.x, d.y));
    assert_eq!(w.after, before);
}

#[test]
fn withdraw_keeps_per_share_value() {
    // Rounding favors the pool on the way out: the per-share value of
    // what remains never drops.
    let p = pool_with_fee(30);
    let before = snap(1000, 999, 700);
    let o = p.withdraw(before, 123, 0, 0).unwrap();
    let s = before.share_supply as u128;
    let n = 123u128;
    assert!(o.after.reserve_x as u128 * s >= before.reserve_x as u128 * (s - n));
    assert!(o.after.reserve_y as u128 * s >= before.reserve_y as u128 * (s - n));
}

#[test]
fn deposit_supply_overflow_fails() {
    // Minting two more shares would overflow the 64-bit supply.
    let p = pool_with_fee(30);
    assert!(matches!(
        p.deposit(snap(1, 1, u64::MAX), 2, 100, 100),
        Err(AmmError::ArithmeticError)
    ));
}

#[test]
fn swap_reserve_overflow_fails() {
    // The input reserve cannot absorb 100 more units without overflow.
    let p = pool_with_fee(30);
    assert!(matches!(
        p.swap(snap(u64::MAX - 50, 1000, 10), Asset::X, 100, 0),
        Err(AmmError::ArithmeticError)
    ));
}

#[test]
fn deposit_dilution_is_bounded() {
    // A rounding deposit: 1 share into (10, 10) with supply 3 costs
    // (3, 3).  The old holders' per-share value moves by less than one
    // rounding unit of scale: 13 * 3 = 39 against 10 * 4 = 40.
    let p = pool_with_fee(0);
    let o = p.deposit(snap(10, 10, 3), 1, 100, 100).unwrap();
    assert_eq!((o.x, o.y), (3, 3));
    assert_eq!(o.after, snap(13, 13, 4));
    assert!(o.after.reserve_x as u128 * 3 <= 10 * (3 + 1) as u128);
    assert!(10 * (3 + 1) as u128 - o.after.reserve_x as u128 * 3 < 3);
}

#[test]
fn lock_gates_operations() {
    // Scenario: the authority locks the pool; deposit, withdraw and swap
    // then all fail with PoolLocked; a stranger cannot lock.
    let mut p = pool_with_fee(30);
    assert_eq!(p.lock(AUTHORITY), Ok(()));
    assert!(p.locked);
    assert!(matches!(
        p.deposit(snap(1000, 1000, 1000), 10, 100, 100),
        Err(AmmError::PoolLocked)
    ));
    assert!(matches!(
        p.withdraw(snap(1000, 1000, 1000), 10, 0, 0),
        Err(AmmError::PoolLocked)
    ));
    assert!(matches!(
        p.swap(snap(1000, 1000, 1000), Asset::X, 10, 0),
        Err(AmmError::PoolLocked)
    ));
    let mut q = pool_with_fee(30);
    assert_eq!(q.lock(STRANGER), Err(AmmError::InvalidAuthority));
    assert!(!q.locked);
}

#[test]
fn unlock_restores_operations() {
    let mut p = pool_with_fee(30);
    p.lock(AUTHORITY).unwrap();
    assert_eq!(p.unlock(STRANGER), Err(AmmError::InvalidAuthority));
    assert!(p.locked);
    assert_eq!(p.unlock(AUTHORITY), Ok(()));
    assert!(!p.locked);
    assert!(p.deposit(snap(1000, 1000, 1000), 10, 100, 100).is_ok());
}

#[test]
fn lock_without_authority_fails() {
    let mut p = initialize(1, 30, None, 11, 12).unwrap();
    assert_eq!(p.lock(AUTHORITY), Err(AmmError::NoAuthorityConfigured));
    assert_eq!(p.unlock(AUTHORITY), Err(AmmError::NoAuthorityConfigured));
    assert!(!p.locked);
}
