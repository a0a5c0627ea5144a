use amm_core::curve::{genesis_amounts, proportional_amounts, swap_amounts, SwapResult};
use amm_core::errors::AmmError;

#[test]
fn genesis_returns_bounds() {
    assert_eq!(genesis_amounts(7, 9), (7, 9));
    assert_eq!(genesis_amounts(0, 0), (0, 0));
}

#[test]
fn proportional_even_split() {
    assert_eq!(proportional_amounts(1000, 1000, 1000, 500), Ok((500, 500)));
}

#[test]
fn proportional_rounds_down() {
    // 1 share of 3 against reserves of 10: worth 10/3, paid out as 3.
    assert_eq!(proportional_amounts(10, 10, 3, 1), Ok((3, 3)));
    // 2 shares of 7 against reserves (9, 5): floor(18/7), floor(10/7).
    assert_eq!(proportional_amounts(9, 5, 7, 2), Ok((2, 1)));
}

#[test]
fn proportional_zero_supply_fails() {
    assert_eq!(
        proportional_amounts(10, 10, 0, 5),
        Err(AmmError::ArithmeticError)
    );
}

#[test]
fn proportional_overflow_fails() {
    // u64::MAX shares of a 1-share supply against a u64::MAX reserve
    // would be worth far more than 64 bits can hold.
    assert_eq!(
        proportional_amounts(u64::MAX, u64::MAX, 1, u64::MAX),
        Err(AmmError::ArithmeticError)
    );
}

#[test]
fn swap_fee_rounds_up() {
    // 100 in at 30 bps: the exact fee 0.3 rounds up to 1.
    let r = swap_amounts(1500, 1500, 30, 100, 0).unwrap();
    assert_eq!(r.fee, 1);
    assert_eq!(r.deposit, 99);
}

#[test]
fn swap_curve_values() {
    // k = 2_250_000; input side grows to 1599; the output side settles at
    // ceil(2_250_000 / 1599) = 1408, paying out 92.
    assert_eq!(
        swap_amounts(1500, 1500, 30, 100, 90),
        Ok(SwapResult {
            deposit: 99,
            withdraw: 92,
            fee: 1,
        })
    );
}

#[test]
fn swap_zero_reserve_fails() {
    assert_eq!(
        swap_amounts(0, 1500, 30, 100, 0),
        Err(AmmError::ArithmeticError)
    );
    assert_eq!(
        swap_amounts(1500, 0, 30, 100, 0),
        Err(AmmError::ArithmeticError)
    );
}

#[test]
fn swap_slippage_fails() {
    // The payout is 92, one short of the demanded 93.
    assert_eq!(
        swap_amounts(1500, 1500, 30, 100, 93),
        Err(AmmError::SlippageExceeded)
    );
}

#[test]
fn swap_without_fee_keeps_product() {
    // At a zero fee rate the whole input works against the curve, and the
    // ceiling rounding alone keeps the product from falling.
    let r = swap_amounts(1000, 1000, 0, 100, 0).unwrap();
    assert_eq!(r.fee, 0);
    assert_eq!(r.deposit, 100);
    assert_eq!(r.withdraw, 90);
    let new_in: u128 = 1000 + 100;
    let new_out: u128 = 1000 - r.withdraw as u128;
    assert!(new_in * new_out >= 1000u128 * 1000u128);
}

#[test]
fn swap_full_fee_pays_nothing() {
    // At 10000 bps the whole input is fee; nothing works against the
    // curve and nothing is paid out.
    let r = swap_amounts(1000, 1000, 10000, 100, 0).unwrap();
    assert_eq!(r.fee, 100);
    assert_eq!(r.deposit, 0);
    assert_eq!(r.withdraw, 0);
}

#[test]
fn swap_product_strictly_grows_with_fee() {
    // With a positive fee rate the product of the reserves strictly
    // increases across a swap.
    let cases: [(u64, u64, u16, u64); 4] =
        [(1500, 1500, 30, 100), (10, 10, 100, 100), (7, 13, 1, 3), (1000, 1, 9999, 500)];
    for (rx, ry, fee_bps, amount) in cases {
        let r = swap_amounts(rx, ry, fee_bps, amount, 0).unwrap();
        let new_in = rx as u128 + amount as u128;
        let new_out = ry as u128 - r.withdraw as u128;
        assert!(new_in * new_out > rx as u128 * ry as u128);
    }
}

#[test]
fn swap_never_drains_output() {
    // Even a huge input leaves at least one unit in the output reserve.
    let r = swap_amounts(10, 10, 0, 1_000_000, 0).unwrap();
    assert!(r.withdraw < 10);
    assert_eq!(r.withdraw, 9);
}
