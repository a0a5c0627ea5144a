//! The curve engine: pure, stateless arithmetic for the pool.
//!
//! Every intermediate product is computed in 128 bits, so 64-bit inputs can
//! never overflow an intermediate.  Rounding is chosen to favor the pool:
//! proportional amounts round down, the fee and the reserve kept back by a
//! swap round up.

use crate::errors::AmmError;
use vstd::arithmetic::div_mod::*;
use vstd::arithmetic::mul::*;
use vstd::prelude::*;

verus! {

/// Fee rates are expressed in basis points: 10000 bps = 100%.
pub const FEE_DENOMINATOR: u64 = 10000;

/// The share of `reserve` that `share_amount` out of `supply` shares is
/// worth, rounded down.
pub open spec fn proportional_share(share_amount: int, reserve: int, supply: int) -> int {
    share_amount * reserve / supply
}

/// `a / b` rounded towards positive infinity (for non-negative `a`,
/// positive `b`).
pub open spec fn ceil_div(a: int, b: int) -> int {
    (a + b - 1) / b
}

/// The fee charged on `amount_in` at `fee_bps` basis points, rounded up.
pub open spec fn fee_amount(amount_in: int, fee_bps: int) -> int {
    ceil_div(amount_in * fee_bps, FEE_DENOMINATOR as int)
}

/// What a swap pays out: the input reserve grows by the fee-reduced input,
/// and the output reserve is brought down to the constant-product level,
/// rounded up so the pool never pays out more than the curve allows.
pub open spec fn swap_out_amount(
    reserve_in: int,
    reserve_out: int,
    fee_bps: int,
    amount_in: int,
) -> int {
    reserve_out - ceil_div(
        reserve_in * reserve_out,
        reserve_in + (amount_in - fee_amount(amount_in, fee_bps)),
    )
}

/// The amounts a swap computes: `deposit` is the fee-reduced input credited
/// against the curve, `withdraw` is what the trader receives, and `fee`
/// stays in the input reserve.
#[derive(Clone, Copy, Debug, PartialEq, Eq, Structural)]
pub struct SwapResult {
    pub deposit: u64,
    pub withdraw: u64,
    pub fee: u64,
}

/// Ceiling division agrees with floor division bumped on a remainder, and
/// multiplying back reaches at least the dividend.
pub proof fn lemma_ceil_div_bounds(a: int, b: int)
    requires
        0 <= a,
        1 <= b,
    ensures
        ceil_div(a, b) == if a % b == 0 { a / b } else { a / b + 1 },
        b * ceil_div(a, b) >= a,
        0 <= ceil_div(a, b),
{
    let q = a / b;
    let r = a % b;
    lemma_fundamental_div_mod(a, b);
    lemma_mod_division_less_than_divisor(a, b);
    lemma_div_pos_is_pos(a, b);
    if r == 0 {
        assert(a + b - 1 == b * q + (b - 1));
        lemma_div_multiples_vanish_fancy(q, b - 1, b);
    } else {
        assert(b * (q + 1) == b * q + b) by (nonlinear_arith);
        assert(a + b - 1 == b * (q + 1) + (r - 1));
        lemma_div_multiples_vanish_fancy(q + 1, r - 1, b);
    }
}

/// The fee never exceeds the input, vanishes at a zero rate, and is at
/// least one unit whenever both the rate and the input are positive.
pub proof fn lemma_fee_amount_bounds(amount_in: int, fee_bps: int)
    requires
        0 <= amount_in,
        0 <= fee_bps <= FEE_DENOMINATOR,
    ensures
        0 <= fee_amount(amount_in, fee_bps) <= amount_in,
        fee_bps == 0 ==> fee_amount(amount_in, fee_bps) == 0,
        fee_bps >= 1 && amount_in >= 1 ==> fee_amount(amount_in, fee_bps) >= 1,
{
    let den = FEE_DENOMINATOR as int;
    let num = amount_in * fee_bps;
    lemma_mul_nonnegative(amount_in, fee_bps);
    lemma_div_pos_is_pos(num + den - 1, den);
    assert(amount_in * fee_bps <= amount_in * den) by (nonlinear_arith)
        requires 0 <= amount_in && fee_bps <= den;
    lemma_div_is_ordered(num + den - 1, amount_in * den + (den - 1), den);
    assert(den * amount_in + (den - 1) == amount_in * den + (den - 1)) by (nonlinear_arith);
    lemma_div_multiples_vanish_fancy(amount_in, den - 1, den);
    if fee_bps >= 1 && amount_in >= 1 {
        assert(amount_in * fee_bps >= 1) by (nonlinear_arith)
            requires amount_in >= 1 && fee_bps >= 1;
        lemma_div_is_ordered(den, num + den - 1, den);
        lemma_div_by_self(den);
    }
}

/// The reserve level a swap settles the output side at is at least one
/// unit and never more than the whole output reserve.
pub proof fn lemma_new_out_reserve_bounds(r_in: int, r_out: int, d: int)
    requires
        1 <= r_in <= d,
        1 <= r_out,
    ensures
        1 <= ceil_div(r_in * r_out, d) <= r_out,
{
    let k = r_in * r_out;
    assert(r_in * r_out >= 1) by (nonlinear_arith)
        requires r_in >= 1 && r_out >= 1;
    lemma_ceil_div_bounds(k, d);
    let c = ceil_div(k, d);
    assert(c >= 1) by {
        if c < 1 {
            assert(d * c <= 0) by (nonlinear_arith)
                requires d >= 1 && c <= 0;
        }
    }
    lemma_mul_inequality(r_in, d, r_out);
    assert(d * r_out == r_out * d) by (nonlinear_arith);
    if k % d == 0 {
        lemma_div_is_ordered(k, d * r_out, d);
        lemma_div_multiples_vanish(r_out, d);
    } else {
        lemma_fundamental_div_mod(k, d);
        lemma_mod_division_less_than_divisor(k, d);
        if k / d >= r_out {
            lemma_mul_inequality(r_out, k / d, d);
            assert(false);
        }
    }
}

/// What a swap pays out is non-negative and strictly less than the output
/// reserve: a swap can never drain the output side completely.
pub proof fn lemma_swap_out_bounds(r_in: int, r_out: int, fee_bps: int, amount_in: int)
    requires
        1 <= r_in,
        1 <= r_out,
        1 <= amount_in,
        0 <= fee_bps <= FEE_DENOMINATOR,
    ensures
        0 <= swap_out_amount(r_in, r_out, fee_bps, amount_in) <= r_out - 1,
{
    lemma_fee_amount_bounds(amount_in, fee_bps);
    let net = amount_in - fee_amount(amount_in, fee_bps);
    lemma_new_out_reserve_bounds(r_in, r_out, r_in + net);
}

/// The constant-product law: a successful swap never decreases the product
/// of the reserves, and strictly increases it whenever the fee rate is
/// positive.  The input reserve grows by the whole input (the fee stays in
/// the pool) while the output reserve is kept at or above the curve level.
pub proof fn lemma_swap_preserves_k(r_in: int, r_out: int, fee_bps: int, amount_in: int)
    requires
        1 <= r_in,
        1 <= r_out,
        1 <= amount_in,
        0 <= fee_bps <= FEE_DENOMINATOR,
    ensures
        ({
            let out = swap_out_amount(r_in, r_out, fee_bps, amount_in);
            &&& (r_in + amount_in) * (r_out - out) >= r_in * r_out
            &&& fee_bps >= 1 ==> (r_in + amount_in) * (r_out - out) > r_in * r_out
        }),
{
    lemma_fee_amount_bounds(amount_in, fee_bps);
    let fee = fee_amount(amount_in, fee_bps);
    let net = amount_in - fee;
    let d = r_in + net;
    let k = r_in * r_out;
    let c = ceil_div(k, d);
    lemma_mul_nonnegative(r_in, r_out);
    lemma_ceil_div_bounds(k, d);
    lemma_new_out_reserve_bounds(r_in, r_out, d);
    assert(r_out - swap_out_amount(r_in, r_out, fee_bps, amount_in) == c);
    lemma_mul_inequality(d, r_in + amount_in, c);
    assert(c * d == d * c) by (nonlinear_arith);
    assert(c * (r_in + amount_in) == (r_in + amount_in) * c) by (nonlinear_arith);
    if fee >= 1 {
        lemma_mul_inequality(d + 1, r_in + amount_in, c);
        assert((d + 1) * c == d * c + c) by (nonlinear_arith);
        assert(c * (d + 1) == (d + 1) * c) by (nonlinear_arith);
    }
}

/// Withdrawing rounds in the pool's favor: the value taken out never
/// exceeds the redeemed shares' exact worth, so the per-share value of the
/// remaining reserves does not drop, and is unchanged exactly when the
/// division is exact.
pub proof fn lemma_withdraw_ratio(reserve: int, supply: int, n: int)
    requires
        0 <= reserve,
        1 <= supply,
        0 <= n <= supply,
    ensures
        ({
            let w = proportional_share(n, reserve, supply);
            &&& w * supply <= n * reserve
            &&& w <= reserve
            &&& (reserve - w) * supply >= reserve * (supply - n)
            &&& (n * reserve) % supply == 0 ==> (reserve - w) * supply == reserve * (supply - n)
        }),
{
    let w = proportional_share(n, reserve, supply);
    lemma_mul_nonnegative(n, reserve);
    lemma_fundamental_div_mod(n * reserve, supply);
    lemma_mod_division_less_than_divisor(n * reserve, supply);
    assert(supply * w == w * supply) by (nonlinear_arith);
    lemma_mul_inequality(n, supply, reserve);
    lemma_div_is_ordered(n * reserve, supply * reserve, supply);
    lemma_div_multiples_vanish(reserve, supply);
    assert((reserve - w) * supply == reserve * supply - w * supply) by (nonlinear_arith);
    assert(reserve * (supply - n) == reserve * supply - n * reserve) by (nonlinear_arith);
}

/// Depositing preserves the per-share value up to the floor-rounding loss
/// on the deposited amounts: the loss is less than one share's worth of
/// scale, and vanishes exactly when the division is exact.
pub proof fn lemma_deposit_ratio(reserve: int, supply: int, n: int)
    requires
        0 <= reserve,
        1 <= supply,
        0 <= n,
    ensures
        ({
            let d = proportional_share(n, reserve, supply);
            &&& (reserve + d) * supply <= reserve * (supply + n)
            &&& reserve * (supply + n) - (reserve + d) * supply < supply
            &&& (n * reserve) % supply == 0 ==> (reserve + d) * supply == reserve * (supply + n)
        }),
{
    let d = proportional_share(n, reserve, supply);
    lemma_mul_nonnegative(n, reserve);
    lemma_fundamental_div_mod(n * reserve, supply);
    lemma_mod_division_less_than_divisor(n * reserve, supply);
    assert(supply * d == d * supply) by (nonlinear_arith);
    assert((reserve + d) * supply == reserve * supply + d * supply) by (nonlinear_arith);
    assert(reserve * (supply + n) == reserve * supply + n * reserve) by (nonlinear_arith);
}

/// Depositing `n` shares and then immediately withdrawing `n` shares
/// returns exactly the deposited amounts: the floor losses of the two
/// proportional computations cancel.
pub proof fn lemma_round_trip_share(reserve: int, supply: int, n: int)
    requires
        0 <= reserve,
        1 <= supply,
        1 <= n,
    ensures
        proportional_share(n, reserve + proportional_share(n, reserve, supply), supply + n)
            == proportional_share(n, reserve, supply),
{
    let x = proportional_share(n, reserve, supply);
    let r0 = (n * reserve) % supply;
    lemma_mul_nonnegative(n, reserve);
    lemma_fundamental_div_mod(n * reserve, supply);
    lemma_mod_division_less_than_divisor(n * reserve, supply);
    assert(n * (reserve + x) == n * reserve + n * x) by (nonlinear_arith);
    assert(supply * x + n * x == x * (supply + n)) by (nonlinear_arith);
    assert(n * (reserve + x) == x * (supply + n) + r0);
    lemma_fundamental_div_mod_converse(n * (reserve + x), supply + n, x, r0);
}

/// The amounts a swap of `amount_in` against reserves `reserve_in` and
/// `reserve_out` computes, or the error it fails with, as a value.
pub open spec fn spec_swap_amounts(
    reserve_in: u64,
    reserve_out: u64,
    fee_bps: u16,
    amount_in: u64,
    min_out: u64,
) -> Result<SwapResult, AmmError> {
    if reserve_in == 0 || reserve_out == 0 {
        Err(AmmError::ArithmeticError)
    } else {
        let fee = fee_amount(amount_in as int, fee_bps as int);
        let out = swap_out_amount(
            reserve_in as int,
            reserve_out as int,
            fee_bps as int,
            amount_in as int,
        );
        if out < min_out {
            Err(AmmError::SlippageExceeded)
        } else {
            Ok(
                SwapResult {
                    deposit: (amount_in - fee) as u64,
                    withdraw: out as u64,
                    fee: fee as u64,
                },
            )
        }
    }
}

/// Computes the fee-adjusted swap amounts for one direction of trade.
/// Fails with `ArithmeticError` on an empty reserve and with
/// `SlippageExceeded` when the payout falls below `min_out`.  On success,
/// the fee and the curve deposit together account for the whole input.
pub fn swap_amounts(
    reserve_in: u64,
    reserve_out: u64,
    fee_bps: u16,
    amount_in: u64,
    min_out: u64,
) -> (r: Result<SwapResult, AmmError>)
    requires
        fee_bps <= 10000,
    ensures
        r == spec_swap_amounts(reserve_in, reserve_out, fee_bps, amount_in, min_out),
        r matches Ok(sr) ==> sr.deposit + sr.fee == amount_in && sr.withdraw < reserve_out
            && sr.withdraw >= min_out,
{
    if reserve_in == 0 || reserve_out == 0 {
        return Err(AmmError::ArithmeticError);
    }
    proof {
        lemma_mul_upper_bound(
            amount_in as int,
            u64::MAX as int,
            fee_bps as int,
            FEE_DENOMINATOR as int,
        );
        lemma_mul_nonnegative(amount_in as int, fee_bps as int);
        lemma_fee_amount_bounds(amount_in as int, fee_bps as int);
    }
    let fee128: u128 = ((amount_in as u128) * (fee_bps as u128) + (FEE_DENOMINATOR as u128 - 1))
        / (FEE_DENOMINATOR as u128);
    let fee: u64 = fee128 as u64;
    let net: u64 = amount_in - fee;
    proof {
        lemma_mul_upper_bound(
            reserve_in as int,
            u64::MAX as int,
            reserve_out as int,
            u64::MAX as int,
        );
        lemma_mul_nonnegative(reserve_in as int, reserve_out as int);
    }
    let k: u128 = (reserve_in as u128) * (reserve_out as u128);
    let d: u128 = reserve_in as u128 + net as u128;
    let q: u128 = k / d;
    let rem: u128 = k % d;
    proof {
        lemma_div_nonincreasing(k as int, d as int);
        lemma_ceil_div_bounds(k as int, d as int);
        lemma_new_out_reserve_bounds(reserve_in as int, reserve_out as int, d as int);
    }
    let new_out: u128 = if rem == 0 {
        q
    } else {
        q + 1
    };
    let out: u64 = reserve_out - (new_out as u64);
    if out < min_out {
        return Err(AmmError::SlippageExceeded);
    }
    Ok(SwapResult { deposit: net, withdraw: out, fee })
}

/// Used only when both reserves and the share supply are zero: the first
/// depositor sets the initial price and receives shares equal to the
/// requested amount, so the deposited amounts are the caller's bounds
/// themselves.
pub fn genesis_amounts(max_x: u64, max_y: u64) -> (r: (u64, u64))
    ensures
        r == (max_x, max_y),
{
    (max_x, max_y)
}

/// The amounts of X and Y that `share_amount` shares are worth against the
/// current reserves, each rounded down.  Fails with `ArithmeticError` when
/// the supply is zero or a computed amount does not fit in 64 bits.  Used
/// identically for deposit and withdraw.
pub fn proportional_amounts(
    reserve_x: u64,
    reserve_y: u64,
    share_supply: u64,
    share_amount: u64,
) -> (r: Result<(u64, u64), AmmError>)
    ensures
        share_supply == 0 ==> r == Err::<(u64, u64), AmmError>(AmmError::ArithmeticError),
        share_supply > 0 ==> ({
            let x = proportional_share(share_amount as int, reserve_x as int, share_supply as int);
            let y = proportional_share(share_amount as int, reserve_y as int, share_supply as int);
            if x > u64::MAX || y > u64::MAX {
                r == Err::<(u64, u64), AmmError>(AmmError::ArithmeticError)
            } else {
                r == Ok::<(u64, u64), AmmError>((x as u64, y as u64))
            }
        }),
{
    if share_supply == 0 {
        return Err(AmmError::ArithmeticError);
    }
    proof {
        lemma_mul_upper_bound(
            share_amount as int,
            u64::MAX as int,
            reserve_x as int,
            u64::MAX as int,
        );
        lemma_mul_upper_bound(
            share_amount as int,
            u64::MAX as int,
            reserve_y as int,
            u64::MAX as int,
        );
        lemma_mul_nonnegative(share_amount as int, reserve_x as int);
        lemma_mul_nonnegative(share_amount as int, reserve_y as int);
    }
    let nx: u128 = (share_amount as u128) * (reserve_x as u128);
    let ny: u128 = (share_amount as u128) * (reserve_y as u128);
    let s: u128 = share_supply as u128;
    let x: u128 = nx / s;
    let y: u128 = ny / s;
    if x > u64::MAX as u128 || y > u64::MAX as u128 {
        return Err(AmmError::ArithmeticError);
    }
    Ok((x as u64, y as u64))
}

} // verus!
