//! The pool controller: state, observed ledger snapshots, and the five
//! operations.
//!
//! Reserves and the share supply live in the external ledger; each
//! operation takes them as an observed snapshot and returns the ordered
//! ledger requests that carry it out, together with the snapshot those
//! requests produce.  A failing operation returns an error and issues no
//! request at all.

use crate::curve;
use crate::curve::{
    proportional_share, spec_swap_amounts, SwapResult, lemma_withdraw_ratio,
    lemma_deposit_ratio, lemma_round_trip_share, lemma_swap_preserves_k, lemma_swap_out_bounds,
};
use crate::errors::AmmError;
use vstd::prelude::*;

verus! {

/// The persistent record of a pool: identity, immutable configuration, and
/// the mutable lock flag.  Reserves and the share supply are not stored
/// here; they are observed from the ledger at the start of each operation.
#[derive(Clone, Copy, Debug)]
pub struct Pool {
    /// Unique 64-bit pool identifier.
    pub seed: u64,
    /// The identity allowed to lock and unlock the pool, if one was set.
    pub authority: Option<u64>,
    /// Identity of asset X's mint.
    pub asset_x: u64,
    /// Identity of asset Y's mint.
    pub asset_y: u64,
    /// Fee rate in basis points, at most 10000.
    pub fee_bps: u16,
    /// Gates deposit, withdraw and swap.
    pub locked: bool,
}

impl Pool {
    /// The pool's structural invariant: the fee rate is a valid number of
    /// basis points.  Established by `initialize` and preserved by every
    /// operation.
    pub open spec fn wf(self) -> bool {
        self.fee_bps <= 10000
    }
}

/// The reserves and share supply observed from the ledger at the start of
/// an operation.
#[derive(Clone, Copy, Debug, PartialEq, Eq, Structural)]
pub struct LedgerSnapshot {
    pub reserve_x: u64,
    pub reserve_y: u64,
    pub share_supply: u64,
}

/// One of the pool's two assets.
#[derive(Clone, Copy, Debug, PartialEq, Eq, Structural)]
pub enum Asset {
    X,
    Y,
}

/// One transfer, mint or burn the external ledger is asked to perform.
/// The variant fixes who authorizes it: movements out of the pool's vaults
/// and share minting are signed by the pool's delegated authority, while
/// movements from the caller and share burns are signed by the caller.
#[derive(Clone, Copy, Debug, PartialEq, Eq, Structural)]
pub enum LedgerRequest {
    /// Move `amount` of `asset` from the caller to the pool's vault,
    /// authorized by the caller.
    TransferToPool { asset: Asset, amount: u64 },
    /// Move `amount` of `asset` from the pool's vault to the caller,
    /// authorized by the pool's delegated authority.
    TransferFromPool { asset: Asset, amount: u64 },
    /// Mint `amount` shares to the caller, authorized by the pool's
    /// delegated authority.
    MintShares { amount: u64 },
    /// Burn `amount` shares held by the caller, authorized by the caller.
    BurnShares { amount: u64 },
}

/// A pool is empty exactly when nothing has ever been deposited: no
/// reserves and no shares.
pub open spec fn pool_is_empty(s: LedgerSnapshot) -> bool {
    s.share_supply == 0 && s.reserve_x == 0 && s.reserve_y == 0
}

/// What one ledger request does to the observed balances, or `None` when
/// the ledger would refuse it (overflow, or more taken than is there).
pub open spec fn spec_apply(s: LedgerSnapshot, r: LedgerRequest) -> Option<LedgerSnapshot> {
    match r {
        LedgerRequest::TransferToPool { asset: Asset::X, amount } => if s.reserve_x + amount
            <= u64::MAX {
            Some(
                LedgerSnapshot {
                    reserve_x: (s.reserve_x + amount) as u64,
                    reserve_y: s.reserve_y,
                    share_supply: s.share_supply,
                },
            )
        } else {
            None
        },
        LedgerRequest::TransferToPool { asset: Asset::Y, amount } => if s.reserve_y + amount
            <= u64::MAX {
            Some(
                LedgerSnapshot {
                    reserve_x: s.reserve_x,
                    reserve_y: (s.reserve_y + amount) as u64,
                    share_supply: s.share_supply,
                },
            )
        } else {
            None
        },
        LedgerRequest::TransferFromPool { asset: Asset::X, amount } => if amount <= s.reserve_x {
            Some(
                LedgerSnapshot {
                    reserve_x: (s.reserve_x - amount) as u64,
                    reserve_y: s.reserve_y,
                    share_supply: s.share_supply,
                },
            )
        } else {
            None
        },
        LedgerRequest::TransferFromPool { asset: Asset::Y, amount } => if amount <= s.reserve_y {
            Some(
                LedgerSnapshot {
                    reserve_x: s.reserve_x,
                    reserve_y: (s.reserve_y - amount) as u64,
                    share_supply: s.share_supply,
                },
            )
        } else {
            None
        },
        LedgerRequest::MintShares { amount } => if s.share_supply + amount <= u64::MAX {
            Some(
                LedgerSnapshot {
                    reserve_x: s.reserve_x,
                    reserve_y: s.reserve_y,
                    share_supply: (s.share_supply + amount) as u64,
                },
            )
        } else {
            None
        },
        LedgerRequest::BurnShares { amount } => if amount <= s.share_supply {
            Some(
                LedgerSnapshot {
                    reserve_x: s.reserve_x,
                    reserve_y: s.reserve_y,
                    share_supply: (s.share_supply - amount) as u64,
                },
            )
        } else {
            None
        },
    }
}

/// What a whole request list does to the observed balances, in order;
/// `None` as soon as any single request would be refused.
pub open spec fn spec_apply_all(s: LedgerSnapshot, rs: Seq<LedgerRequest>) -> Option<
    LedgerSnapshot,
>
    decreases rs.len(),
{
    if rs.len() == 0 {
        Some(s)
    } else {
        match spec_apply(s, rs[0]) {
            Some(s2) => spec_apply_all(s2, rs.subrange(1, rs.len() as int)),
            None => None,
        }
    }
}

/// Applies one request to a snapshot exactly as the external ledger would.
pub fn apply_request(s: LedgerSnapshot, r: &LedgerRequest) -> (out: Option<LedgerSnapshot>)
    ensures
        out == spec_apply(s, *r),
{
    match *r {
        LedgerRequest::TransferToPool { asset: Asset::X, amount } => if amount <= u64::MAX
            - s.reserve_x {
            Some(LedgerSnapshot { reserve_x: s.reserve_x + amount, ..s })
        } else {
            None
        },
        LedgerRequest::TransferToPool { asset: Asset::Y, amount } => if amount <= u64::MAX
            - s.reserve_y {
            Some(LedgerSnapshot { reserve_y: s.reserve_y + amount, ..s })
        } else {
            None
        },
        LedgerRequest::TransferFromPool { asset: Asset::X, amount } => if amount <= s.reserve_x {
            Some(LedgerSnapshot { reserve_x: s.reserve_x - amount, ..s })
        } else {
            None
        },
        LedgerRequest::TransferFromPool { asset: Asset::Y, amount } => if amount <= s.reserve_y {
            Some(LedgerSnapshot { reserve_y: s.reserve_y - amount, ..s })
        } else {
            None
        },
        LedgerRequest::MintShares { amount } => if amount <= u64::MAX - s.share_supply {
            Some(LedgerSnapshot { share_supply: s.share_supply + amount, ..s })
        } else {
            None
        },
        LedgerRequest::BurnShares { amount } => if amount <= s.share_supply {
            Some(LedgerSnapshot { share_supply: s.share_supply - amount, ..s })
        } else {
            None
        },
    }
}

/// Applies a request list to a snapshot, in order, exactly as the external
/// ledger would; `None` as soon as one request is refused.
pub fn apply_requests(s: LedgerSnapshot, rs: &Vec<LedgerRequest>) -> (out: Option<LedgerSnapshot>)
    ensures
        out == spec_apply_all(s, rs@),
{
    let mut cur = s;
    let mut i: usize = 0;
    proof {
        assert(rs@.subrange(0, rs@.len() as int) =~= rs@);
    }
    while i < rs.len()
        invariant
            i <= rs.len(),
            spec_apply_all(s, rs@) == spec_apply_all(cur, rs@.subrange(i as int, rs@.len() as int)),
        decreases rs.len() - i,
    {
        proof {
            let tail = rs@.subrange(i as int, rs@.len() as int);
            assert(tail[0] == rs@[i as int]);
            assert(tail.subrange(1, tail.len() as int) =~= rs@.subrange(
                i + 1,
                rs@.len() as int,
            ));
        }
        match apply_request(cur, &rs[i]) {
            Some(next) => {
                cur = next;
            },
            None => {
                return None;
            },
        }
        i = i + 1;
    }
    proof {
        assert(rs@.subrange(i as int, rs@.len() as int) =~= Seq::<LedgerRequest>::empty());
    }
    Some(cur)
}

/// What a deposit computed and asks the ledger to do.
#[derive(Debug)]
pub struct DepositOutcome {
    /// Amount of X transferred from the caller to the pool.
    pub x: u64,
    /// Amount of Y transferred from the caller to the pool.
    pub y: u64,
    /// The ledger requests, in the order they must be performed.
    pub requests: Vec<LedgerRequest>,
    /// The balances after the requests are performed.
    pub after: LedgerSnapshot,
}

/// What a withdraw computed and asks the ledger to do.
#[derive(Debug)]
pub struct WithdrawOutcome {
    /// Amount of X transferred from the pool to the caller.
    pub x: u64,
    /// Amount of Y transferred from the pool to the caller.
    pub y: u64,
    /// The ledger requests, in the order they must be performed.
    pub requests: Vec<LedgerRequest>,
    /// The balances after the requests are performed.
    pub after: LedgerSnapshot,
}

/// What a swap computed and asks the ledger to do.
#[derive(Debug)]
pub struct SwapOutcome {
    /// The curve amounts: net deposit, payout, and fee.
    pub result: SwapResult,
    /// The ledger requests, in the order they must be performed.
    pub requests: Vec<LedgerRequest>,
    /// The balances after the requests are performed.
    pub after: LedgerSnapshot,
}

/// The amounts a deposit moves into the pool, or the error it fails with.
/// On an empty pool the caller's bounds themselves are deposited (the
/// genesis deposit sets the initial price); otherwise the amounts are the
/// proportional worth of the requested shares, which must not exceed the
/// caller's bounds.
pub open spec fn spec_deposit(pool: Pool, s: LedgerSnapshot, n: u64, max_x: u64, max_y: u64)
    -> Result<(int, int), AmmError> {
    if pool.locked {
        Err(AmmError::PoolLocked)
    } else if n == 0 {
        Err(AmmError::InvalidAmount)
    } else if pool_is_empty(s) {
        Ok((max_x as int, max_y as int))
    } else if s.share_supply == 0 {
        Err(AmmError::ArithmeticError)
    } else {
        let x = proportional_share(n as int, s.reserve_x as int, s.share_supply as int);
        let y = proportional_share(n as int, s.reserve_y as int, s.share_supply as int);
        if x > u64::MAX || y > u64::MAX {
            Err(AmmError::ArithmeticError)
        } else if x > max_x || y > max_y {
            Err(AmmError::SlippageExceeded)
        } else if s.reserve_x + x > u64::MAX || s.reserve_y + y > u64::MAX || s.share_supply + n
            > u64::MAX {
            Err(AmmError::ArithmeticError)
        } else {
            Ok((x, y))
        }
    }
}

/// The balances after a deposit of `x` of X and `y` of Y against `n`
/// freshly minted shares.
pub open spec fn spec_deposit_after(s: LedgerSnapshot, n: u64, x: int, y: int) -> LedgerSnapshot {
    LedgerSnapshot {
        reserve_x: (s.reserve_x + x) as u64,
        reserve_y: (s.reserve_y + y) as u64,
        share_supply: (s.share_supply + n) as u64,
    }
}

/// The ordered requests a deposit issues: fund both vaults from the
/// caller, then mint the shares.
pub open spec fn deposit_requests(x: u64, y: u64, n: u64) -> Seq<LedgerRequest> {
    seq![
        LedgerRequest::TransferToPool { asset: Asset::X, amount: x },
        LedgerRequest::TransferToPool { asset: Asset::Y, amount: y },
        LedgerRequest::MintShares { amount: n },
    ]
}

/// The amounts a withdraw pays out, or the error it fails with: the
/// proportional worth of the redeemed shares, which must reach the
/// caller's lower bounds.
pub open spec fn spec_withdraw(pool: Pool, s: LedgerSnapshot, n: u64, min_x: u64, min_y: u64)
    -> Result<(int, int), AmmError> {
    if pool.locked {
        Err(AmmError::PoolLocked)
    } else if n == 0 {
        Err(AmmError::InvalidAmount)
    } else if s.share_supply == 0 {
        Err(AmmError::ArithmeticError)
    } else {
        let x = proportional_share(n as int, s.reserve_x as int, s.share_supply as int);
        let y = proportional_share(n as int, s.reserve_y as int, s.share_supply as int);
        if x > u64::MAX || y > u64::MAX {
            Err(AmmError::ArithmeticError)
        } else if x < min_x || y < min_y {
            Err(AmmError::SlippageExceeded)
        } else if n > s.share_supply {
            Err(AmmError::ArithmeticError)
        } else {
            Ok((x, y))
        }
    }
}

/// The balances after a withdraw of `x` of X and `y` of Y against `n`
/// burned shares.
pub open spec fn spec_withdraw_after(s: LedgerSnapshot, n: u64, x: int, y: int) -> LedgerSnapshot {
    LedgerSnapshot {
        reserve_x: (s.reserve_x - x) as u64,
        reserve_y: (s.reserve_y - y) as u64,
        share_supply: (s.share_supply - n) as u64,
    }
}

/// The ordered requests a withdraw issues: burn the caller's shares
/// first, then pay out from both vaults.
pub open spec fn withdraw_requests(x: u64, y: u64, n: u64) -> Seq<LedgerRequest> {
    seq![
        LedgerRequest::BurnShares { amount: n },
        LedgerRequest::TransferFromPool { asset: Asset::X, amount: x },
        LedgerRequest::TransferFromPool { asset: Asset::Y, amount: y },
    ]
}

/// The curve amounts a swap computes, or the error it fails with.
pub open spec fn spec_swap_model(
    pool: Pool,
    s: LedgerSnapshot,
    direction: Asset,
    amount_in: u64,
    min_out: u64,
) -> Result<SwapResult, AmmError> {
    let r_in = if direction is X { s.reserve_x } else { s.reserve_y };
    if pool.locked {
        Err(AmmError::PoolLocked)
    } else if amount_in == 0 {
        Err(AmmError::InvalidAmount)
    } else if s.share_supply == 0 {
        Err(AmmError::ArithmeticError)
    } else {
        let r_out = if direction is X { s.reserve_y } else { s.reserve_x };
        match spec_swap_amounts(r_in, r_out, pool.fee_bps, amount_in, min_out) {
            Err(e) => Err(e),
            Ok(sr) => if r_in + amount_in > u64::MAX {
                Err(AmmError::ArithmeticError)
            } else {
                Ok(sr)
            },
        }
    }
}

/// The balances after swapping `amount_in` of the `direction` asset for
/// `out` of the other: the whole input, fee included, stays in the input
/// reserve, and the share supply is untouched.
pub open spec fn spec_swap_after(s: LedgerSnapshot, direction: Asset, amount_in: u64, out: u64)
    -> LedgerSnapshot {
    match direction {
        Asset::X => LedgerSnapshot {
            reserve_x: (s.reserve_x + amount_in) as u64,
            reserve_y: (s.reserve_y - out) as u64,
            share_supply: s.share_supply,
        },
        Asset::Y => LedgerSnapshot {
            reserve_x: (s.reserve_x - out) as u64,
            reserve_y: (s.reserve_y + amount_in) as u64,
            share_supply: s.share_supply,
        },
    }
}

/// The ordered requests a swap issues: take the whole input from the
/// caller, then pay out the other asset.
pub open spec fn swap_requests(direction: Asset, amount_in: u64, out: u64) -> Seq<LedgerRequest> {
    let other = if direction is X { Asset::Y } else { Asset::X };
    seq![
        LedgerRequest::TransferToPool { asset: direction, amount: amount_in },
        LedgerRequest::TransferFromPool { asset: other, amount: out },
    ]
}

/// The deposit requests, applied in order, produce exactly the deposit's
/// after-balances.
proof fn lemma_apply_deposit_requests(s: LedgerSnapshot, x: u64, y: u64, n: u64)
    requires
        s.reserve_x + x <= u64::MAX,
        s.reserve_y + y <= u64::MAX,
        s.share_supply + n <= u64::MAX,
    ensures
        spec_apply_all(s, deposit_requests(x, y, n)) == Some(
            spec_deposit_after(s, n, x as int, y as int),
        ),
{
    let rs = deposit_requests(x, y, n);
    let s1 = LedgerSnapshot {
        reserve_x: (s.reserve_x + x) as u64,
        reserve_y: s.reserve_y,
        share_supply: s.share_supply,
    };
    let s2 = LedgerSnapshot {
        reserve_x: s1.reserve_x,
        reserve_y: (s1.reserve_y + y) as u64,
        share_supply: s1.share_supply,
    };
    let s3 = spec_deposit_after(s, n, x as int, y as int);
    let tail1 = rs.subrange(1, 3);
    let tail2 = tail1.subrange(1, 2);
    assert(tail1[0] == rs[1] && tail1[1] == rs[2]);
    assert(tail2[0] == rs[2]);
    assert(tail1.subrange(1, 2) == tail2);
    assert(tail2.subrange(1, 1) =~= Seq::<LedgerRequest>::empty());
    assert(spec_apply(s, rs[0]) == Some(s1));
    assert(spec_apply(s1, tail1[0]) == Some(s2));
    assert(spec_apply(s2, tail2[0]) == Some(s3));
    assert(spec_apply_all(s3, tail2.subrange(1, 1)) == Some(s3));
    assert(spec_apply_all(s2, tail2) == Some(s3));
    assert(spec_apply_all(s1, tail1) == spec_apply_all(s2, tail2));
    assert(spec_apply_all(s, rs) == spec_apply_all(s1, tail1));
}

/// The withdraw requests, applied in order, produce exactly the
/// withdraw's after-balances.
proof fn lemma_apply_withdraw_requests(s: LedgerSnapshot, x: u64, y: u64, n: u64)
    requires
        x <= s.reserve_x,
        y <= s.reserve_y,
        n <= s.share_supply,
    ensures
        spec_apply_all(s, withdraw_requests(x, y, n)) == Some(
            spec_withdraw_after(s, n, x as int, y as int),
        ),
{
    let rs = withdraw_requests(x, y, n);
    let s1 = LedgerSnapshot {
        reserve_x: s.reserve_x,
        reserve_y: s.reserve_y,
        share_supply: (s.share_supply - n) as u64,
    };
    let s2 = LedgerSnapshot {
        reserve_x: (s1.reserve_x - x) as u64,
        reserve_y: s1.reserve_y,
        share_supply: s1.share_supply,
    };
    let s3 = spec_withdraw_after(s, n, x as int, y as int);
    let tail1 = rs.subrange(1, 3);
    let tail2 = tail1.subrange(1, 2);
    assert(tail1[0] == rs[1] && tail1[1] == rs[2]);
    assert(tail2[0] == rs[2]);
    assert(tail1.subrange(1, 2) == tail2);
    assert(tail2.subrange(1, 1) =~= Seq::<LedgerRequest>::empty());
    assert(spec_apply(s, rs[0]) == Some(s1));
    assert(spec_apply(s1, tail1[0]) == Some(s2));
    assert(spec_apply(s2, tail2[0]) == Some(s3));
    assert(spec_apply_all(s3, tail2.subrange(1, 1)) == Some(s3));
    assert(spec_apply_all(s2, tail2) == Some(s3));
    assert(spec_apply_all(s1, tail1) == spec_apply_all(s2, tail2));
    assert(spec_apply_all(s, rs) == spec_apply_all(s1, tail1));
}

/// The swap requests, applied in order, produce exactly the swap's
/// after-balances.
proof fn lemma_apply_swap_requests(s: LedgerSnapshot, direction: Asset, amount_in: u64, out: u64)
    requires
        direction is X ==> s.reserve_x + amount_in <= u64::MAX && out <= s.reserve_y,
        direction is Y ==> s.reserve_y + amount_in <= u64::MAX && out <= s.reserve_x,
    ensures
        spec_apply_all(s, swap_requests(direction, amount_in, out)) == Some(
            spec_swap_after(s, direction, amount_in, out),
        ),
{
    let rs = swap_requests(direction, amount_in, out);
    let s1 = if direction is X {
        LedgerSnapshot {
            reserve_x: (s.reserve_x + amount_in) as u64,
            reserve_y: s.reserve_y,
            share_supply: s.share_supply,
        }
    } else {
        LedgerSnapshot {
            reserve_x: s.reserve_x,
            reserve_y: (s.reserve_y + amount_in) as u64,
            share_supply: s.share_supply,
        }
    };
    let s2 = spec_swap_after(s, direction, amount_in, out);
    let tail1 = rs.subrange(1, 2);
    assert(tail1[0] == rs[1]);
    assert(tail1.subrange(1, 1) =~= Seq::<LedgerRequest>::empty());
    assert(spec_apply(s, rs[0]) == Some(s1));
    assert(spec_apply(s1, tail1[0]) == Some(s2));
    assert(spec_apply_all(s2, tail1.subrange(1, 1)) == Some(s2));
    assert(spec_apply_all(s1, tail1) == Some(s2));
    assert(spec_apply_all(s, rs) == spec_apply_all(s1, tail1));
}

/// Creates a pool record.  Fails with `InvalidFee` when the fee rate is
/// more than 10000 basis points; otherwise the pool starts unlocked with
/// the given identity and configuration, and its reserves and share supply
/// begin at zero in freshly created external vaults.
pub fn initialize(seed: u64, fee_bps: u16, authority: Option<u64>, asset_x: u64, asset_y: u64) -> (r:
    Result<Pool, AmmError>)
    ensures
        fee_bps > 10000 ==> r == Err::<Pool, AmmError>(AmmError::InvalidFee),
        fee_bps <= 10000 ==> r == Ok::<Pool, AmmError>(
            Pool { seed, authority, asset_x, asset_y, fee_bps, locked: false },
        ),
        r matches Ok(p) ==> p.wf() && !p.locked,
{
    if fee_bps > 10000 {
        return Err(AmmError::InvalidFee);
    }
    Ok(Pool { seed, authority, asset_x, asset_y, fee_bps, locked: false })
}

impl Pool {
    /// Sets the lock flag, gating deposit, withdraw and swap.  Only the
    /// configured authority may do so; with no authority configured the
    /// call fails with `NoAuthorityConfigured`, and with the wrong caller
    /// with `InvalidAuthority`.  No other field changes.
    pub fn lock(&mut self, caller: u64) -> (r: Result<(), AmmError>)
        ensures
            old(self).authority is None ==> r == Err::<(), AmmError>(
                AmmError::NoAuthorityConfigured,
            ) && *final(self) == *old(self),
            old(self).authority matches Some(a) && caller != a ==> r == Err::<(), AmmError>(
                AmmError::InvalidAuthority,
            ) && *final(self) == *old(self),
            old(self).authority matches Some(a) && caller == a ==> r == Ok::<(), AmmError>(())
                && *final(self) == (Pool { locked: true, ..*old(self) }),
    {
        match self.authority {
            None => Err(AmmError::NoAuthorityConfigured),
            Some(a) => {
                if caller != a {
                    Err(AmmError::InvalidAuthority)
                } else {
                    self.locked = true;
                    Ok(())
                }
            },
        }
    }

    /// Deposits liquidity: the caller receives `share_amount` freshly
    /// minted shares against the amounts of X and Y those shares are
    /// worth, each bounded above by the caller's slippage limits.  On an
    /// empty pool the first depositor sets the price by depositing the
    /// bounds themselves.  Fails with `PoolLocked` when locked,
    /// `InvalidAmount` on a zero request, `ArithmeticError` on a
    /// degenerate supply or overflow, and `SlippageExceeded` when the
    /// proportional amounts exceed the bounds.  On failure no ledger
    /// request is issued; on success the returned requests, applied in
    /// order, produce exactly the returned balances.
    pub fn deposit(&self, snap: LedgerSnapshot, share_amount: u64, max_x: u64, max_y: u64) -> (r:
        Result<DepositOutcome, AmmError>)
        ensures
            match spec_deposit(*self, snap, share_amount, max_x, max_y) {
                Err(e) => r matches Err(e2) && e2 == e,
                Ok(xy) => r matches Ok(o) && {
                    &&& o.x == xy.0
                    &&& o.y == xy.1
                    &&& o.after == spec_deposit_after(snap, share_amount, xy.0, xy.1)
                    &&& o.requests@ == deposit_requests(o.x, o.y, share_amount)
                    &&& spec_apply_all(snap, o.requests@) == Some(o.after)
                    &&& o.after.share_supply == snap.share_supply + share_amount
                    &&& !pool_is_empty(snap) ==> {
                        &&& o.after.reserve_x * snap.share_supply <= snap.reserve_x * (
                        snap.share_supply + share_amount)
                        &&& snap.reserve_x * (snap.share_supply + share_amount)
                            - o.after.reserve_x * snap.share_supply < snap.share_supply
                        &&& o.after.reserve_y * snap.share_supply <= snap.reserve_y * (
                        snap.share_supply + share_amount)
                        &&& snap.reserve_y * (snap.share_supply + share_amount)
                            - o.after.reserve_y * snap.share_supply < snap.share_supply
                    }
                },
            },
    {
        if self.locked {
            return Err(AmmError::PoolLocked);
        }
        if share_amount == 0 {
            return Err(AmmError::InvalidAmount);
        }
        let empty = snap.share_supply == 0 && snap.reserve_x == 0 && snap.reserve_y == 0;
        let (x, y) = if empty {
            curve::genesis_amounts(max_x, max_y)
        } else {
            match curve::proportional_amounts(
                snap.reserve_x,
                snap.reserve_y,
                snap.share_supply,
                share_amount,
            ) {
                Ok(xy) => xy,
                Err(e) => {
                    return Err(e);
                },
            }
        };
        if x > max_x || y > max_y {
            return Err(AmmError::SlippageExceeded);
        }
        if x > u64::MAX - snap.reserve_x || y > u64::MAX - snap.reserve_y || share_amount
            > u64::MAX - snap.share_supply {
            return Err(AmmError::ArithmeticError);
        }
        let after = LedgerSnapshot {
            reserve_x: snap.reserve_x + x,
            reserve_y: snap.reserve_y + y,
            share_supply: snap.share_supply + share_amount,
        };
        let mut requests: Vec<LedgerRequest> = Vec::new();
        requests.push(LedgerRequest::TransferToPool { asset: Asset::X, amount: x });
        requests.push(LedgerRequest::TransferToPool { asset: Asset::Y, amount: y });
        requests.push(LedgerRequest::MintShares { amount: share_amount });
        proof {
            assert(requests@ =~= deposit_requests(x, y, share_amount));
            lemma_apply_deposit_requests(snap, x, y, share_amount);
            if !empty {
                lemma_deposit_ratio(
                    snap.reserve_x as int,
                    snap.share_supply as int,
                    share_amount as int,
                );
                lemma_deposit_ratio(
                    snap.reserve_y as int,
                    snap.share_supply as int,
                    share_amount as int,
                );
            }
        }
        Ok(DepositOutcome { x, y, requests, after })
    }

    /// Withdraws liquidity: burns `share_amount` of the caller's shares
    /// and pays out the amounts of X and Y they are worth, each bounded
    /// below by the caller's slippage limits.  Fails with `PoolLocked`
    /// when locked, `InvalidAmount` on a zero request, `ArithmeticError`
    /// on a zero supply, overflow, or more shares than exist, and
    /// `SlippageExceeded` when a payout falls short of its bound.  On
    /// failure no ledger request is issued; on success the returned
    /// requests, applied in order, produce exactly the returned balances,
    /// and the per-share worth of the remaining reserves has not dropped.
    pub fn withdraw(&self, snap: LedgerSnapshot, share_amount: u64, min_x: u64, min_y: u64) -> (r:
        Result<WithdrawOutcome, AmmError>)
        ensures
            match spec_withdraw(*self, snap, share_amount, min_x, min_y) {
                Err(e) => r matches Err(e2) && e2 == e,
                Ok(xy) => r matches Ok(o) && {
                    &&& o.x == xy.0
                    &&& o.y == xy.1
                    &&& o.after == spec_withdraw_after(snap, share_amount, xy.0, xy.1)
                    &&& o.requests@ == withdraw_requests(o.x, o.y, share_amount)
                    &&& spec_apply_all(snap, o.requests@) == Some(o.after)
                    &&& o.after.reserve_x * snap.share_supply >= snap.reserve_x * (
                    snap.share_supply - share_amount)
                    &&& o.after.reserve_y * snap.share_supply >= snap.reserve_y * (
                    snap.share_supply - share_amount)
                    &&& share_amount == snap.share_supply ==> o.after == (LedgerSnapshot {
                        reserve_x: 0,
                        reserve_y: 0,
                        share_supply: 0,
                    })
                },
            },
    {
        if self.locked {
            return Err(AmmError::PoolLocked);
        }
        if share_amount == 0 {
            return Err(AmmError::InvalidAmount);
        }
        let (x, y) = match curve::proportional_amounts(
            snap.reserve_x,
            snap.reserve_y,
            snap.share_supply,
            share_amount,
        ) {
            Ok(xy) => xy,
            Err(e) => {
                return Err(e);
            },
        };
        if x < min_x || y < min_y {
            return Err(AmmError::SlippageExceeded);
        }
        if share_amount > snap.share_supply {
            return Err(AmmError::ArithmeticError);
        }
        proof {
            lemma_withdraw_ratio(
                snap.reserve_x as int,
                snap.share_supply as int,
                share_amount as int,
            );
            lemma_withdraw_ratio(
                snap.reserve_y as int,
                snap.share_supply as int,
                share_amount as int,
            );
            if share_amount == snap.share_supply {
                vstd::arithmetic::div_mod::lemma_div_multiples_vanish(
                    snap.reserve_x as int,
                    snap.share_supply as int,
                );
                vstd::arithmetic::div_mod::lemma_div_multiples_vanish(
                    snap.reserve_y as int,
                    snap.share_supply as int,
                );
            }
        }
        let after = LedgerSnapshot {
            reserve_x: snap.reserve_x - x,
            reserve_y: snap.reserve_y - y,
            share_supply: snap.share_supply - share_amount,
        };
        let mut requests: Vec<LedgerRequest> = Vec::new();
        requests.push(LedgerRequest::BurnShares { amount: share_amount });
        requests.push(LedgerRequest::TransferFromPool { asset: Asset::X, amount: x });
        requests.push(LedgerRequest::TransferFromPool { asset: Asset::Y, amount: y });
        proof {
            assert(requests@ =~= withdraw_requests(x, y, share_amount));
            lemma_apply_withdraw_requests(snap, x, y, share_amount);
        }
        Ok(WithdrawOutcome { x, y, requests, after })
    }

    /// Swaps `amount_in` of the `direction` asset for the other asset
    /// under the constant-product rule.  The whole input, fee included,
    /// enters the input reserve; the payout must reach `min_out`.  Fails
    /// with `PoolLocked` when locked, `InvalidAmount` on a zero input,
    /// `ArithmeticError` on an empty pool or reserve overflow, and
    /// `SlippageExceeded` when the payout falls short.  On failure no
    /// ledger request is issued; on success the returned requests, applied
    /// in order, produce exactly the returned balances, and the product of
    /// the reserves has not decreased — strictly increased when the fee
    /// rate is positive.
    pub fn swap(&self, snap: LedgerSnapshot, direction: Asset, amount_in: u64, min_out: u64) -> (r:
        Result<SwapOutcome, AmmError>)
        requires
            self.wf(),
        ensures
            match spec_swap_model(*self, snap, direction, amount_in, min_out) {
                Err(e) => r matches Err(e2) && e2 == e,
                Ok(sr) => r matches Ok(o) && {
                    &&& o.result == sr
                    &&& sr.deposit + sr.fee == amount_in
                    &&& o.after == spec_swap_after(snap, direction, amount_in, sr.withdraw)
                    &&& o.requests@ == swap_requests(direction, amount_in, sr.withdraw)
                    &&& spec_apply_all(snap, o.requests@) == Some(o.after)
                    &&& o.after.share_supply == snap.share_supply
                    &&& o.after.reserve_x * o.after.reserve_y >= snap.reserve_x * snap.reserve_y
                    &&& self.fee_bps >= 1 ==> o.after.reserve_x * o.after.reserve_y
                        > snap.reserve_x * snap.reserve_y
                },
            },
    {
        if self.locked {
            return Err(AmmError::PoolLocked);
        }
        if amount_in == 0 {
            return Err(AmmError::InvalidAmount);
        }
        if snap.share_supply == 0 {
            return Err(AmmError::ArithmeticError);
        }
        let (r_in, r_out) = match direction {
            Asset::X => (snap.reserve_x, snap.reserve_y),
            Asset::Y => (snap.reserve_y, snap.reserve_x),
        };
        let sr = match curve::swap_amounts(r_in, r_out, self.fee_bps, amount_in, min_out) {
            Ok(sr) => sr,
            Err(e) => {
                return Err(e);
            },
        };
        if amount_in > u64::MAX - r_in {
            return Err(AmmError::ArithmeticError);
        }
        assert(sr.deposit + sr.fee >= amount_in);
        let out = sr.withdraw;
        let other = match direction {
            Asset::X => Asset::Y,
            Asset::Y => Asset::X,
        };
        let after = match direction {
            Asset::X => LedgerSnapshot {
                reserve_x: snap.reserve_x + amount_in,
                reserve_y: snap.reserve_y - out,
                share_supply: snap.share_supply,
            },
            Asset::Y => LedgerSnapshot {
                reserve_x: snap.reserve_x - out,
                reserve_y: snap.reserve_y + amount_in,
                share_supply: snap.share_supply,
            },
        };
        let mut requests: Vec<LedgerRequest> = Vec::new();
        requests.push(LedgerRequest::TransferToPool { asset: direction, amount: amount_in });
        requests.push(LedgerRequest::TransferFromPool { asset: other, amount: out });
        proof {
            assert(requests@ =~= swap_requests(direction, amount_in, out));
            lemma_apply_swap_requests(snap, direction, amount_in, out);
            lemma_swap_preserves_k(
                r_in as int,
                r_out as int,
                self.fee_bps as int,
                amount_in as int,
            );
            lemma_swap_out_bounds(r_in as int, r_out as int, self.fee_bps as int, amount_in as int);
            assert((r_in + amount_in) * (r_out - out) == (r_out - out) * (r_in + amount_in))
                by (nonlinear_arith);
        }
        Ok(SwapOutcome { result: sr, requests, after })
    }

    /// Clears the lock flag.  The same access control as `lock`: only the
    /// configured authority may unlock, and a pool without one fails with
    /// `NoAuthorityConfigured`.  No other field changes.
    pub fn unlock(&mut self, caller: u64) -> (r: Result<(), AmmError>)
        ensures
            old(self).authority is None ==> r == Err::<(), AmmError>(
                AmmError::NoAuthorityConfigured,
            ) && *final(self) == *old(self),
            old(self).authority matches Some(a) && caller != a ==> r == Err::<(), AmmError>(
                AmmError::InvalidAuthority,
            ) && *final(self) == *old(self),
            old(self).authority matches Some(a) && caller == a ==> r == Ok::<(), AmmError>(())
                && *final(self) == (Pool { locked: false, ..*old(self) }),
    {
        match self.authority {
            None => Err(AmmError::NoAuthorityConfigured),
            Some(a) => {
                if caller != a {
                    Err(AmmError::InvalidAuthority)
                } else {
                    self.locked = false;
                    Ok(())
                }
            },
        }
    }
}


/// Round trip: depositing `n` shares and then immediately withdrawing the
/// same `n` shares (with no intervening operation) succeeds, returns
/// exactly the amounts that were deposited, and restores the observed
/// balances to what they were before the deposit.
pub proof fn lemma_deposit_withdraw_round_trip(
    pool: Pool,
    s: LedgerSnapshot,
    n: u64,
    max_x: u64,
    max_y: u64,
)
    requires
        spec_deposit(pool, s, n, max_x, max_y) is Ok,
    ensures
        ({
            match spec_deposit(pool, s, n, max_x, max_y) {
                Ok(xy) => {
                    let mid = spec_deposit_after(s, n, xy.0, xy.1);
                    &&& spec_withdraw(pool, mid, n, 0, 0) == Ok::<(int, int), AmmError>(xy)
                    &&& spec_withdraw_after(mid, n, xy.0, xy.1) == s
                },
                Err(_) => true,
            }
        }),
{
    let xy = match spec_deposit(pool, s, n, max_x, max_y) {
        Ok(xy) => xy,
        Err(_) => (0int, 0int),
    };
    let mid = spec_deposit_after(s, n, xy.0, xy.1);
    if pool_is_empty(s) {
        vstd::arithmetic::div_mod::lemma_div_multiples_vanish(max_x as int, n as int);
        vstd::arithmetic::div_mod::lemma_div_multiples_vanish(max_y as int, n as int);
    } else {
        lemma_round_trip_share(s.reserve_x as int, s.share_supply as int, n as int);
        lemma_round_trip_share(s.reserve_y as int, s.share_supply as int, n as int);
    }
}

} // verus!
