use vstd::prelude::*;

verus! {

/// Every way a pool operation can fail.  An error aborts the whole
/// operation: no ledger request is issued and the pool state is unchanged.
#[derive(Clone, Copy, Debug, PartialEq, Eq, Structural)]
pub enum AmmError {
    /// The pool's lock flag is set; deposit, withdraw and swap are refused.
    PoolLocked,
    /// A zero share or input amount was requested.
    InvalidAmount,
    /// A fee rate above 10000 basis points was given at initialization.
    InvalidFee,
    /// A computed amount fell outside the caller's slippage bound.
    SlippageExceeded,
    /// Overflow, division by zero, or a degenerate (empty) pool.
    ArithmeticError,
    /// The caller is not the pool's configured authority.
    InvalidAuthority,
    /// Lock or unlock was called on a pool with no authority configured.
    NoAuthorityConfigured,
}

} // verus!
