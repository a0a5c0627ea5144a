//! A two-asset constant-product liquidity pool.
//!
//! The pool holds reserves of asset X and asset Y, issues fungible shares
//! representing proportional ownership, and supports deposit, withdraw and
//! swap operations plus an administrative lock gate.  All arithmetic is
//! carried out with 128-bit intermediates and proved free of overflow; the
//! transfer, mint and burn side effects are returned to the caller as an
//! ordered list of ledger requests rather than performed here.

pub mod curve;
pub mod errors;
pub mod pool;
