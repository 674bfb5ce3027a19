use vstd::prelude::*;

verus! {

/// Errors that the pool's instructions can fail with.
#[derive(Clone, Copy, Debug, PartialEq, Eq, Structural)]
pub enum AmmError {
    /// Slippage tolerance exceeded
    SlippageExceeded,
    /// Insufficient liquidity in pool
    InsufficientLiquidity,
    /// Provided token mint does not match pool
    InvalidMint,
    /// Provided vault does not match pool
    InvalidVault,
    /// Math overflow
    MathOverflow,
    /// Zero amount not allowed
    ZeroAmount,
    /// Invalid fee value
    InvalidFee,
    /// Provided token account is not owned by the signing user
    InvalidOwner,
}

} // verus!
