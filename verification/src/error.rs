//! Typed validation errors. Every failure is surfaced synchronously to the
//! caller and aborts the whole operation before any ledger instruction is
//! issued.

use vstd::prelude::*;

verus! {

/// The reason an operation was rejected.
#[derive(Clone, Copy, Debug, PartialEq, Eq, Structural)]
pub enum ErrorCode {
    /// A fee was at or above the full `BASIS_POINTS` denominator.
    InvalidFee,
    /// A pool was created with its assets out of canonical order.
    InvalidMintOrder,
    /// A computed deposit or withdrawal amount fell outside the caller's bounds.
    InsufficientAmount,
    /// A quote was requested against an empty reserve.
    InsufficientReserves,
    /// A deposit was too small to be credited any liquidity.
    InsufficientLiquidityMinted,
    /// A redemption was too small to pay out anything on some side.
    InsufficientLiquidityBurned,
    /// A swap would pay out nothing.
    InsufficientOutputAmount,
    /// A swap would take nothing in.
    InsufficientInputAmount,
    /// A swap was priced against an empty reserve, or would drain one.
    InsufficientLiquidity,
    /// The trader's source balance cannot cover the swap input.
    InvalidUserBalance,
}

} // verus!
