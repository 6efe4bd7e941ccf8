//! Pricing and accounting core of a constant-product automated market maker.
//!
//! A pool holds paired reserves of two assets. Participants deposit reserves
//! and receive a proportional claim (liquidity tokens), redeem that claim, or
//! swap one asset for the other at a price set by the reserve ratio, under a
//! trading fee in basis points. Everything here is pure state-transition
//! logic over in-memory numeric state: token transfers, minting and burning
//! are instructions handed back to the caller, never performed here.

use vstd::prelude::*;

pub mod error;
pub mod fee;
pub mod liquidity;
pub mod math;
pub mod state;
pub mod swap;

verus! {

/// Fee denominator: a trading fee is a number of basis points out of this.
pub const BASIS_POINTS: u64 = 10000;

} // verus!
