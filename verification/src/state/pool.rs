//! The pool record: two canonically ordered asset identifiers, the tracked
//! reserves, and the reserve-product checkpoint used for protocol-fee
//! accrual.
//!
//! Asset identifiers are plain numeric handles under the ambient total
//! order; the pair is stored with the smaller first, so one pool exists per
//! unordered pair.

use vstd::prelude::*;
use crate::error::ErrorCode;
use crate::math::lemma_u64_mul_fits;

verus! {

/// One liquidity pool over an ordered pair of assets.
#[derive(Clone, Copy, Debug, PartialEq, Eq, Structural)]
pub struct Pool {
    /// The smaller asset identifier of the pair.
    pub token0: u64,
    /// The larger asset identifier of the pair.
    pub token1: u64,
    /// Tracked balance of the first asset.
    pub reserve0: u64,
    /// Tracked balance of the second asset.
    pub reserve1: u64,
    /// The reserve product recorded at the last liquidity-changing event;
    /// zero until the first checkpoint, which disables fee skimming.
    pub k_last: u128,
}

impl Pool {
    /// The pool invariant fixed at creation: assets are distinct and ordered.
    pub open spec fn wf(self) -> bool {
        self.token0 < self.token1
    }

    /// Starts the pool for an ordered pair, with empty reserves and no
    /// checkpoint, rejecting a pair out of canonical order.
    pub fn initialize(&mut self, token0: u64, token1: u64) -> (r: Result<(), ErrorCode>)
        ensures
            match r {
                Ok(()) => {
                    &&& token0 < token1
                    &&& *final(self) == (Pool {
                        token0,
                        token1,
                        reserve0: 0,
                        reserve1: 0,
                        k_last: 0,
                    })
                },
                Err(e) => {
                    &&& e == ErrorCode::InvalidMintOrder
                    &&& token0 >= token1
                    &&& *final(self) == *old(self)
                },
            },
            r is Ok ==> final(self).wf(),
    {
        if !(token0 < token1) {
            return Err(ErrorCode::InvalidMintOrder);
        }
        self.token0 = token0;
        self.token1 = token1;
        self.reserve0 = 0;
        self.reserve1 = 0;
        self.k_last = 0;
        Ok(())
    }

    /// Adds a validated deposit to both reserves. Reserves are bounded by
    /// the transferable token supply, so growing past the reserve width is a
    /// fatal precondition violation, not a recoverable error.
    pub fn apply_deposit(&mut self, amount0: u64, amount1: u64)
        requires
            old(self).reserve0 + amount0 <= u64::MAX,
            old(self).reserve1 + amount1 <= u64::MAX,
        ensures
            *final(self) == (Pool {
                reserve0: (old(self).reserve0 + amount0) as u64,
                reserve1: (old(self).reserve1 + amount1) as u64,
                ..*old(self)
            }),
    {
        self.reserve0 = self.reserve0 + amount0;
        self.reserve1 = self.reserve1 + amount1;
    }

    /// Subtracts a validated withdrawal from both reserves; taking more than
    /// a reserve holds is a precondition violation.
    pub fn apply_withdrawal(&mut self, amount0: u64, amount1: u64)
        requires
            amount0 <= old(self).reserve0,
            amount1 <= old(self).reserve1,
        ensures
            *final(self) == (Pool {
                reserve0: (old(self).reserve0 - amount0) as u64,
                reserve1: (old(self).reserve1 - amount1) as u64,
                ..*old(self)
            }),
    {
        self.reserve0 = self.reserve0 - amount0;
        self.reserve1 = self.reserve1 - amount1;
    }

    /// Records the current reserve product as the protocol-fee checkpoint,
    /// in the widened integer type.
    pub fn update_k_last(&mut self)
        ensures
            *final(self) == (Pool {
                k_last: (old(self).reserve0 as int * old(self).reserve1 as int) as u128,
                ..*old(self)
            }),
    {
        proof {
            lemma_u64_mul_fits(self.reserve0, self.reserve1);
        }
        self.k_last = (self.reserve0 as u128) * (self.reserve1 as u128);
    }
}

} // verus!
