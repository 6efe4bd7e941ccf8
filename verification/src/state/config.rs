//! Deployment-wide fee configuration: the trading fee rate, its owner and
//! the protocol-fee recipient.
//!
//! Identities (the owner and the fee recipient) are plain numeric handles:
//! who may call an operation is decided by an external collaborator before
//! the engine runs, so the engine only stores and returns them.

use vstd::prelude::*;
use crate::error::ErrorCode;
use crate::BASIS_POINTS;

verus! {

/// The fee configuration shared by every pool of a deployment.
#[derive(Clone, Copy, Debug, PartialEq, Eq, Structural)]
pub struct Config {
    /// Identity authorized to change fee parameters.
    pub owner: u64,
    /// Identity entitled to protocol-fee liquidity tokens.
    pub fee_to: u64,
    /// Trading fee in basis points, always below `BASIS_POINTS`.
    pub fee: u64,
}

impl Config {
    /// The configuration invariant: the fee never reaches the denominator.
    pub open spec fn wf(self) -> bool {
        self.fee < BASIS_POINTS
    }

    /// Sets every field, rejecting a fee at or above the denominator.
    pub fn initialize(&mut self, owner: u64, fee_to: u64, fee: u64) -> (r: Result<(), ErrorCode>)
        ensures
            match r {
                Ok(()) => fee < BASIS_POINTS && *final(self) == (Config { owner, fee_to, fee }),
                Err(e) => {
                    &&& e == ErrorCode::InvalidFee
                    &&& fee >= BASIS_POINTS
                    &&& *final(self) == *old(self)
                },
            },
            r is Ok ==> final(self).wf(),
    {
        if !(fee < BASIS_POINTS) {
            return Err(ErrorCode::InvalidFee);
        }
        self.owner = owner;
        self.fee_to = fee_to;
        self.fee = fee;
        Ok(())
    }

    /// Replaces the trading fee, rejecting one at or above the denominator.
    pub fn set_fee(&mut self, fee: u64) -> (r: Result<(), ErrorCode>)
        ensures
            match r {
                Ok(()) => {
                    &&& fee < BASIS_POINTS
                    &&& *final(self) == (Config { fee, ..*old(self) })
                },
                Err(e) => {
                    &&& e == ErrorCode::InvalidFee
                    &&& fee >= BASIS_POINTS
                    &&& *final(self) == *old(self)
                },
            },
            r is Ok ==> final(self).wf(),
    {
        if !(fee < BASIS_POINTS) {
            return Err(ErrorCode::InvalidFee);
        }
        self.fee = fee;
        Ok(())
    }

    /// Replaces the protocol-fee recipient unconditionally.
    pub fn set_fee_to(&mut self, fee_to: u64) -> (r: Result<(), ErrorCode>)
        ensures
            r == Ok::<(), ErrorCode>(()),
            *final(self) == (Config { fee_to, ..*old(self) }),
    {
        self.fee_to = fee_to;
        Ok(())
    }
}

} // verus!
