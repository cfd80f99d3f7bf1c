//! Failure classes of the harness.
//!
//! Configuration errors must be distinguishable from storage and
//! registration errors, and a build aborts on the first of them with no
//! rollback: fixtures are ephemeral and test-scoped.

use vstd::prelude::*;

verus! {

/// Every way a harness operation can fail.
#[derive(Clone, Copy, Debug, PartialEq, Eq, Structural)]
pub enum Error {
    /// An origin block was offered while the chain already has blocks.
    ChainAlreadyExists,
    /// An appended block's height is not the current chain length.
    InvalidBlockIndex,
    /// An origin block carried a parent link or key images.
    InvalidOriginBlock,
    /// A non-origin block does not reference the preceding block.
    InvalidParentLink,
    /// A block's contents hash does not match the contents offered with it.
    ContentsMismatch,
    /// A block's identity is not the digest of its own fields.
    InvalidBlockId,
    /// A block was requested at a height the ledger does not hold.
    BlockNotFound,
    /// A monitor with the same identity is already registered.
    MonitorIdExists,
    /// A quorum threshold exceeded the number of peer identities.
    InvalidThreshold,
}

impl Error {
    /// Whether this error reports a misconfiguration, found before any
    /// network poll, rather than a storage or registration failure.
    pub fn is_configuration(&self) -> (r: bool)
        ensures
            r == (*self == Error::InvalidThreshold),
    {
        match self {
            Error::InvalidThreshold => true,
            _ => false,
        }
    }
}

} // verus!
