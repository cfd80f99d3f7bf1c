//! Deterministic test-environment harness for a distributed ledger node.
//!
//! The crate builds a synthetic, internally consistent append-only block
//! chain populated with synthetic spendable outputs, stands up a mock peer
//! network with quorum-based agreement and polling, and provides a polling
//! synchronization barrier that reports when background account-scanning
//! monitors have consumed the entire chain.

pub mod barrier;
pub mod block;
pub mod digest;
pub mod env;
pub mod error;
pub mod ledger;
pub mod monitor;
pub mod network;
pub mod keys;
pub mod rng;

use vstd::prelude::*;

verus! {

/// The amount each recipient gets in the test ledger.
pub const PER_RECIPIENT_AMOUNT: u64 = 5_000 * 1_000_000_000_000;

/// Number of initial blocks generated by `get_testing_environment`.
pub const GET_TESTING_ENVIRONMENT_NUM_BLOCKS: usize = 10;

} // verus!
