//! Synthetic account keys and public addresses.
//!
//! Real account-key cryptography is an external collaborator and out of
//! scope; the harness only needs recipients that are reproducible from a
//! seeded randomness source and distinguishable from one another.  A key
//! is therefore a pair of plain 64-bit values, and subaddress derivation
//! is the fully specified `mix` fold over those values.

use crate::digest::{mix, mix_u64};
use crate::rng::{lcg_iter, TestRng};
use vstd::prelude::*;

verus! {

/// Subaddress index every synthetic output is controlled by.
pub const DEFAULT_SUBADDRESS_INDEX: u64 = 0;

/// A public address capable of receiving outputs.
#[derive(Clone, Copy, Debug, PartialEq, Eq, Structural)]
pub struct PublicAddress {
    pub view_public: u64,
    pub spend_public: u64,
}

/// A synthetic account key: two private scalars.
#[derive(Clone, Copy, Debug, PartialEq, Eq, Structural)]
pub struct AccountKey {
    pub view_private: u64,
    pub spend_private: u64,
}

/// The public address of `k` at subaddress `index`.
pub open spec fn subaddress_of(k: AccountKey, index: u64) -> PublicAddress {
    PublicAddress {
        view_public: mix(k.view_private, index),
        spend_public: mix(k.spend_private, index),
    }
}

impl AccountKey {
    /// A fresh key: its two scalars are the next two draws of `rng`.
    pub fn random(rng: &mut TestRng) -> (r: AccountKey)
        ensures
            r.view_private == lcg_iter(old(rng).state, 1),
            r.spend_private == lcg_iter(old(rng).state, 2),
            final(rng).state == lcg_iter(old(rng).state, 2),
    {
        let ghost s0 = rng.state;
        let view_private = rng.next_u64();
        let spend_private = rng.next_u64();
        proof {
            assert(lcg_iter(s0, 0) == s0);
            assert(lcg_iter(s0, 1) == view_private);
            assert(lcg_iter(s0, 2) == spend_private);
        }
        AccountKey { view_private, spend_private }
    }

    /// The address of this key at `DEFAULT_SUBADDRESS_INDEX`.
    pub fn default_subaddress(&self) -> (r: PublicAddress)
        ensures
            r == subaddress_of(*self, DEFAULT_SUBADDRESS_INDEX),
    {
        PublicAddress {
            view_public: mix_u64(self.view_private, DEFAULT_SUBADDRESS_INDEX),
            spend_public: mix_u64(self.spend_private, DEFAULT_SUBADDRESS_INDEX),
        }
    }
}

} // verus!
