//! Tamper-evidence digests for the synthetic chain.
//!
//! A block's effective identity must be a function of its version, its
//! parent's identity and its full contents, so that any content mutation
//! invalidates every descendant linkage.  The digests here fold 64-bit
//! tokens with `mix`, a multiply-and-add step modulo 2^64; the combining
//! rule is fully specified, so verified callers know the exact identity of
//! every block they build.

use vstd::prelude::*;

verus! {

/// Starting accumulator of every digest.
pub const DIGEST_SEED: u64 = 0xcbf2_9ce4_8422_2325;

/// One folding step: `(acc * 31 + x) mod 2^64`.  The combining rule is
/// kept closed: callers reason about digests as opaque functions of their
/// tokens.
pub closed spec fn mix(acc: u64, x: u64) -> u64 {
    ((acc * 31 + x) % 0x1_0000_0000_0000_0000) as u64
}

/// Executable folding step, equal to the specification `mix`.
pub fn mix_u64(acc: u64, x: u64) -> (r: u64)
    ensures
        r == mix(acc, x),
{
    let wide: u128 = (acc as u128) * 31 + (x as u128);
    let low: u128 = wide % 0x1_0000_0000_0000_0000u128;
    low as u64
}

} // verus!
