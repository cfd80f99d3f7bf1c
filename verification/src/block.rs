//! Blocks, block contents and synthetic outputs.
//!
//! A block is immutable once built.  Its identity is a digest of its
//! version, its parent's identity, its height and the digest of its full
//! contents, so a mutated content invalidates every descendant linkage.
//! The origin block is the only block without a parent and carries no key
//! images.

use crate::digest::{mix, mix_u64, DIGEST_SEED};
use crate::keys::PublicAddress;
use crate::rng::{lcg_iter, TestRng};
use vstd::prelude::*;

verus! {

/// Version tag of every block this harness builds.
pub const BLOCK_VERSION: u32 = 0;

/// Domain separator for output tokens.
pub const OUTPUT_DOMAIN: u64 = 0x6f75_7470_7574_0001;

/// Domain separator for block identities.
pub const BLOCK_DOMAIN: u64 = 0x626c_6f63_6b00_0001;

/// Opaque revocation marker, synthetically generated per non-origin block.
#[derive(Clone, Copy, Debug, PartialEq, Eq, Structural)]
pub struct KeyImage {
    pub value: u64,
}

impl KeyImage {
    /// A key image carrying the given marker value.
    pub fn new(value: u64) -> (r: KeyImage)
        ensures
            r.value == value,
    {
        KeyImage { value }
    }
}

/// Synthetic spendable output: a fixed value sent to a recipient under a
/// freshly derived one-time public key.
#[derive(Clone, Copy, Debug, PartialEq, Eq, Structural)]
pub struct Output {
    pub recipient: PublicAddress,
    pub value: u64,
    pub public_key: u64,
}

/// Ordered key images and ordered outputs of one block.
#[derive(Clone, Debug, PartialEq, Eq)]
pub struct BlockContents {
    pub key_images: Vec<KeyImage>,
    pub outputs: Vec<Output>,
}

/// The digest token of one output.
pub open spec fn output_token(o: Output) -> u64 {
    mix(mix(mix(mix(OUTPUT_DOMAIN, o.recipient.view_public), o.recipient.spend_public), o.value),
        o.public_key)
}

/// Fold of the key-image tokens of `s` onto `acc`.
pub open spec fn digest_key_images(acc: u64, s: Seq<KeyImage>) -> u64
    decreases s.len(),
{
    if s.len() == 0 {
        acc
    } else {
        mix(digest_key_images(acc, s.drop_last()), s.last().value)
    }
}

/// Fold of the output tokens of `s` onto `acc`.
pub open spec fn digest_outputs(acc: u64, s: Seq<Output>) -> u64
    decreases s.len(),
{
    if s.len() == 0 {
        acc
    } else {
        mix(digest_outputs(acc, s.drop_last()), output_token(s.last()))
    }
}

/// Digest of a block's full contents: key images first, then outputs.
pub open spec fn contents_digest(key_images: Seq<KeyImage>, outputs: Seq<Output>) -> u64 {
    digest_outputs(digest_key_images(DIGEST_SEED, key_images), outputs)
}

impl BlockContents {
    /// Contents holding exactly the given key images and outputs.
    pub fn new(key_images: Vec<KeyImage>, outputs: Vec<Output>) -> (r: BlockContents)
        ensures
            r.key_images@ == key_images@,
            r.outputs@ == outputs@,
    {
        BlockContents { key_images, outputs }
    }

    /// Digest of these contents, equal to `contents_digest`.
    pub fn digest(&self) -> (r: u64)
        ensures
            r == contents_digest(self.key_images@, self.outputs@),
    {
        let mut acc = DIGEST_SEED;
        let mut i: usize = 0;
        while i < self.key_images.len()
            invariant
                0 <= i <= self.key_images@.len(),
                acc == digest_key_images(DIGEST_SEED, self.key_images@.take(i as int)),
            decreases self.key_images@.len() - i,
        {
            proof {
                assert(self.key_images@.take(i + 1).drop_last() =~= self.key_images@.take(
                    i as int,
                ));
                assert(self.key_images@.take(i + 1).last() == self.key_images@[i as int]);
            }
            acc = mix_u64(acc, self.key_images[i].value);
            i = i + 1;
        }
        proof {
            assert(self.key_images@.take(self.key_images@.len() as int) =~= self.key_images@);
        }
        let mut j: usize = 0;
        let ghost ki_acc = acc;
        while j < self.outputs.len()
            invariant
                0 <= j <= self.outputs@.len(),
                ki_acc == digest_key_images(DIGEST_SEED, self.key_images@),
                acc == digest_outputs(ki_acc, self.outputs@.take(j as int)),
            decreases self.outputs@.len() - j,
        {
            proof {
                assert(self.outputs@.take(j + 1).drop_last() =~= self.outputs@.take(j as int));
                assert(self.outputs@.take(j + 1).last() == self.outputs@[j as int]);
            }
            let o = self.outputs[j];
            let token = mix_u64(
                mix_u64(
                    mix_u64(mix_u64(OUTPUT_DOMAIN, o.recipient.view_public), o.recipient.spend_public),
                    o.value,
                ),
                o.public_key,
            );
            acc = mix_u64(acc, token);
            j = j + 1;
        }
        proof {
            assert(self.outputs@.take(self.outputs@.len() as int) =~= self.outputs@);
        }
        acc
    }
}

/// A block of the synthetic chain.  `parent_id` is `None` exactly for the
/// origin block; `index` is the block's height.
#[derive(Clone, Copy, Debug, PartialEq, Eq)]
pub struct Block {
    pub id: u64,
    pub version: u32,
    pub parent_id: Option<u64>,
    pub index: u64,
    pub contents_hash: u64,
}

/// The identity a block with these fields must carry.
pub open spec fn block_id_of(version: u32, parent_id: Option<u64>, index: u64, contents_hash: u64) -> u64 {
    let parent_token = match parent_id {
        Option::None => 0u64,
        Option::Some(p) => mix(1, p),
    };
    mix(mix(mix(mix(BLOCK_DOMAIN, version as u64), parent_token), index), contents_hash)
}

/// The origin block over the given outputs: height 0, no parent, and a
/// contents digest over zero key images.
pub open spec fn origin_block(outputs: Seq<Output>) -> Block {
    let ch = contents_digest(Seq::<KeyImage>::empty(), outputs);
    Block {
        id: block_id_of(BLOCK_VERSION, Option::None, 0, ch),
        version: BLOCK_VERSION,
        parent_id: Option::None,
        index: 0,
        contents_hash: ch,
    }
}

/// The successor of `parent` holding the given contents.
pub open spec fn child_block(version: u32, parent: Block, key_images: Seq<KeyImage>, outputs: Seq<Output>) -> Block {
    let ch = contents_digest(key_images, outputs);
    Block {
        id: block_id_of(version, Option::Some(parent.id), (parent.index + 1) as u64, ch),
        version,
        parent_id: Option::Some(parent.id),
        index: (parent.index + 1) as u64,
        contents_hash: ch,
    }
}

/// Executable block identity, equal to `block_id_of`.
pub fn compute_block_id(version: u32, parent_id: &Option<u64>, index: u64, contents_hash: u64) -> (r: u64)
    ensures
        r == block_id_of(version, *parent_id, index, contents_hash),
{
    let parent_token = match parent_id {
        Option::None => 0u64,
        Option::Some(p) => mix_u64(1, *p),
    };
    mix_u64(mix_u64(mix_u64(mix_u64(BLOCK_DOMAIN, version as u64), parent_token), index), contents_hash)
}

impl Block {
    /// Build the height-0 block: no parent and no key images.
    pub fn new_origin(outputs: &Vec<Output>) -> (b: Block)
        ensures
            b == origin_block(outputs@),
    {
        let mut ki_acc = DIGEST_SEED;
        proof {
            assert(digest_key_images(DIGEST_SEED, Seq::<KeyImage>::empty()) == DIGEST_SEED);
        }
        let mut acc = ki_acc;
        let mut j: usize = 0;
        while j < outputs.len()
            invariant
                0 <= j <= outputs@.len(),
                acc == digest_outputs(DIGEST_SEED, outputs@.take(j as int)),
            decreases outputs@.len() - j,
        {
            proof {
                assert(outputs@.take(j + 1).drop_last() =~= outputs@.take(j as int));
                assert(outputs@.take(j + 1).last() == outputs@[j as int]);
            }
            let o = outputs[j];
            let token = mix_u64(
                mix_u64(
                    mix_u64(mix_u64(OUTPUT_DOMAIN, o.recipient.view_public), o.recipient.spend_public),
                    o.value,
                ),
                o.public_key,
            );
            acc = mix_u64(acc, token);
            j = j + 1;
        }
        proof {
            assert(outputs@.take(outputs@.len() as int) =~= outputs@);
        }
        let parent_id: Option<u64> = Option::None;
        let id = compute_block_id(BLOCK_VERSION, &parent_id, 0, acc);
        Block { id, version: BLOCK_VERSION, parent_id, index: 0, contents_hash: acc }
    }

    /// Build the block at `parent.index + 1`, linked to `parent`.
    pub fn new_with_parent(version: u32, parent: &Block, contents: &BlockContents) -> (b: Block)
        requires
            parent.index < u64::MAX,
        ensures
            b == child_block(version, *parent, contents.key_images@, contents.outputs@),
    {
        let ch = contents.digest();
        let parent_id: Option<u64> = Option::Some(parent.id);
        let index = parent.index + 1;
        let id = compute_block_id(version, &parent_id, index, ch);
        Block { id, version, parent_id, index, contents_hash: ch }
    }
}

/// The outputs `generate_outputs` builds: one per recipient, at the fixed
/// `value`, whose one-time key is the next draw of a generator at state
/// `s0`.
pub open spec fn generated_outputs(recipients: Seq<PublicAddress>, value: u64, s0: u64) -> Seq<Output> {
    Seq::new(
        recipients.len(),
        |i: int|
            Output {
                recipient: recipients[i],
                value,
                public_key: lcg_iter(s0, (i + 1) as nat),
            },
    )
}

/// Synthesize one output per recipient at the fixed `value`, each with a
/// fresh one-time key drawn from `rng`.
pub fn generate_outputs(recipients: &Vec<PublicAddress>, value: u64, rng: &mut TestRng) -> (r: Vec<Output>)
    ensures
        r@ == generated_outputs(recipients@, value, old(rng).state),
        final(rng).state == lcg_iter(old(rng).state, recipients@.len()),
{
    let ghost s0 = rng.state;
    let mut out: Vec<Output> = Vec::new();
    let mut i: usize = 0;
    while i < recipients.len()
        invariant
            0 <= i <= recipients@.len(),
            out@.len() == i,
            rng.state == lcg_iter(s0, i as nat),
            forall|k: int|
                0 <= k < i ==> out@[k] == (Output {
                    recipient: recipients@[k],
                    value,
                    public_key: lcg_iter(s0, (k + 1) as nat),
                }),
        decreases recipients@.len() - i,
    {
        proof {
            crate::rng::lemma_lcg_iter_add(s0, i as nat, 1);
            assert(lcg_iter(rng.state, 1) == crate::rng::lcg_step(lcg_iter(rng.state, 0)));
        }
        let key = rng.next_u64();
        out.push(Output { recipient: recipients[i], value, public_key: key });
        i = i + 1;
    }
    proof {
        assert(out@ =~= generated_outputs(recipients@, value, s0));
    }
    out
}

} // verus!
