//! The ledger store model: an append-only chain of blocks.
//!
//! Invariants, kept by every operation: heights are contiguous from 0;
//! exactly one origin block exists, with no parent and no key images;
//! every other block references the immediately preceding block as parent;
//! every block's contents hash and identity are the digests of what it
//! holds.  Appending validates all of that and fails loudly, with no
//! change to the chain, when any part is violated.

use crate::block::{
    block_id_of, child_block, compute_block_id, contents_digest, generate_outputs,
    generated_outputs, origin_block, Block, BlockContents, KeyImage, Output, BLOCK_VERSION,
};
use crate::error::Error;
use crate::keys::PublicAddress;
use crate::rng::{lcg_iter, lcg_step, TestRng};
use crate::PER_RECIPIENT_AMOUNT;
use vstd::prelude::*;

verus! {

/// The structural invariant of a chain: contiguous heights, one origin
/// block without parent or key images, correct parent linkage, and every
/// block's digests matching its contents.
pub open spec fn chain_linked(blocks: Seq<Block>, contents: Seq<BlockContents>) -> bool {
    &&& blocks.len() == contents.len()
    &&& forall|i: int| 0 <= i < blocks.len() ==> (#[trigger] blocks[i]).index == i
    &&& forall|i: int|
        0 <= i < blocks.len() ==> (#[trigger] blocks[i]).contents_hash == contents_digest(
            contents[i].key_images@,
            contents[i].outputs@,
        )
    &&& forall|i: int|
        0 <= i < blocks.len() ==> (#[trigger] blocks[i]).id == block_id_of(
            blocks[i].version,
            blocks[i].parent_id,
            blocks[i].index,
            blocks[i].contents_hash,
        )
    &&& (blocks.len() > 0 ==> blocks[0].parent_id is None && contents[0].key_images@.len() == 0)
    &&& forall|i: int|
        1 <= i < blocks.len() ==> (#[trigger] blocks[i]).parent_id == Option::Some(
            blocks[i - 1].id,
        )
}

/// The first violated append rule, or `None` when the block may enter the
/// chain.
pub open spec fn append_check(blocks: Seq<Block>, block: Block, key_images: Seq<KeyImage>, outputs: Seq<Output>) -> Option<Error> {
    if block.index == 0 && blocks.len() > 0 {
        Option::Some(Error::ChainAlreadyExists)
    } else if block.index != blocks.len() {
        Option::Some(Error::InvalidBlockIndex)
    } else if block.index == 0 && !(block.parent_id is None && key_images.len() == 0) {
        Option::Some(Error::InvalidOriginBlock)
    } else if block.index > 0 && block.parent_id != Option::Some(blocks.last().id) {
        Option::Some(Error::InvalidParentLink)
    } else if block.contents_hash != contents_digest(key_images, outputs) {
        Option::Some(Error::ContentsMismatch)
    } else if block.id != block_id_of(block.version, block.parent_id, block.index, block.contents_hash) {
        Option::Some(Error::InvalidBlockId)
    } else {
        Option::None
    }
}

/// In-memory ledger store: the chain plus the storage namespace it was
/// created under.
pub struct LedgerDb {
    pub path: String,
    pub blocks: Vec<Block>,
    pub contents: Vec<BlockContents>,
}

impl LedgerDb {
    /// The chain invariant of this store.
    pub open spec fn inv(self) -> bool {
        chain_linked(self.blocks@, self.contents@)
    }

    /// Create an empty ledger under the given storage namespace.
    pub fn create(path: String) -> (db: LedgerDb)
        ensures
            db.path == path,
            db.blocks@.len() == 0,
            db.contents@.len() == 0,
            db.inv(),
    {
        LedgerDb { path, blocks: Vec::new(), contents: Vec::new() }
    }

    /// Current height: the number of blocks in the chain.
    pub fn num_blocks(&self) -> (n: u64)
        ensures
            n == self.blocks@.len(),
    {
        self.blocks.len() as u64
    }

    /// The block at `index`, or `BlockNotFound` past the chain's end.
    pub fn get_block(&self, index: u64) -> (r: Result<Block, Error>)
        ensures
            match r {
                Result::Ok(b) => index < self.blocks@.len() && b == self.blocks@[index as int],
                Result::Err(e) => index >= self.blocks@.len() && e == Error::BlockNotFound,
            },
    {
        if index < self.blocks.len() as u64 {
            Result::Ok(self.blocks[index as usize])
        } else {
            Result::Err(Error::BlockNotFound)
        }
    }

    /// The contents of the block at `index`, or `BlockNotFound`.
    pub fn get_block_contents(&self, index: u64) -> (r: Result<&BlockContents, Error>)
        ensures
            match r {
                Result::Ok(c) => index < self.contents@.len() && *c == self.contents@[index as int],
                Result::Err(e) => index >= self.contents@.len() && e == Error::BlockNotFound,
            },
    {
        if index < self.contents.len() as u64 {
            Result::Ok(&self.contents[index as usize])
        } else {
            Result::Err(Error::BlockNotFound)
        }
    }

    /// Append `block` with its `contents`.  Fails loudly, leaving the
    /// chain unchanged, when any append rule is violated; the error is
    /// exactly the first rule of `append_check` that fails.
    pub fn append_block(&mut self, block: Block, contents: BlockContents) -> (r: Result<(), Error>)
        requires
            old(self).inv(),
        ensures
            match r {
                Result::Ok(()) => {
                    &&& append_check(old(self).blocks@, block, contents.key_images@, contents.outputs@) is None
                    &&& final(self).blocks@ == old(self).blocks@.push(block)
                    &&& final(self).contents@ == old(self).contents@.push(contents)
                    &&& final(self).path == old(self).path
                    &&& final(self).inv()
                },
                Result::Err(e) => {
                    &&& append_check(old(self).blocks@, block, contents.key_images@, contents.outputs@) == Option::Some(e)
                    &&& *final(self) == *old(self)
                },
            },
    {
        let n = self.blocks.len();
        if block.index == 0 && n > 0 {
            return Result::Err(Error::ChainAlreadyExists);
        }
        if block.index != n as u64 {
            return Result::Err(Error::InvalidBlockIndex);
        }
        if block.index == 0 {
            let origin_ok = match block.parent_id {
                Option::None => contents.key_images.len() == 0,
                Option::Some(_) => false,
            };
            if !origin_ok {
                return Result::Err(Error::InvalidOriginBlock);
            }
        } else {
            let parent_ok = match block.parent_id {
                Option::None => false,
                Option::Some(p) => p == self.blocks[n - 1].id,
            };
            if !parent_ok {
                return Result::Err(Error::InvalidParentLink);
            }
        }
        if block.contents_hash != contents.digest() {
            return Result::Err(Error::ContentsMismatch);
        }
        if block.id != compute_block_id(block.version, &block.parent_id, block.index, block.contents_hash) {
            return Result::Err(Error::InvalidBlockId);
        }
        let ghost old_blocks = self.blocks@;
        let ghost old_contents = self.contents@;
        self.blocks.push(block);
        self.contents.push(contents);
        proof {
            let nb = self.blocks@;
            let nc = self.contents@;
            assert forall|i: int| 0 <= i < nb.len() implies (#[trigger] nb[i]).index == i by {
                if i < old_blocks.len() {
                    assert(nb[i] == old_blocks[i]);
                }
            }
            assert forall|i: int|
                0 <= i < nb.len() implies (#[trigger] nb[i]).contents_hash == contents_digest(
                nc[i].key_images@,
                nc[i].outputs@,
            ) by {
                if i < old_blocks.len() {
                    assert(nb[i] == old_blocks[i]);
                    assert(nc[i] == old_contents[i]);
                }
            }
            assert forall|i: int|
                0 <= i < nb.len() implies (#[trigger] nb[i]).id == block_id_of(
                nb[i].version,
                nb[i].parent_id,
                nb[i].index,
                nb[i].contents_hash,
            ) by {
                if i < old_blocks.len() {
                    assert(nb[i] == old_blocks[i]);
                }
            }
            assert forall|i: int|
                1 <= i < nb.len() implies (#[trigger] nb[i]).parent_id == Option::Some(
                nb[i - 1].id,
            ) by {
                if i < old_blocks.len() {
                    assert(nb[i] == old_blocks[i]);
                    assert(nb[i - 1] == old_blocks[i - 1]);
                }
            }
        }
        Result::Ok(())
    }
}

/// A fresh vector holding the same key images.
fn copy_key_images(source: &Vec<KeyImage>) -> (r: Vec<KeyImage>)
    ensures
        r@ == source@,
{
    let mut r: Vec<KeyImage> = Vec::new();
    let mut i: usize = 0;
    while i < source.len()
        invariant
            0 <= i <= source@.len(),
            r@ == source@.take(i as int),
        decreases source@.len() - i,
    {
        r.push(source[i]);
        proof {
            assert(source@.take(i + 1) =~= source@.take(i as int).push(source@[i as int]));
        }
        i = i + 1;
    }
    proof {
        assert(source@.take(source@.len() as int) =~= source@);
    }
    r
}

/// The block `add_block_to_ledger_db` appends to a ledger whose chain is
/// `blocks`, given the key images and outputs of the new block.
pub open spec fn next_block_for(blocks: Seq<Block>, key_images: Seq<KeyImage>, outputs: Seq<Output>) -> Block {
    if blocks.len() == 0 {
        origin_block(outputs)
    } else {
        child_block(BLOCK_VERSION, blocks.last(), key_images, outputs)
    }
}

/// Append one block holding one output per recipient at the fixed
/// per-recipient amount, plus the given key images, and return the new
/// height.  The origin block must be offered no key images.
#[verifier::rlimit(100)]
pub fn add_block_to_ledger_db(
    ledger_db: &mut LedgerDb,
    recipients: &Vec<PublicAddress>,
    key_images: &Vec<KeyImage>,
    rng: &mut TestRng,
) -> (r: u64)
    requires
        old(ledger_db).inv(),
        old(ledger_db).blocks@.len() == 0 ==> key_images@.len() == 0,
    ensures
        final(ledger_db).inv(),
        final(ledger_db).path == old(ledger_db).path,
        final(rng).state == lcg_iter(old(rng).state, recipients@.len()),
        final(ledger_db).contents@.len() == old(ledger_db).contents@.len() + 1,
        final(ledger_db).contents@.last().key_images@ == key_images@,
        final(ledger_db).contents@.last().outputs@ == generated_outputs(
            recipients@,
            PER_RECIPIENT_AMOUNT,
            old(rng).state,
        ),
        final(ledger_db).contents@.drop_last() == old(ledger_db).contents@,
        final(ledger_db).blocks@ == old(ledger_db).blocks@.push(
            next_block_for(
                old(ledger_db).blocks@,
                key_images@,
                generated_outputs(recipients@, PER_RECIPIENT_AMOUNT, old(rng).state),
            ),
        ),
        r == old(ledger_db).blocks@.len() + 1,
{
    let outputs = generate_outputs(recipients, PER_RECIPIENT_AMOUNT, rng);
    let block_contents = BlockContents::new(copy_key_images(key_images), outputs);

    let n = ledger_db.blocks.len();

    let new_block: Block;
    if n > 0 {
        let parent = ledger_db.blocks[n - 1];
        new_block = Block::new_with_parent(BLOCK_VERSION, &parent, &block_contents);
    } else {
        new_block = Block::new_origin(&block_contents.outputs);
        proof {
            assert(key_images@ =~= Seq::<KeyImage>::empty());
        }
    }

    proof {
        assert(append_check(
            old(ledger_db).blocks@,
            new_block,
            block_contents.key_images@,
            block_contents.outputs@,
        ) is None);
    }
    let result = ledger_db.append_block(new_block, block_contents);
    proof {
        assert(ledger_db.contents@.drop_last() =~= old(ledger_db).contents@);
    }
    match result {
        Result::Ok(()) => ledger_db.num_blocks(),
        Result::Err(_) => vstd::pervasive::unreached(),
    }
}

/// Append one block holding exactly the given outputs and one synthetic
/// key image drawn from `rng`, and return the new height.  The chain must
/// already have its origin block: a key image may not enter block 0.
#[verifier::rlimit(100)]
pub fn add_txos_to_ledger_db(ledger_db: &mut LedgerDb, outputs: &Vec<Output>, rng: &mut TestRng) -> (r: u64)
    requires
        old(ledger_db).inv(),
        old(ledger_db).blocks@.len() > 0,
    ensures
        final(ledger_db).inv(),
        final(ledger_db).path == old(ledger_db).path,
        final(rng).state == lcg_step(old(rng).state),
        final(ledger_db).contents@.len() == old(ledger_db).contents@.len() + 1,
        final(ledger_db).contents@.last().key_images@ == seq![
            (KeyImage { value: lcg_step(old(rng).state) }),
        ],
        final(ledger_db).contents@.last().outputs@ == outputs@,
        final(ledger_db).contents@.drop_last() == old(ledger_db).contents@,
        final(ledger_db).blocks@ == old(ledger_db).blocks@.push(
            child_block(
                BLOCK_VERSION,
                old(ledger_db).blocks@.last(),
                seq![(KeyImage { value: lcg_step(old(rng).state) })],
                outputs@,
            ),
        ),
        r == old(ledger_db).blocks@.len() + 1,
{
    let mut key_images: Vec<KeyImage> = Vec::new();
    key_images.push(KeyImage::new(rng.next_u64()));
    let mut copied: Vec<Output> = Vec::new();
    let mut i: usize = 0;
    while i < outputs.len()
        invariant
            0 <= i <= outputs@.len(),
            copied@ == outputs@.take(i as int),
        decreases outputs@.len() - i,
    {
        copied.push(outputs[i]);
        proof {
            assert(outputs@.take(i + 1) =~= outputs@.take(i as int).push(outputs@[i as int]));
        }
        i = i + 1;
    }
    proof {
        assert(outputs@.take(outputs@.len() as int) =~= outputs@);
    }
    let block_contents = BlockContents::new(key_images, copied);

    let n = ledger_db.blocks.len();
    let parent = ledger_db.blocks[n - 1];
    let new_block = Block::new_with_parent(BLOCK_VERSION, &parent, &block_contents);

    proof {
        assert(append_check(
            old(ledger_db).blocks@,
            new_block,
            block_contents.key_images@,
            block_contents.outputs@,
        ) is None);
    }
    let result = ledger_db.append_block(new_block, block_contents);
    proof {
        assert(ledger_db.contents@.drop_last() =~= old(ledger_db).contents@);
    }
    match result {
        Result::Ok(()) => ledger_db.num_blocks(),
        Result::Err(_) => vstd::pervasive::unreached(),
    }
}

/// Round trip: after an append, reading the chain at the appended
/// height returns exactly the block and contents that went in — the
/// same outputs, the same key images and the same parent linkage.
pub proof fn lemma_append_round_trip(pre: LedgerDb, post: LedgerDb, block: Block, contents: BlockContents)
    requires
        post.blocks@ == pre.blocks@.push(block),
        post.contents@ == pre.contents@.push(contents),
        pre.blocks@.len() == pre.contents@.len(),
    ensures
        post.blocks@[pre.blocks@.len() as int] == block,
        post.contents@[pre.blocks@.len() as int] == contents,
        post.blocks@[pre.blocks@.len() as int].parent_id == block.parent_id,
        post.contents@[pre.blocks@.len() as int].outputs@ == contents.outputs@,
        post.contents@[pre.blocks@.len() as int].key_images@ == contents.key_images@,
{
}

} // verus!
