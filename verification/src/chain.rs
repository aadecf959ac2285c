//! The append-only, validated sequence of blocks; the authority for
//! acceptance.
//!
//! A chain is never empty: it starts from a fixed genesis block (index 0,
//! no transactions, all-zero previous hash, timestamp 0), so every replica
//! starts from the same tip. Appending checks, in this exact precedence
//! order against the current last block: index continuity, strictly
//! increasing timestamp, hash link, the candidate's own stored hash, and
//! finally the candidate's transactions. Exactly one outcome is reported
//! per call, and on any failure the chain is left unmodified.

use vstd::prelude::*;
use crate::block::{Block, BlockView, block_hash_ok, block_txs_verify};
use crate::encoding::bytes_eq;

verus! {

/// The kind of check a candidate block failed, in the order the checks are
/// made.
#[derive(Clone, Copy, Debug, PartialEq, Eq, Structural)]
pub enum AppendError {
    IndexMismatch,
    TimeWentBackwards,
    HashLinkMismatch,
    HashMismatch,
    TransactionInvalid,
}

/// The all-zero 32-byte digest, the genesis block's predecessor pointer.
pub open spec fn zero_hash() -> Seq<u8> {
    Seq::new(32, |i: int| 0u8)
}

/// The fixed root of every chain: index 0, no transactions, all-zero
/// previous hash, timestamp 0, nonce 0, its stored hash consistent.
pub open spec fn is_genesis(b: BlockView) -> bool {
    &&& b.index == 0
    &&& b.transactions.len() == 0
    &&& b.previous_hash == zero_hash()
    &&& b.timestamp == 0
    &&& b.nonce == 0
    &&& block_hash_ok(b)
}

/// How a block must relate to its predecessor: the next index, a strictly
/// later timestamp, and a hash pointer to the predecessor's stored hash.
pub open spec fn links(prev: BlockView, b: BlockView) -> bool {
    &&& b.index == prev.index + 1
    &&& b.timestamp > prev.timestamp
    &&& prev.hash == Some(b.previous_hash)
}

/// Chain well-formedness: non-empty, every block carries a stored hash, and
/// every adjacent pair links.
pub open spec fn chain_wf(c: Seq<BlockView>) -> bool {
    &&& c.len() >= 1
    &&& forall|i: int| 0 <= i < c.len() ==> (#[trigger] c[i]).hash is Some
    &&& forall|i: int| 1 <= i < c.len() ==> links(c[i - 1], #[trigger] c[i])
}

/// The first of the five checks the candidate fails against the current
/// last block, or `None` when it passes them all.
pub open spec fn append_failure(last: BlockView, b: BlockView) -> Option<AppendError> {
    if b.index != last.index + 1 {
        Some(AppendError::IndexMismatch)
    } else if b.timestamp <= last.timestamp {
        Some(AppendError::TimeWentBackwards)
    } else if last.hash != Some(b.previous_hash) {
        Some(AppendError::HashLinkMismatch)
    } else if !block_hash_ok(b) {
        Some(AppendError::HashMismatch)
    } else if !block_txs_verify(b) {
        Some(AppendError::TransactionInvalid)
    } else {
        None
    }
}

/// The append-only log of accepted blocks.
pub struct Blockchain {
    pub chain: Vec<Block>,
}

impl Blockchain {
    /// Chain well-formedness, established at construction and preserved by
    /// every append.
    pub open spec fn wf(&self) -> bool {
        chain_wf(self.chain.deep_view())
    }

    /// The view of the current last block, the chain tip.
    pub open spec fn tip(&self) -> BlockView {
        self.chain.deep_view().last()
    }

    /// A new chain holding exactly the genesis block: index 0, no
    /// transactions, all-zero previous hash, timestamp 0. Genesis is fixed,
    /// so independently constructed replicas agree on it.
    pub fn new() -> (r: Blockchain)
        ensures
            r.wf(),
            r.chain.deep_view().len() == 1,
            is_genesis(r.chain.deep_view()[0]),
    {
        let mut zeroes: Vec<u8> = Vec::new();
        let mut i: usize = 0;
        while i < 32
            invariant
                i <= 32,
                zeroes@ == zero_hash().take(i as int),
            decreases 32 - i,
        {
            zeroes.push(0u8);
            proof {
                assert(zeroes@ =~= zero_hash().take(i as int + 1));
            }
            i += 1;
        }
        proof {
            assert(zero_hash().take(32) =~= zero_hash());
        }
        let genesis = Block::from_parts(0, Vec::new(), zeroes, 0);
        let mut chain: Vec<Block> = Vec::new();
        chain.push(genesis);
        let r = Blockchain { chain };
        proof {
            assert(r.chain.deep_view()[0] == r.chain@[0].deep_view());
            assert(r.chain.deep_view().len() == 1);
        }
        r
    }

    /// The sole mutation entry point. Validates the candidate against the
    /// current tip and appends it on success; on failure the chain is left
    /// unmodified and the specific failure kind is reported.
    pub fn add_block(&mut self, new_block: Block) -> (r: Result<(), AppendError>)
        requires
            old(self).wf(),
        ensures
            final(self).wf(),
            match r {
                Ok(()) => append_failure(old(self).tip(), new_block@) is None && final(
                    self).chain.deep_view() == old(self).chain.deep_view().push(new_block@),
                Err(e) => Some(e) == append_failure(old(self).tip(), new_block@) && final(
                    self).chain.deep_view() == old(self).chain.deep_view(),
            },
    {
        let ghost pre = self.chain.deep_view();
        let last_i = self.chain.len() - 1;
        proof {
            assert(pre[last_i as int] == self.chain@[last_i as int].deep_view());
            assert(pre[last_i as int] == old(self).tip());
        }
        let last = &self.chain[last_i];
        if last.index == u64::MAX || new_block.index != last.index + 1 {
            return Err(AppendError::IndexMismatch);
        }
        if new_block.timestamp <= last.timestamp {
            return Err(AppendError::TimeWentBackwards);
        }
        let linked = match &last.hash {
            Some(h) => bytes_eq(&new_block.previous_hash, h),
            None => {
                proof {
                    assert(pre[last_i as int].hash is Some);
                }
                false
            },
        };
        if !linked {
            return Err(AppendError::HashLinkMismatch);
        }
        let recomputed = new_block.compute_hash();
        let hash_ok = match &new_block.hash {
            Some(stored) => bytes_eq(stored, &recomputed),
            None => false,
        };
        if !hash_ok {
            return Err(AppendError::HashMismatch);
        }
        if !new_block.verify_transactions() {
            return Err(AppendError::TransactionInvalid);
        }
        let ghost candidate = new_block@;
        self.chain.push(new_block);
        proof {
            assert forall|j: int| 0 <= j < pre.len() implies self.chain.deep_view()[j] == pre[j] by {
                assert(self.chain.deep_view()[j] == self.chain@[j].deep_view());
                assert(pre[j] == old(self).chain@[j].deep_view());
            }
            assert(self.chain.deep_view()[pre.len() as int] == self.chain@[
                pre.len() as int].deep_view());
            assert(self.chain.deep_view() =~= pre.push(candidate));
            assert(links(pre.last(), candidate));
            assert forall|i: int| 1 <= i < pre.len() + 1 implies links(
                self.chain.deep_view()[i - 1], #[trigger] self.chain.deep_view()[i]) by {}
        }
        Ok(())
    }
}

} // verus!
