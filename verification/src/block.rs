//! An ordered batch of transactions bound to a position in the chain by a
//! hash pointer.
//!
//! The block hash is the digest of: big-endian index, then every
//! transaction's content hash in order, then the previous block's hash,
//! then big-endian timestamp, then big-endian nonce. It is computed once at
//! construction and frozen; a block whose stored hash no longer matches its
//! recomputed digest is self-inconsistent and the chain rejects it.

use vstd::prelude::*;
use crate::crypto::{sha256, sha256_of, now_millis};
use crate::encoding::{u64_be_bytes, u128_be_bytes, push_u64_be, push_u128_be, clone_bytes};
use crate::transaction::{Transaction, TxView, tx_content_hash, tx_verifies};

verus! {

/// The mathematical value of a block.
pub ghost struct BlockView {
    pub index: u64,
    pub transactions: Seq<TxView>,
    pub previous_hash: Seq<u8>,
    pub timestamp: u128,
    pub nonce: u64,
    pub hash: Option<Seq<u8>>,
}

/// The content hashes of a batch of transactions, concatenated in order.
pub open spec fn tx_hashes_bytes(txs: Seq<TxView>) -> Seq<u8>
    decreases txs.len(),
{
    if txs.len() == 0 {
        Seq::empty()
    } else {
        tx_hashes_bytes(txs.drop_last()) + tx_content_hash(txs.last())
    }
}

/// The byte string the block hash is computed over. The stored hash itself
/// is not part of it.
pub open spec fn block_content_bytes(b: BlockView) -> Seq<u8> {
    u64_be_bytes(b.index) + tx_hashes_bytes(b.transactions) + b.previous_hash + u128_be_bytes(
        b.timestamp) + u64_be_bytes(b.nonce)
}

/// Whether the stored hash equals the digest recomputed over the block's
/// current contents.
pub open spec fn block_hash_ok(b: BlockView) -> bool {
    b.hash == Some(sha256_of(block_content_bytes(b)))
}

/// Whether every transaction in the block verifies; an empty batch
/// trivially does.
pub open spec fn block_txs_verify(b: BlockView) -> bool {
    forall|i: int| 0 <= i < b.transactions.len() ==> tx_verifies(#[trigger] b.transactions[i])
}

/// A block: an ordered transaction batch at a position in the chain,
/// carrying the hash pointer to its predecessor and its own frozen digest.
pub struct Block {
    pub index: u64,
    pub transactions: Vec<Transaction>,
    pub previous_hash: Vec<u8>,
    pub timestamp: u128,
    pub nonce: u64,
    pub hash: Option<Vec<u8>>,
}

impl View for Block {
    type V = BlockView;

    open spec fn view(&self) -> BlockView {
        BlockView {
            index: self.index,
            transactions: self.transactions.deep_view(),
            previous_hash: self.previous_hash@,
            timestamp: self.timestamp,
            nonce: self.nonce,
            hash: match self.hash {
                Some(h) => Some(h@),
                None => None,
            },
        }
    }
}

impl DeepView for Block {
    type V = BlockView;

    open spec fn deep_view(&self) -> BlockView {
        self.view()
    }
}

impl Block {
    /// A new block stamped with the current wall-clock time, nonce 0, its
    /// hash computed over the supplied contents and frozen.
    pub fn new(index: u64, transactions: Vec<Transaction>, previous_hash: Vec<u8>) -> (r: Block)
        ensures
            r@.index == index,
            r@.transactions == transactions.deep_view(),
            r@.previous_hash == previous_hash@,
            r@.nonce == 0,
            block_hash_ok(r@),
    {
        let timestamp = now_millis();
        Block::from_parts(index, transactions, previous_hash, timestamp)
    }

    /// A new block with every field but the nonce and hash chosen by the
    /// caller: nonce 0, hash computed and frozen.
    pub fn from_parts(index: u64, transactions: Vec<Transaction>, previous_hash: Vec<u8>,
        timestamp: u128) -> (r: Block)
        ensures
            r@.index == index,
            r@.transactions == transactions.deep_view(),
            r@.previous_hash == previous_hash@,
            r@.timestamp == timestamp,
            r@.nonce == 0,
            block_hash_ok(r@),
    {
        let mut block = Block {
            index,
            transactions,
            previous_hash,
            timestamp,
            nonce: 0,
            hash: None,
        };
        let hash = block.compute_hash();
        block.hash = Some(hash);
        block
    }

    /// The byte string the block hash is computed over.
    pub fn content_bytes(&self) -> (r: Vec<u8>)
        ensures
            r@ == block_content_bytes(self@),
    {
        let ghost txs = self.transactions.deep_view();
        let mut bytes: Vec<u8> = Vec::new();
        push_u64_be(&mut bytes, self.index);
        let mut i: usize = 0;
        while i < self.transactions.len()
            invariant
                i <= txs.len(),
                txs == self.transactions.deep_view(),
                bytes@ == u64_be_bytes(self.index) + tx_hashes_bytes(txs.take(i as int)),
            decreases txs.len() - i,
        {
            let mut tx_hash = self.transactions[i].hash();
            bytes.append(&mut tx_hash);
            proof {
                assert(txs.take(i as int + 1).drop_last() =~= txs.take(i as int));
                assert(txs.take(i as int + 1).last() == txs[i as int]);
                assert(bytes@ =~= u64_be_bytes(self.index) + tx_hashes_bytes(
                    txs.take(i as int + 1)));
            }
            i += 1;
        }
        proof {
            assert(txs.take(txs.len() as int) =~= txs);
        }
        let mut prev = clone_bytes(&self.previous_hash);
        bytes.append(&mut prev);
        push_u128_be(&mut bytes, self.timestamp);
        push_u64_be(&mut bytes, self.nonce);
        proof {
            assert(bytes@ =~= block_content_bytes(self@));
        }
        bytes
    }

    /// The digest recomputed over the block's current contents.
    pub fn compute_hash(&self) -> (r: Vec<u8>)
        ensures
            r@ == sha256_of(block_content_bytes(self@)),
            r@.len() == 32,
    {
        sha256(&self.content_bytes())
    }

    /// Whether every transaction in the block verifies.
    pub fn verify_transactions(&self) -> (r: bool)
        ensures
            r == block_txs_verify(self@),
    {
        let ghost txs = self.transactions.deep_view();
        let mut i: usize = 0;
        while i < self.transactions.len()
            invariant
                i <= txs.len(),
                txs == self.transactions.deep_view(),
                forall|j: int| 0 <= j < i ==> tx_verifies(#[trigger] txs[j]),
            decreases txs.len() - i,
        {
            if !self.transactions[i].verify() {
                proof {
                    assert(txs[i as int] == self.transactions@[i as int].deep_view());
                    assert(!tx_verifies(self@.transactions[i as int]));
                    assert(!block_txs_verify(self@));
                }
                return false;
            }
            i += 1;
        }
        true
    }

    /// A fresh block equal to this one, field for field.
    pub fn duplicate(&self) -> (r: Block)
        ensures
            r@ == self@,
    {
        let ghost txs = self.transactions.deep_view();
        let mut transactions: Vec<Transaction> = Vec::new();
        let mut i: usize = 0;
        while i < self.transactions.len()
            invariant
                i <= txs.len(),
                txs == self.transactions.deep_view(),
                txs.len() == self.transactions@.len(),
                transactions@.len() == i,
                forall|j: int| 0 <= j < i ==> (#[trigger] transactions@[j])@ == txs[j],
            decreases txs.len() - i,
        {
            transactions.push(self.transactions[i].duplicate());
            i += 1;
        }
        proof {
            assert(transactions.deep_view() =~= txs);
        }
        let r = Block {
            index: self.index,
            transactions,
            previous_hash: clone_bytes(&self.previous_hash),
            timestamp: self.timestamp,
            nonce: self.nonce,
            hash: match &self.hash {
                Some(h) => Some(clone_bytes(h)),
                None => None,
            },
        };
        proof {
            assert(r@ == self@);
        }
        r
    }
}

} // verus!
