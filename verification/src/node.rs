//! A peer: one blockchain replica, one pending-transaction pool, one
//! signing identity.
//!
//! A node reacts to broadcast messages one at a time: a verified incoming
//! transaction enters the pool unless an entry with the same content hash
//! is already there (ingestion is idempotent); an incoming block is handed
//! to the chain, and on acceptance every transaction whose hash appears in
//! the block leaves the pool. Every outcome is reported and none aborts the
//! node. The pool is an insertion-ordered vector, so a block assembled
//! from it is reproducible.

use vstd::prelude::*;
use vstd::seq_lib::*;
use crate::block::{Block, BlockView, block_hash_ok};
use crate::chain::{AppendError, Blockchain, append_failure, is_genesis};
use crate::crypto::{PublicKey, PrivateKey, public_key_of, sign_ok};
use crate::encoding::clone_bytes;
use crate::transaction::{Transaction, TxView, tx_content_hash, tx_content_bytes, tx_verifies};

verus! {

/// The wire-level union of events a peer may broadcast.
pub enum Message {
    NewTransaction(Transaction),
    NewBlock(Block),
}

impl Message {
    /// A fresh message equal to this one, so one broadcast can be
    /// delivered to every peer.
    pub fn duplicate(&self) -> (r: Message)
        ensures
            self matches Message::NewTransaction(t) ==> (r matches Message::NewTransaction(u)
                && u@ == t@),
            self matches Message::NewBlock(b) ==> (r matches Message::NewBlock(u) && u@ == b@),
    {
        match self {
            Message::NewTransaction(t) => Message::NewTransaction(t.duplicate()),
            Message::NewBlock(b) => Message::NewBlock(b.duplicate()),
        }
    }
}

/// What handling one message did, reported per message and never fatal to
/// the node.
#[derive(Clone, Copy, Debug, PartialEq, Eq, Structural)]
pub enum Outcome {
    TransactionInserted,
    DuplicateTransaction,
    UnverifiedTransaction,
    BlockAccepted,
    BlockRejected(AppendError),
}

/// Whether some pool entry has the given content hash.
pub open spec fn pool_has_hash(pool: Seq<TxView>, h: Seq<u8>) -> bool {
    exists|i: int| 0 <= i < pool.len() && tx_content_hash(#[trigger] pool[i]) == h
}

/// Whether some transaction in the block has the given content hash.
pub open spec fn block_has_hash(b: BlockView, h: Seq<u8>) -> bool {
    exists|i: int| 0 <= i < b.transactions.len() && tx_content_hash(
        #[trigger] b.transactions[i]) == h
}

/// Keeps a pool entry only when its content hash is not confirmed by the
/// block.
pub open spec fn not_confirmed(b: BlockView) -> spec_fn(TxView) -> bool {
    |t: TxView| !block_has_hash(b, tx_content_hash(t))
}

/// The pool after a block is accepted: entries whose hash the block
/// confirms are removed, the rest stay in order.
pub open spec fn purge_pool(pool: Seq<TxView>, b: BlockView) -> Seq<TxView> {
    pool.filter(not_confirmed(b))
}

/// The chain after one message is handled.
pub open spec fn step_chain(chain: Seq<BlockView>, m: Message) -> Seq<BlockView> {
    match m {
        Message::NewTransaction(_) => chain,
        Message::NewBlock(b) => if append_failure(chain.last(), b@) is None {
            chain.push(b@)
        } else {
            chain
        },
    }
}

/// The pool after one message is handled.
pub open spec fn step_pool(chain: Seq<BlockView>, pool: Seq<TxView>, m: Message) -> Seq<TxView> {
    match m {
        Message::NewTransaction(t) => if !tx_verifies(t@) {
            pool
        } else if pool_has_hash(pool, tx_content_hash(t@)) {
            pool
        } else {
            pool.push(t@)
        },
        Message::NewBlock(b) => if append_failure(chain.last(), b@) is None {
            purge_pool(pool, b@)
        } else {
            pool
        },
    }
}

/// The reported outcome of handling one message.
pub open spec fn step_outcome(chain: Seq<BlockView>, pool: Seq<TxView>, m: Message) -> Outcome {
    match m {
        Message::NewTransaction(t) => if !tx_verifies(t@) {
            Outcome::UnverifiedTransaction
        } else if pool_has_hash(pool, tx_content_hash(t@)) {
            Outcome::DuplicateTransaction
        } else {
            Outcome::TransactionInserted
        },
        Message::NewBlock(b) => match append_failure(chain.last(), b@) {
            None => Outcome::BlockAccepted,
            Some(e) => Outcome::BlockRejected(e),
        },
    }
}

/// The chain after a whole batch of messages is handled in order.
pub open spec fn drain_chain(chain: Seq<BlockView>, pool: Seq<TxView>, msgs: Seq<Message>) -> Seq<
    BlockView>
    decreases msgs.len(),
{
    if msgs.len() == 0 {
        chain
    } else {
        drain_chain(step_chain(chain, msgs[0]), step_pool(chain, pool, msgs[0]),
            msgs.drop_first())
    }
}

/// The pool after a whole batch of messages is handled in order.
pub open spec fn drain_pool(chain: Seq<BlockView>, pool: Seq<TxView>, msgs: Seq<Message>) -> Seq<
    TxView>
    decreases msgs.len(),
{
    if msgs.len() == 0 {
        pool
    } else {
        drain_pool(step_chain(chain, msgs[0]), step_pool(chain, pool, msgs[0]), msgs.drop_first())
    }
}

/// The outcomes reported for a whole batch of messages, in order.
pub open spec fn drain_outcomes(chain: Seq<BlockView>, pool: Seq<TxView>, msgs: Seq<Message>) -> Seq<
    Outcome>
    decreases msgs.len(),
{
    if msgs.len() == 0 {
        Seq::empty()
    } else {
        seq![step_outcome(chain, pool, msgs[0])] + drain_outcomes(step_chain(chain, msgs[0]),
            step_pool(chain, pool, msgs[0]), msgs.drop_first())
    }
}

/// No two pool entries carry the same content fields.
pub open spec fn pool_distinct(pool: Seq<TxView>) -> bool {
    forall|i: int, j: int|
        0 <= i < j < pool.len() ==> tx_content_bytes(#[trigger] pool[i]) != tx_content_bytes(
            #[trigger] pool[j])
}

/// An actor owning one blockchain replica, one pending-transaction pool and
/// one signing identity.
pub struct Node {
    pub id: String,
    pub blockchain: Blockchain,
    pub tx_pool: Vec<Transaction>,
    pub signing_key: PrivateKey,
    pub verifying_key: PublicKey,
}

impl Node {
    /// The bytes of this node's secret scalar, for contracts only.
    pub open spec fn signer(&self) -> Seq<u8> {
        self.signing_key@
    }

    /// A new node with a fresh genesis-only chain, an empty pool, and the
    /// given signing identity; the stored verifying key is derived from it.
    pub fn new(id: String, signing_key: PrivateKey) -> (r: Node)
        ensures
            r.id@ == id@,
            r.blockchain.wf(),
            r.blockchain.chain.deep_view().len() == 1,
            is_genesis(r.blockchain.chain.deep_view()[0]),
            r.tx_pool.deep_view() == Seq::<TxView>::empty(),
            r.signer() == signing_key@,
            r.verifying_key@ == public_key_of(r.signer()),
    {
        let verifying_key = signing_key.public_key();
        let r = Node {
            id,
            blockchain: Blockchain::new(),
            tx_pool: Vec::new(),
            signing_key,
            verifying_key,
        };
        proof {
            assert(r.tx_pool.deep_view() =~= Seq::<TxView>::empty());
        }
        r
    }

    /// Builds a transaction from this node's identity to `receiver_key`,
    /// signs it, and wraps it for broadcast. Signing is deterministic: the
    /// transaction verifies exactly when `sign_ok` holds of this node's key
    /// and the content hash, and is left unsigned otherwise.
    pub fn create_and_broadcast_transaction(&self, receiver_key: PublicKey, amount: u64) -> (r:
        Message)
        ensures
            r is NewTransaction,
            r matches Message::NewTransaction(t) ==> {
                &&& t@.sender == public_key_of(self.signer())
                &&& t@.receiver == receiver_key@
                &&& t@.amount == amount
                &&& sign_ok(self.signer(), tx_content_hash(t@)) ==> tx_verifies(t@)
                &&& !sign_ok(self.signer(), tx_content_hash(t@)) ==> t@.signature is None
            },
    {
        let sender = self.signing_key.public_key();
        let mut transaction = Transaction::new(sender, receiver_key, amount);
        transaction.sign(&self.signing_key);
        Message::NewTransaction(transaction)
    }

    /// Assembles a block from the current pool snapshot, in pool order,
    /// linked to this node's chain tip, and wraps it for broadcast.
    pub fn mine_and_broadcast_block(&self) -> (r: Message)
        requires
            self.blockchain.wf(),
            self.blockchain.tip().index < u64::MAX,
        ensures
            r is NewBlock,
            r matches Message::NewBlock(b) ==> {
                &&& b@.index == self.blockchain.tip().index + 1
                &&& Some(b@.previous_hash) == self.blockchain.tip().hash
                &&& b@.transactions == self.tx_pool.deep_view()
                &&& b@.nonce == 0
                &&& block_hash_ok(b@)
            },
    {
        let last_i = self.blockchain.chain.len() - 1;
        proof {
            assert(self.blockchain.chain.deep_view()[last_i as int] == self.blockchain.chain@[
                last_i as int].deep_view());
        }
        let tip = &self.blockchain.chain[last_i];
        let previous_hash = match &tip.hash {
            Some(h) => clone_bytes(h),
            None => {
                proof {
                    assert(self.blockchain.chain.deep_view()[last_i as int].hash is Some);
                    assert(false);
                }
                Vec::new()
            },
        };
        let transactions = snapshot_pool(&self.tx_pool);
        let block = Block::new(tip.index + 1, transactions, previous_hash);
        Message::NewBlock(block)
    }

    /// Handles one inbound message: verifies and pools a transaction, or
    /// validates a block against the local chain and reconciles the pool on
    /// acceptance. The resulting state and outcome are exactly one step of
    /// the message-handling relation.
    pub fn handle_message(&mut self, message: Message) -> (r: Outcome)
        requires
            old(self).blockchain.wf(),
        ensures
            final(self).blockchain.wf(),
            final(self).blockchain.chain.deep_view() == step_chain(
                old(self).blockchain.chain.deep_view(), message),
            final(self).tx_pool.deep_view() == step_pool(old(self).blockchain.chain.deep_view(),
                old(self).tx_pool.deep_view(), message),
            r == step_outcome(old(self).blockchain.chain.deep_view(),
                old(self).tx_pool.deep_view(), message),
            final(self).id == old(self).id,
            final(self).verifying_key == old(self).verifying_key,
            final(self).signer() == old(self).signer(),
    {
        match message {
            Message::NewTransaction(transaction) => {
                if !transaction.verify() {
                    return Outcome::UnverifiedTransaction;
                }
                let hash = transaction.hash();
                if pool_contains_hash(&self.tx_pool, &hash) {
                    Outcome::DuplicateTransaction
                } else {
                    let ghost pre = self.tx_pool.deep_view();
                    let ghost tv = transaction@;
                    self.tx_pool.push(transaction);
                    proof {
                        assert forall|j: int|
                            0 <= j < self.tx_pool@.len() implies self.tx_pool.deep_view()[j]
                            == pre.push(tv)[j] by {
                            assert(self.tx_pool.deep_view()[j] == self.tx_pool@[j].deep_view());
                            if j < pre.len() {
                                assert(pre[j] == old(self).tx_pool@[j].deep_view());
                            }
                        }
                        assert(self.tx_pool.deep_view() =~= pre.push(tv));
                    }
                    Outcome::TransactionInserted
                }
            },
            Message::NewBlock(block) => {
                let confirmed = block.duplicate();
                match self.blockchain.add_block(block) {
                    Ok(_) => {
                        remove_confirmed(&mut self.tx_pool, &confirmed);
                        Outcome::BlockAccepted
                    },
                    Err(e) => Outcome::BlockRejected(e),
                }
            },
        }
    }

    /// One non-blocking drain cycle over a batch of already-received
    /// messages, observed in the order they were sent; the final state and
    /// the reported outcomes are exactly the fold of the one-message step.
    pub fn process_messages(&mut self, messages: Vec<Message>) -> (r: Vec<Outcome>)
        requires
            old(self).blockchain.wf(),
        ensures
            final(self).blockchain.wf(),
            final(self).blockchain.chain.deep_view() == drain_chain(
                old(self).blockchain.chain.deep_view(), old(self).tx_pool.deep_view(), messages@),
            final(self).tx_pool.deep_view() == drain_pool(old(self).blockchain.chain.deep_view(),
                old(self).tx_pool.deep_view(), messages@),
            r@ == drain_outcomes(old(self).blockchain.chain.deep_view(),
                old(self).tx_pool.deep_view(), messages@),
            final(self).id == old(self).id,
            final(self).verifying_key == old(self).verifying_key,
            final(self).signer() == old(self).signer(),
    {
        let ghost c0 = self.blockchain.chain.deep_view();
        let ghost p0 = self.tx_pool.deep_view();
        let ghost all = messages@;
        let mut messages = messages;
        let mut outcomes: Vec<Outcome> = Vec::new();
        while messages.len() > 0
            invariant
                self.blockchain.wf(),
                drain_chain(self.blockchain.chain.deep_view(), self.tx_pool.deep_view(),
                    messages@) == drain_chain(c0, p0, all),
                drain_pool(self.blockchain.chain.deep_view(), self.tx_pool.deep_view(), messages@)
                    == drain_pool(c0, p0, all),
                outcomes@ + drain_outcomes(self.blockchain.chain.deep_view(),
                    self.tx_pool.deep_view(), messages@) == drain_outcomes(c0, p0, all),
                self.id == old(self).id,
                self.verifying_key == old(self).verifying_key,
                self.signer() == old(self).signer(),
            decreases messages@.len(),
        {
            let ghost mc = self.blockchain.chain.deep_view();
            let ghost mp = self.tx_pool.deep_view();
            let ghost pending = messages@;
            let ghost done = outcomes@;
            let m = messages.remove(0);
            proof {
                assert(messages@ =~= pending.drop_first());
            }
            let o = self.handle_message(m);
            outcomes.push(o);
            proof {
                assert(done.push(o) =~= done + seq![o]);
                assert((done + seq![o]) + drain_outcomes(self.blockchain.chain.deep_view(),
                    self.tx_pool.deep_view(), messages@) =~= done + (seq![o] + drain_outcomes(
                    self.blockchain.chain.deep_view(), self.tx_pool.deep_view(), messages@)));
            }
        }
        proof {
            assert(outcomes@ + Seq::<Outcome>::empty() =~= outcomes@);
        }
        outcomes
    }
}

/// Whether some pool entry has the given content hash; reports it without
/// touching the pool.
fn pool_contains_hash(pool: &Vec<Transaction>, h: &Vec<u8>) -> (r: bool)
    ensures
        r == pool_has_hash(pool.deep_view(), h@),
{
    let ghost pv = pool.deep_view();
    let mut i: usize = 0;
    while i < pool.len()
        invariant
            i <= pv.len(),
            pv == pool.deep_view(),
            pv.len() == pool@.len(),
            forall|j: int| 0 <= j < i ==> tx_content_hash(#[trigger] pv[j]) != h@,
        decreases pv.len() - i,
    {
        let entry_hash = pool[i].hash();
        if crate::encoding::bytes_eq(&entry_hash, h) {
            proof {
                assert(pv[i as int] == pool@[i as int].deep_view());
                assert(tx_content_hash(pv[i as int]) == h@);
            }
            return true;
        }
        proof {
            assert(pv[i as int] == pool@[i as int].deep_view());
        }
        i += 1;
    }
    false
}

/// Whether some transaction in the block has the given content hash.
fn block_contains_hash(b: &Block, h: &Vec<u8>) -> (r: bool)
    ensures
        r == block_has_hash(b@, h@),
{
    let ghost txs = b@.transactions;
    let mut i: usize = 0;
    while i < b.transactions.len()
        invariant
            i <= txs.len(),
            txs == b@.transactions,
            txs.len() == b.transactions@.len(),
            forall|j: int| 0 <= j < i ==> tx_content_hash(#[trigger] txs[j]) != h@,
        decreases txs.len() - i,
    {
        let tx_hash = b.transactions[i].hash();
        if crate::encoding::bytes_eq(&tx_hash, h) {
            proof {
                assert(txs[i as int] == b.transactions@[i as int].deep_view());
                assert(tx_content_hash(txs[i as int]) == h@);
            }
            return true;
        }
        proof {
            assert(txs[i as int] == b.transactions@[i as int].deep_view());
        }
        i += 1;
    }
    false
}

/// How `Seq::filter` acts on a one-element sequence.
proof fn lemma_filter_singleton<A>(x: A, pred: spec_fn(A) -> bool)
    ensures
        seq![x].filter(pred) == if pred(x) {
            seq![x]
        } else {
            Seq::<A>::empty()
        },
{
    reveal_with_fuel(Seq::filter, 2);
    assert(seq![x].drop_last() =~= Seq::<A>::empty());
    assert(seq![x].last() == x);
    if pred(x) {
        assert(Seq::<A>::empty().push(x) =~= seq![x]);
    }
}

/// Removes from the pool every entry whose content hash appears in the
/// accepted block; entries the block does not confirm stay, in order.
fn remove_confirmed(pool: &mut Vec<Transaction>, b: &Block)
    ensures
        final(pool).deep_view() == purge_pool(old(pool).deep_view(), b@),
{
    let ghost pre = pool.deep_view();
    let mut kept: Vec<Transaction> = Vec::new();
    let mut i: usize = 0;
    while i < pool.len()
        invariant
            i <= pre.len(),
            pre == pool.deep_view(),
            pre.len() == pool@.len(),
            kept.deep_view() == pre.take(i as int).filter(not_confirmed(b@)),
        decreases pre.len() - i,
    {
        let ghost kv = kept.deep_view();
        let entry_hash = pool[i].hash();
        proof {
            assert(pre[i as int] == pool@[i as int].deep_view());
        }
        let confirmed = block_contains_hash(b, &entry_hash);
        if !confirmed {
            let ghost tv = pre[i as int];
            kept.push(pool[i].duplicate());
            proof {
                assert forall|j: int|
                    0 <= j < kept.deep_view().len() implies kept.deep_view()[j] == kv.push(tv)[j]
                    by {
                    assert(kept.deep_view()[j] == kept@[j].deep_view());
                }
                assert(kept.deep_view() =~= kv.push(tv));
            }
        }
        proof {
            assert(pre.take(i as int + 1) =~= pre.take(i as int) + seq![pre[i as int]]);
            Seq::<TxView>::filter_distributes_over_add(pre.take(i as int), seq![pre[i as int]],
                not_confirmed(b@));
            lemma_filter_singleton(pre[i as int], not_confirmed(b@));
            assert(kept.deep_view() =~= pre.take(i as int + 1).filter(not_confirmed(b@)));
        }
        i += 1;
    }
    proof {
        assert(pre.take(pre.len() as int) =~= pre);
    }
    *pool = kept;
}

/// After a block is accepted, every transaction it confirmed is out of the
/// pool; redelivering such a transaction therefore re-enters it into the
/// pool (reconciliation happens only when a block is accepted, never
/// retroactively).
pub proof fn lemma_redelivery_reenters_pool(chain: Seq<BlockView>, pool: Seq<TxView>, b: BlockView,
    t: Transaction)
    requires
        block_has_hash(b, tx_content_hash(t@)),
        tx_verifies(t@),
    ensures
        !pool_has_hash(purge_pool(pool, b), tx_content_hash(t@)),
        step_pool(chain, purge_pool(pool, b), Message::NewTransaction(t)) == purge_pool(pool,
            b).push(t@),
{
    let purged = purge_pool(pool, b);
    let h = tx_content_hash(t@);
    assert forall|i: int| 0 <= i < purged.len() implies tx_content_hash(#[trigger] purged[i]) != h
        by {
        pool.lemma_filter_pred(not_confirmed(b), i);
        assert(!block_has_hash(b, tx_content_hash(purged[i])));
    }
}

/// Handling any message keeps the pool free of duplicated content: if no
/// two pool entries share their content fields beforehand, none do
/// afterwards.
pub proof fn lemma_step_keeps_pool_distinct(chain: Seq<BlockView>, pool: Seq<TxView>, m: Message)
    requires
        pool_distinct(pool),
    ensures
        pool_distinct(step_pool(chain, pool, m)),
{
    match m {
        Message::NewTransaction(t) => {
            let stepped = step_pool(chain, pool, m);
            if tx_verifies(t@) && !pool_has_hash(pool, tx_content_hash(t@)) {
                assert forall|i: int, j: int|
                    0 <= i < j < stepped.len() implies tx_content_bytes(#[trigger] stepped[i])
                    != tx_content_bytes(#[trigger] stepped[j]) by {
                    if j == stepped.len() - 1 {
                        if tx_content_bytes(stepped[i]) == tx_content_bytes(t@) {
                            assert(tx_content_hash(pool[i]) == tx_content_hash(t@));
                        }
                    }
                }
            }
        },
        Message::NewBlock(b) => {
            if append_failure(chain.last(), b@) is None {
                lemma_filter_keeps_distinct(pool, not_confirmed(b@));
            }
        },
    }
}

/// Filtering a pool with pairwise distinct content fields leaves it
/// pairwise distinct.
proof fn lemma_filter_keeps_distinct(pool: Seq<TxView>, pred: spec_fn(TxView) -> bool)
    requires
        pool_distinct(pool),
    ensures
        pool_distinct(pool.filter(pred)),
    decreases pool.len(),
{
    reveal(Seq::filter);
    if pool.len() > 0 {
        let head = pool.drop_last();
        assert(pool_distinct(head)) by {
            assert forall|i: int, j: int|
                0 <= i < j < head.len() implies tx_content_bytes(#[trigger] head[i])
                != tx_content_bytes(#[trigger] head[j]) by {
                assert(head[i] == pool[i]);
                assert(head[j] == pool[j]);
            }
        }
        lemma_filter_keeps_distinct(head, pred);
        if pred(pool.last()) {
            let filtered = head.filter(pred).push(pool.last());
            assert forall|i: int, j: int|
                0 <= i < j < filtered.len() implies tx_content_bytes(#[trigger] filtered[i])
                != tx_content_bytes(#[trigger] filtered[j]) by {
                if j == filtered.len() - 1 {
                    assert(exists|k: int| 0 <= k < head.len() && head[k] == filtered[i]) by {
                        lemma_filter_elements_come_from(head, pred, i);
                    }
                    let k = choose|k: int| 0 <= k < head.len() && head[k] == filtered[i];
                    assert(tx_content_bytes(pool[k]) != tx_content_bytes(pool.last()));
                }
            }
        }
    }
}

/// Every element of a filtered sequence occurs in the original.
proof fn lemma_filter_elements_come_from(s: Seq<TxView>, pred: spec_fn(TxView) -> bool, i: int)
    requires
        0 <= i < s.filter(pred).len(),
    ensures
        exists|k: int| 0 <= k < s.len() && s[k] == s.filter(pred)[i],
    decreases s.len(),
{
    reveal(Seq::filter);
    if s.len() > 0 {
        let head = s.drop_last();
        if pred(s.last()) && i == s.filter(pred).len() - 1 {
            assert(s[s.len() - 1] == s.filter(pred)[i]);
        } else {
            lemma_filter_elements_come_from(head, pred, i);
            let k = choose|k: int| 0 <= k < head.len() && head[k] == head.filter(pred)[i];
            assert(s[k] == s.filter(pred)[i]);
        }
    }
}

/// Ingestion is idempotent: once a transaction is in the pool, handling
/// the same transaction message again leaves the pool as it is.
pub proof fn lemma_ingestion_idempotent(chain: Seq<BlockView>, pool: Seq<TxView>, t: Transaction)
    ensures
        step_pool(chain, step_pool(chain, pool, Message::NewTransaction(t)),
            Message::NewTransaction(t)) == step_pool(chain, pool, Message::NewTransaction(t)),
{
    let once = step_pool(chain, pool, Message::NewTransaction(t));
    if tx_verifies(t@) && !pool_has_hash(pool, tx_content_hash(t@)) {
        assert(once[once.len() - 1] == t@);
        assert(pool_has_hash(once, tx_content_hash(t@)));
    }
}

/// Every pool entry verifies: handling any message keeps the pool free of
/// unverified transactions, since only verified ones are ever inserted.
pub proof fn lemma_step_keeps_pool_verified(chain: Seq<BlockView>, pool: Seq<TxView>, m: Message)
    requires
        forall|i: int| 0 <= i < pool.len() ==> tx_verifies(#[trigger] pool[i]),
    ensures
        forall|i: int|
            0 <= i < step_pool(chain, pool, m).len() ==> tx_verifies(
                #[trigger] step_pool(chain, pool, m)[i]),
{
    let stepped = step_pool(chain, pool, m);
    match m {
        Message::NewTransaction(_) => {
        },
        Message::NewBlock(b) => {
            if append_failure(chain.last(), b@) is None {
                assert forall|i: int| 0 <= i < stepped.len() implies tx_verifies(
                    #[trigger] stepped[i]) by {
                    lemma_filter_elements_come_from(pool, not_confirmed(b@), i);
                    let k = choose|k: int| 0 <= k < pool.len() && pool[k] == stepped[i];
                    assert(tx_verifies(pool[k]));
                }
            }
        },
    }
}

/// The chain is append-only: however many messages are handled, the chain
/// before is a prefix of the chain after; no block is removed or reordered.
pub proof fn lemma_chain_append_only(chain: Seq<BlockView>, pool: Seq<TxView>, msgs: Seq<Message>)
    ensures
        chain.is_prefix_of(drain_chain(chain, pool, msgs)),
    decreases msgs.len(),
{
    let drained = drain_chain(chain, pool, msgs);
    if msgs.len() == 0 {
        assert(drained.take(chain.len() as int) =~= chain);
    } else {
        let c1 = step_chain(chain, msgs[0]);
        let p1 = step_pool(chain, pool, msgs[0]);
        lemma_chain_append_only(c1, p1, msgs.drop_first());
        assert(chain.len() <= c1.len());
        assert forall|j: int| 0 <= j < chain.len() implies drained[j] == chain[j] by {
            assert(drained.take(c1.len() as int)[j] == c1[j]);
            if chain.len() < c1.len() {
                assert(c1 == chain.push(msgs[0]->NewBlock_0@));
            }
        }
        assert(drained.take(chain.len() as int) =~= chain);
    }
}

/// A fresh vector of transactions equal, entry for entry, to the pool.
fn snapshot_pool(pool: &Vec<Transaction>) -> (r: Vec<Transaction>)
    ensures
        r.deep_view() == pool.deep_view(),
{
    let ghost pv = pool.deep_view();
    let mut out: Vec<Transaction> = Vec::new();
    let mut i: usize = 0;
    while i < pool.len()
        invariant
            i <= pv.len(),
            pv == pool.deep_view(),
            pv.len() == pool@.len(),
            out@.len() == i,
            forall|j: int| 0 <= j < i ==> (#[trigger] out@[j])@ == pv[j],
        decreases pv.len() - i,
    {
        proof {
            assert(pv[i as int] == pool@[i as int].deep_view());
        }
        out.push(pool[i].duplicate());
        i += 1;
    }
    proof {
        assert(out.deep_view() =~= pv);
    }
    out
}

} // verus!
