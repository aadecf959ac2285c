use cairn::chain::AppendError;
use cairn::crypto::PrivateKey;
use cairn::node::{Message, Node, Outcome};

fn node(name: &str, seed: u8) -> Node {
    let key = PrivateKey::from_bytes(vec![seed; 32]).expect("a valid secret scalar");
    Node::new(String::from(name), key)
}

#[test]
fn nodes_start_with_matching_genesis_and_empty_pool() {
    let alice = node("alice", 1);
    let bob = node("bob", 2);
    assert_eq!(alice.blockchain.chain.len(), 1);
    assert_eq!(bob.blockchain.chain.len(), 1);
    assert_eq!(alice.blockchain.chain[0].hash, bob.blockchain.chain[0].hash);
    assert!(alice.tx_pool.is_empty());
    assert!(bob.tx_pool.is_empty());
    assert_ne!(alice.verifying_key.bytes, bob.verifying_key.bytes);
}

#[test]
fn created_transactions_verify_and_pool_up() {
    let alice = node("alice", 1);
    let mut bob = node("bob", 2);
    let m = alice.create_and_broadcast_transaction(bob.verifying_key.duplicate(), 10);
    match &m {
        Message::NewTransaction(t) => {
            assert_eq!(t.sender.bytes, alice.verifying_key.bytes);
            assert_eq!(t.receiver.bytes, bob.verifying_key.bytes);
            assert_eq!(t.amount, 10);
            assert!(t.verify());
        }
        Message::NewBlock(_) => panic!("expected a transaction message"),
    }
    let outcomes = bob.process_messages(vec![m]);
    assert_eq!(outcomes, vec![Outcome::TransactionInserted]);
    assert_eq!(bob.tx_pool.len(), 1);
}

#[test]
fn unverifiable_transactions_are_discarded() {
    let alice = node("alice", 1);
    let mut bob = node("bob", 2);
    let m = alice.create_and_broadcast_transaction(bob.verifying_key.duplicate(), 10);
    let forged = match m {
        Message::NewTransaction(mut t) => {
            t.amount += 1;
            Message::NewTransaction(t)
        }
        Message::NewBlock(_) => panic!("expected a transaction message"),
    };
    let outcomes = bob.process_messages(vec![forged]);
    assert_eq!(outcomes, vec![Outcome::UnverifiedTransaction]);
    assert!(bob.tx_pool.is_empty());
}

#[test]
fn end_to_end_three_transactions_one_block() {
    let mut alice = node("alice", 1);
    let mut bob = node("bob", 2);

    let m1 = alice.create_and_broadcast_transaction(bob.verifying_key.duplicate(), 10);
    let m2 = alice.create_and_broadcast_transaction(bob.verifying_key.duplicate(), 21);
    let m3 = alice.create_and_broadcast_transaction(bob.verifying_key.duplicate(), 3);

    // Every node, the sender included, drains the same broadcast stream;
    // Bob also sees one transaction twice.
    let alice_outcomes =
        alice.process_messages(vec![m1.duplicate(), m2.duplicate(), m3.duplicate()]);
    let bob_outcomes =
        bob.process_messages(vec![m1.duplicate(), m1.duplicate(), m2.duplicate(), m3.duplicate()]);
    assert_eq!(
        alice_outcomes,
        vec![
            Outcome::TransactionInserted,
            Outcome::TransactionInserted,
            Outcome::TransactionInserted,
        ]
    );
    assert_eq!(
        bob_outcomes,
        vec![
            Outcome::TransactionInserted,
            Outcome::DuplicateTransaction,
            Outcome::TransactionInserted,
            Outcome::TransactionInserted,
        ]
    );
    assert_eq!(alice.tx_pool.len(), 3);
    assert_eq!(bob.tx_pool.len(), 3);
    // Pool entries are keyed by distinct hashes.
    for i in 0..bob.tx_pool.len() {
        for j in (i + 1)..bob.tx_pool.len() {
            assert_ne!(bob.tx_pool[i].hash(), bob.tx_pool[j].hash());
        }
    }

    // Alice mines her pool; both nodes accept the block.
    let block_msg = alice.mine_and_broadcast_block();
    match &block_msg {
        Message::NewBlock(b) => {
            assert_eq!(b.index, 1);
            assert_eq!(b.transactions.len(), 3);
        }
        Message::NewTransaction(_) => panic!("expected a block message"),
    }
    let alice_outcomes = alice.process_messages(vec![block_msg.duplicate()]);
    let bob_outcomes = bob.process_messages(vec![block_msg]);
    assert_eq!(alice_outcomes, vec![Outcome::BlockAccepted]);
    assert_eq!(bob_outcomes, vec![Outcome::BlockAccepted]);
    assert_eq!(alice.blockchain.chain.len(), 2);
    assert_eq!(bob.blockchain.chain.len(), 2);
    assert!(alice.tx_pool.is_empty());
    assert!(bob.tx_pool.is_empty());
}

#[test]
fn redelivery_after_acceptance_reenters_the_pool() {
    let mut alice = node("alice", 1);
    let mut bob = node("bob", 2);
    let m1 = alice.create_and_broadcast_transaction(bob.verifying_key.duplicate(), 10);
    alice.process_messages(vec![m1.duplicate()]);
    bob.process_messages(vec![m1.duplicate()]);
    let block_msg = alice.mine_and_broadcast_block();
    bob.process_messages(vec![block_msg]);
    assert!(bob.tx_pool.is_empty());
    // Pool reconciliation happens only on block acceptance, never
    // retroactively: the already-confirmed transaction pools up again.
    let outcomes = bob.process_messages(vec![m1.duplicate()]);
    assert_eq!(outcomes, vec![Outcome::TransactionInserted]);
    assert_eq!(bob.tx_pool.len(), 1);
}

#[test]
fn stale_block_is_rejected_and_pool_kept() {
    let mut alice = node("alice", 1);
    let mut bob = node("bob", 2);
    let m1 = alice.create_and_broadcast_transaction(bob.verifying_key.duplicate(), 10);
    alice.process_messages(vec![m1.duplicate()]);
    bob.process_messages(vec![m1.duplicate()]);
    let first = alice.mine_and_broadcast_block();
    // Bob accepts the first block; a second block built on the old tip
    // fails the index check at both nodes' replicas.
    bob.process_messages(vec![first.duplicate()]);
    let stale = match first {
        Message::NewBlock(b) => Message::NewBlock(b),
        Message::NewTransaction(_) => panic!("expected a block message"),
    };
    let outcomes = bob.process_messages(vec![stale]);
    assert_eq!(
        outcomes,
        vec![Outcome::BlockRejected(AppendError::IndexMismatch)]
    );
    assert_eq!(bob.blockchain.chain.len(), 2);
    assert!(bob.tx_pool.is_empty());
}

#[test]
fn mined_block_preserves_pool_order() {
    let mut alice = node("alice", 1);
    let bob = node("bob", 2);
    let m1 = alice.create_and_broadcast_transaction(bob.verifying_key.duplicate(), 10);
    let m2 = alice.create_and_broadcast_transaction(bob.verifying_key.duplicate(), 21);
    alice.process_messages(vec![m1, m2]);
    let block_msg = alice.mine_and_broadcast_block();
    match block_msg {
        Message::NewBlock(b) => {
            assert_eq!(b.transactions.len(), 2);
            assert_eq!(b.transactions[0].amount, 10);
            assert_eq!(b.transactions[1].amount, 21);
            assert_eq!(b.previous_hash, alice.blockchain.chain[0].hash.clone().unwrap());
        }
        Message::NewTransaction(_) => panic!("expected a block message"),
    }
}
