use cairn::crypto::{PrivateKey, PublicKey};
use cairn::transaction::Transaction;
use k256::ecdsa::signature::Verifier;
use sha2::Digest;

fn key_a() -> PrivateKey {
    PrivateKey::from_bytes(vec![0x01; 32]).expect("a valid secret scalar")
}

fn key_b() -> PrivateKey {
    PrivateKey::from_bytes(vec![0x02; 32]).expect("a valid secret scalar")
}

fn signed_transaction(amount: u64, timestamp: u128) -> Transaction {
    let key = key_a();
    let mut t = Transaction::from_parts(
        key.public_key(),
        key_b().public_key(),
        amount,
        timestamp,
    );
    t.sign(&key);
    t
}

#[test]
fn invalid_private_key_bytes_are_rejected() {
    assert!(PrivateKey::from_bytes(vec![0x00; 32]).is_none());
    assert!(PrivateKey::from_bytes(vec![0x01; 33]).is_none());
    assert!(PrivateKey::from_bytes(vec![0x01; 4]).is_none());
    assert!(PrivateKey::from_bytes(vec![0xff; 32]).is_none());
    assert!(PrivateKey::from_bytes(vec![0x01; 32]).is_some());
}

#[test]
fn content_hash_matches_layout() {
    let t = Transaction::from_parts(
        PublicKey::new(vec![0xaa; 33]),
        PublicKey::new(vec![0xbb; 33]),
        42u64,
        1234u128,
    );
    let mut expected_bytes: Vec<u8> = Vec::new();
    expected_bytes.extend_from_slice(&[0xaa; 33]);
    expected_bytes.extend_from_slice(&[0xbb; 33]);
    expected_bytes.extend_from_slice(&42u64.to_be_bytes());
    expected_bytes.extend_from_slice(&1234u128.to_be_bytes());
    assert_eq!(t.content_bytes(), expected_bytes);
    let expected_hash: Vec<u8> = sha2::Sha256::digest(&expected_bytes).to_vec();
    assert_eq!(t.hash(), expected_hash);
}

#[test]
fn equal_fields_hash_equally() {
    let t1 = signed_transaction(7, 1000);
    let mut t2 = Transaction::from_parts(
        key_a().public_key(),
        key_b().public_key(),
        7,
        1000,
    );
    // The signature is not part of the content hash: one signed, one not.
    assert_eq!(t1.hash(), t2.hash());
    t2.sign(&key_a());
    assert_eq!(t1.hash(), t2.hash());
}

#[test]
fn different_fields_hash_differently() {
    let t1 = signed_transaction(7, 1000);
    let t2 = signed_transaction(8, 1000);
    let t3 = signed_transaction(7, 1001);
    assert_ne!(t1.hash(), t2.hash());
    assert_ne!(t1.hash(), t3.hash());
}

#[test]
fn signed_transaction_verifies() {
    let t = signed_transaction(10, 500);
    assert!(t.signature.is_some());
    assert!(t.verify());
}

#[test]
fn unsigned_transaction_does_not_verify() {
    let t = Transaction::from_parts(key_a().public_key(), key_b().public_key(), 10, 500);
    assert!(t.signature.is_none());
    assert!(!t.verify());
}

#[test]
fn signing_with_wrong_key_is_a_silent_no_op() {
    let mut t = Transaction::from_parts(key_a().public_key(), key_b().public_key(), 10, 500);
    t.sign(&key_b());
    assert!(t.signature.is_none());
    assert!(!t.verify());
}

#[test]
fn forged_signature_does_not_verify() {
    let mut t = Transaction::from_parts(key_a().public_key(), key_b().public_key(), 10, 500);
    t.signature = Some(vec![0x11; 64]);
    assert!(!t.verify());
}

#[test]
fn stripped_signature_does_not_verify() {
    let mut t = signed_transaction(10, 500);
    t.signature = None;
    assert!(!t.verify());
}

#[test]
fn mutating_sender_after_signing_invalidates() {
    let mut t = signed_transaction(10, 500);
    t.sender = key_b().public_key();
    assert!(!t.verify());
}

#[test]
fn mutating_receiver_after_signing_invalidates() {
    let mut t = signed_transaction(10, 500);
    t.receiver = key_a().public_key();
    assert!(!t.verify());
}

#[test]
fn mutating_amount_after_signing_invalidates() {
    let mut t = signed_transaction(10, 500);
    t.amount = 11;
    assert!(!t.verify());
}

#[test]
fn mutating_timestamp_after_signing_invalidates() {
    let mut t = signed_transaction(10, 500);
    t.timestamp = 501;
    assert!(!t.verify());
}

#[test]
fn signature_checks_out_under_k256_directly() {
    let t = signed_transaction(10, 500);
    let vk = k256::ecdsa::VerifyingKey::from_sec1_bytes(&t.sender.bytes)
        .expect("a well-formed sender key");
    let sig = k256::ecdsa::Signature::from_slice(t.signature.as_ref().expect("signed"))
        .expect("a well-formed signature");
    assert!(vk.verify(&t.hash(), &sig).is_ok());
}

#[test]
fn new_transaction_is_timestamped_and_unsigned() {
    let t = Transaction::new(key_a().public_key(), key_b().public_key(), 3);
    assert!(t.signature.is_none());
    assert!(t.timestamp > 0);
    assert_eq!(t.amount, 3);
}

#[test]
fn zero_and_maximal_amounts_are_accepted() {
    let zero = signed_transaction(0, 500);
    assert!(zero.verify());
    let huge = signed_transaction(u64::MAX, 500);
    assert!(huge.verify());
    assert_ne!(zero.hash(), huge.hash());
}

#[test]
fn duplicate_is_field_for_field_equal() {
    let t = signed_transaction(10, 500);
    let d = t.duplicate();
    assert_eq!(d.sender.bytes, t.sender.bytes);
    assert_eq!(d.receiver.bytes, t.receiver.bytes);
    assert_eq!(d.amount, t.amount);
    assert_eq!(d.timestamp, t.timestamp);
    assert_eq!(d.signature, t.signature);
    assert!(d.verify());
}
