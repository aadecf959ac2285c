//! An atomic, independently verifiable value-transfer record with a
//! detachable signature.
//!
//! The content hash is computed over sender, receiver, amount and timestamp
//! only, in that fixed order, each integer big-endian; the signature is
//! never hashed into itself. The same digest serves as signing payload and
//! as the pool deduplication key.

use vstd::prelude::*;
use crate::crypto::{
    PublicKey, PrivateKey, sha256, sha256_of, signature_of, sign_ok, public_key_of, sig_valid,
    ecdsa_verify, now_millis,
};
use crate::encoding::{u64_be_bytes, u128_be_bytes, push_u64_be, push_u128_be, bytes_eq,
    clone_bytes};

verus! {

/// The mathematical value of a transaction: its fields as plain sequences
/// and integers.
pub ghost struct TxView {
    pub sender: Seq<u8>,
    pub receiver: Seq<u8>,
    pub amount: u64,
    pub timestamp: u128,
    pub signature: Option<Seq<u8>>,
}

/// The byte string the content hash is computed over: sender key, receiver
/// key, big-endian amount, big-endian timestamp, in that order.
pub open spec fn tx_content_bytes(t: TxView) -> Seq<u8> {
    t.sender + t.receiver + u64_be_bytes(t.amount) + u128_be_bytes(t.timestamp)
}

/// The content hash: the digest of the value fields, never of the signature.
pub open spec fn tx_content_hash(t: TxView) -> Seq<u8> {
    sha256_of(tx_content_bytes(t))
}

/// A transaction verifies when it carries a signature and that signature is
/// valid for the current content hash under the sender's key.
pub open spec fn tx_verifies(t: TxView) -> bool {
    &&& t.signature is Some
    &&& sig_valid(t.sender, tx_content_hash(t), t.signature->0)
}

/// A value transfer from `sender` to `receiver`, unsigned until its sender
/// attaches a signature over the content hash.
pub struct Transaction {
    pub sender: PublicKey,
    pub receiver: PublicKey,
    pub amount: u64,
    pub timestamp: u128,
    pub signature: Option<Vec<u8>>,
}

impl View for Transaction {
    type V = TxView;

    open spec fn view(&self) -> TxView {
        TxView {
            sender: self.sender@,
            receiver: self.receiver@,
            amount: self.amount,
            timestamp: self.timestamp,
            signature: match self.signature {
                Some(s) => Some(s@),
                None => None,
            },
        }
    }
}

impl DeepView for Transaction {
    type V = TxView;

    open spec fn deep_view(&self) -> TxView {
        self.view()
    }
}

/// Two transactions with the same value fields have the same content hash,
/// whatever their signatures; the hash is a function of those four fields.
pub proof fn lemma_content_hash_deterministic(t1: TxView, t2: TxView)
    requires
        t1.sender == t2.sender,
        t1.receiver == t2.receiver,
        t1.amount == t2.amount,
        t1.timestamp == t2.timestamp,
    ensures
        tx_content_hash(t1) == tx_content_hash(t2),
{
}

impl Transaction {
    /// A new unsigned transaction stamped with the current wall-clock time.
    pub fn new(sender: PublicKey, receiver: PublicKey, amount: u64) -> (r: Transaction)
        ensures
            r@.sender == sender@,
            r@.receiver == receiver@,
            r@.amount == amount,
            r@.signature is None,
    {
        Transaction::from_parts(sender, receiver, amount, now_millis())
    }

    /// A new unsigned transaction with every field chosen by the caller.
    pub fn from_parts(sender: PublicKey, receiver: PublicKey, amount: u64, timestamp: u128) -> (r:
        Transaction)
        ensures
            r@ == (TxView { sender: sender@, receiver: receiver@, amount, timestamp, signature: None }),
    {
        Transaction { sender, receiver, amount, timestamp, signature: None }
    }

    /// The byte string the content hash is computed over.
    pub fn content_bytes(&self) -> (r: Vec<u8>)
        ensures
            r@ == tx_content_bytes(self@),
    {
        let mut bytes: Vec<u8> = Vec::new();
        let mut sender_bytes = clone_bytes(&self.sender.bytes);
        let mut receiver_bytes = clone_bytes(&self.receiver.bytes);
        bytes.append(&mut sender_bytes);
        bytes.append(&mut receiver_bytes);
        push_u64_be(&mut bytes, self.amount);
        push_u128_be(&mut bytes, self.timestamp);
        proof {
            assert(bytes@ =~= tx_content_bytes(self@));
        }
        bytes
    }

    /// The content hash: digest of the value fields, also the pool key.
    pub fn hash(&self) -> (r: Vec<u8>)
        ensures
            r@ == tx_content_hash(self@),
            r@.len() == 32,
    {
        sha256(&self.content_bytes())
    }

    /// Signs the content hash and stores the signature, but only when the
    /// supplied private key belongs to the claimed sender; on a key mismatch
    /// the transaction is left untouched. Signing is deterministic, so when
    /// the key matches and `sign_ok` holds of it and the content hash, the
    /// signature is stored; the value fields are never changed, so the
    /// transaction then verifies.
    pub fn sign(&mut self, key: &PrivateKey)
        ensures
            final(self)@.sender == old(self)@.sender,
            final(self)@.receiver == old(self)@.receiver,
            final(self)@.amount == old(self)@.amount,
            final(self)@.timestamp == old(self)@.timestamp,
            public_key_of(key@) != old(self)@.sender ==> final(self)@ == old(self)@,
            (public_key_of(key@) == old(self)@.sender && sign_ok(key@, tx_content_hash(
                old(self)@))) ==> (final(self)@.signature == Some(signature_of(key@,
                tx_content_hash(old(self)@))) && tx_verifies(final(self)@)),
            (public_key_of(key@) == old(self)@.sender && !sign_ok(key@, tx_content_hash(
                old(self)@))) ==> final(self)@ == old(self)@,
    {
        let signer = key.public_key();
        if bytes_eq(&signer.bytes, &self.sender.bytes) {
            let hash = self.hash();
            match key.sign_message(&hash) {
                Some(sig) => {
                    self.signature = Some(sig);
                },
                None => {},
            }
        }
    }

    /// Whether the stored signature is valid for the current content hash
    /// under the sender's key; an unsigned transaction never verifies.
    pub fn verify(&self) -> (r: bool)
        ensures
            r == tx_verifies(self@),
    {
        match &self.signature {
            Some(sig) => {
                let hash = self.hash();
                ecdsa_verify(&self.sender.bytes, &hash, sig)
            },
            None => false,
        }
    }

    /// A fresh transaction equal to this one, field for field.
    pub fn duplicate(&self) -> (r: Transaction)
        ensures
            r@ == self@,
    {
        Transaction {
            sender: self.sender.duplicate(),
            receiver: self.receiver.duplicate(),
            amount: self.amount,
            timestamp: self.timestamp,
            signature: match &self.signature {
                Some(sig) => Some(clone_bytes(sig)),
                None => None,
            },
        }
    }
}

} // verus!
