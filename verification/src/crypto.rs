//! The cryptographic capabilities the ledger is built on: SHA-256 digests,
//! secp256k1 ECDSA key pairs, signing and signature verification, and the
//! wall clock used to timestamp records.
//!
//! Keys, digests and signatures are carried as plain byte vectors; what the
//! outside crates compute from them is named by uninterpreted spec functions,
//! and every call into them goes through a small trusted wrapper.

use vstd::prelude::*;
use k256::ecdsa::signature::{Signer, Verifier};
use sha2::Digest;

verus! {

/// The SHA-256 digest of a byte string.
pub uninterp spec fn sha256_of(bytes: Seq<u8>) -> Seq<u8>;

/// Whether a byte string is accepted as the encoding of a secp256k1 secret
/// scalar (non-zero and in range once decoded).
pub uninterp spec fn key_valid(key: Seq<u8>) -> bool;

/// The compressed SEC1 encoding of the public key that corresponds to the
/// given secret scalar.
pub uninterp spec fn public_key_of(key: Seq<u8>) -> Seq<u8>;

/// The RFC 6979 deterministic ECDSA signature produced from a secret scalar
/// and a message.
pub uninterp spec fn signature_of(key: Seq<u8>, msg: Seq<u8>) -> Seq<u8>;

/// Whether RFC 6979 deterministic ECDSA signing succeeds for a secret
/// scalar and a message. Signing draws no randomness, so success, like the
/// signature itself, is a function of the two arguments alone; it fails
/// only when the derived signature would have a zero component.
pub uninterp spec fn sign_ok(key: Seq<u8>, msg: Seq<u8>) -> bool;

/// Whether a signature verifies for a message under a SEC1-encoded public
/// key.
pub uninterp spec fn sig_valid(public_key: Seq<u8>, msg: Seq<u8>, sig: Seq<u8>) -> bool;

/// Relies on sha2::Sha256 through the `Digest` interface: a deterministic
/// 32-byte digest of the input, a function of the input bytes alone.
#[verifier::external_body]
pub(crate) fn sha256(bytes: &Vec<u8>) -> (r: Vec<u8>)
    ensures
        r@ == sha256_of(bytes@),
        r@.len() == 32,
{
    sha2::Sha256::digest(bytes.as_slice()).to_vec()
}

/// Relies on k256::ecdsa::SigningKey::from_slice: a deterministic
/// acceptance test for secret-scalar encodings (inputs of 24 to 31 bytes
/// are zero-padded to the scalar width before the range check).
#[verifier::external_body]
fn private_key_bytes_valid(key: &Vec<u8>) -> (r: bool)
    ensures
        r == key_valid(key@),
{
    k256::ecdsa::SigningKey::from_slice(key.as_slice()).is_ok()
}

/// Relies on k256::ecdsa::SigningKey::verifying_key and
/// VerifyingKey::to_sec1_bytes: the compressed (33-byte) SEC1 encoding of
/// the public key of the given secret scalar, a function of the scalar.
#[verifier::external_body]
fn derive_public_key_bytes(key: &Vec<u8>) -> (r: Vec<u8>)
    requires
        key_valid(key@),
    ensures
        r@ == public_key_of(key@),
        r@.len() == 33,
{
    match k256::ecdsa::SigningKey::from_slice(key.as_slice()) {
        Ok(sk) => sk.verifying_key().to_sec1_bytes().into_vec(),
        Err(_) => Vec::new(),
    }
}

/// Relies on k256::ecdsa's `Signer` implementation: RFC 6979 deterministic
/// ECDSA, so both the 64-byte signature and whether signing succeeds are
/// functions of the key and message alone, and on the signature crate's
/// `Signer`/`Verifier` contract: a signature it produces verifies under
/// the corresponding public key.
#[verifier::external_body]
fn ecdsa_sign(key: &Vec<u8>, msg: &Vec<u8>) -> (r: Option<Vec<u8>>)
    requires
        key_valid(key@),
    ensures
        r is Some <==> sign_ok(key@, msg@),
        r is Some ==> r->0@ == signature_of(key@, msg@),
        r is Some ==> r->0@.len() == 64,
        r is Some ==> sig_valid(public_key_of(key@), msg@, r->0@),
{
    let sk = match k256::ecdsa::SigningKey::from_slice(key.as_slice()) {
        Ok(sk) => sk,
        Err(_) => return None,
    };
    let sig: k256::ecdsa::Signature = match sk.try_sign(msg.as_slice()) {
        Ok(sig) => sig,
        Err(_) => return None,
    };
    Some(sig.to_vec())
}

/// Relies on k256::ecdsa's `Verifier` implementation: whether the signature
/// bytes parse and verify for the message under the SEC1-encoded public key,
/// a deterministic function of the three byte strings.
#[verifier::external_body]
pub(crate) fn ecdsa_verify(public_key: &Vec<u8>, msg: &Vec<u8>, sig: &Vec<u8>) -> (r: bool)
    ensures
        r == sig_valid(public_key@, msg@, sig@),
{
    let vk = match k256::ecdsa::VerifyingKey::from_sec1_bytes(public_key.as_slice()) {
        Ok(vk) => vk,
        Err(_) => return false,
    };
    let sig = match k256::ecdsa::Signature::from_slice(sig.as_slice()) {
        Ok(sig) => sig,
        Err(_) => return false,
    };
    vk.verify(msg.as_slice(), &sig).is_ok()
}

/// Relies on std::time::SystemTime::now for the wall clock. Returns the
/// milliseconds since the Unix epoch, or 0 if the clock reads earlier than
/// the epoch; nothing can be promised of the value.
#[verifier::external_body]
pub(crate) fn now_millis() -> (r: u128) {
    match std::time::SystemTime::now().duration_since(std::time::UNIX_EPOCH) {
        Ok(d) => d.as_millis(),
        Err(_) => 0,
    }
}

/// A SEC1-encoded secp256k1 public key, the identity a transaction names as
/// sender or receiver.
pub struct PublicKey {
    pub bytes: Vec<u8>,
}

impl View for PublicKey {
    type V = Seq<u8>;

    open spec fn view(&self) -> Seq<u8> {
        self.bytes@
    }
}

impl PublicKey {
    pub fn new(bytes: Vec<u8>) -> (r: PublicKey)
        ensures
            r@ == bytes@,
    {
        PublicKey { bytes }
    }

    /// A fresh key value equal to this one.
    pub fn duplicate(&self) -> (r: PublicKey)
        ensures
            r@ == self@,
    {
        PublicKey { bytes: crate::encoding::clone_bytes(&self.bytes) }
    }
}

/// A secp256k1 secret scalar: the signing half of a node's identity. Every
/// value of this type holds a valid scalar.
pub struct PrivateKey {
    bytes: Vec<u8>,
}

impl View for PrivateKey {
    type V = Seq<u8>;

    closed spec fn view(&self) -> Seq<u8> {
        self.bytes@
    }
}

impl PrivateKey {
    #[verifier::type_invariant]
    spec fn inv(self) -> bool {
        key_valid(self.bytes@)
    }

    /// Accepts exactly the byte strings the curve library takes as a
    /// secret-scalar encoding.
    pub fn from_bytes(bytes: Vec<u8>) -> (r: Option<PrivateKey>)
        ensures
            r is Some <==> key_valid(bytes@),
            r is Some ==> r->0@ == bytes@,
    {
        if private_key_bytes_valid(&bytes) {
            Some(PrivateKey { bytes })
        } else {
            None
        }
    }

    /// The public key that corresponds to this secret scalar.
    pub fn public_key(&self) -> (r: PublicKey)
        ensures
            r@ == public_key_of(self@),
            r@.len() == 33,
    {
        proof {
            use_type_invariant(&*self);
        }
        PublicKey { bytes: derive_public_key_bytes(&self.bytes) }
    }

    /// Signs a message; the signature verifies under this key's public key.
    /// Signing is deterministic, so it succeeds exactly when `sign_ok`
    /// holds of this key and the message.
    pub fn sign_message(&self, msg: &Vec<u8>) -> (r: Option<Vec<u8>>)
        ensures
            r is Some <==> sign_ok(self@, msg@),
            r is Some ==> r->0@ == signature_of(self@, msg@),
            r is Some ==> r->0@.len() == 64,
            r is Some ==> sig_valid(public_key_of(self@), msg@, r->0@),
    {
        proof {
            use_type_invariant(&*self);
        }
        ecdsa_sign(&self.bytes, msg)
    }
}

} // verus!
