//! A minimal educational ledger: signed value-transfer records batched into
//! hash-linked blocks, replicated by independent peers that exchange
//! broadcast messages and reconcile a pending-transaction pool.

pub mod encoding;
pub mod crypto;
pub mod transaction;
pub mod block;
pub mod chain;
pub mod node;
pub mod hex;
