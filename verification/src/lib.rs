//! An in-memory, append-only, tamper-evident ledger.
//!
//! Records ("blocks") carry a content digest computed at construction; the
//! chain cross-links adjacent blocks through those digests, so that any
//! out-of-band change to a sealed block is detected before it can be linked.

pub mod block;
pub mod block_chain;
pub mod digest;
pub mod text;
