//! A single ledger record: sealed content plus at-most-once link fields.

use vstd::prelude::*;
use crate::digest::{block_digest, compute_digest};
use crate::text::{dec_digits, opt_hash_text, opt_hash_to_string, u64_to_string};

verus! {

/// The text rendering of one block: its timestamp, its payload, and its
/// stored commitment.
pub open spec fn render_block_spec(b: BlockView) -> Seq<char> {
    "  Block: {\n    timestamp: "@ + dec_digits(b.timestamp as int) + ",\n    data: "@ + b.data
        + ",\n    hash: "@ + opt_hash_text(b.self_hash) + "\n  }"@
}

/// The two ways a link write is refused.
#[derive(Clone, Copy, Debug, PartialEq, Eq, Structural)]
pub enum ChainError {
    /// The link field was already populated; a second write is rejected.
    AlreadySet,
    /// The block's recomputed digest no longer matches its stored
    /// commitment: its content was mutated after sealing.
    Tampered,
}

/// The mathematical value of a [`Block`].
pub ghost struct BlockView {
    pub index: u64,
    pub timestamp: u64,
    pub data: Seq<char>,
    pub previous_hash: Option<u64>,
    pub next_hash: Option<u64>,
    pub self_hash: Option<u64>,
}

impl BlockView {
    /// The digest the block's live content hashes to right now.
    pub open spec fn current_digest(self) -> u64 {
        block_digest(self.index, self.timestamp, self.data)
    }

    /// The stored commitment still matches the recomputation over the live
    /// fields: the block has not been corrupted since construction.
    pub open spec fn untampered(self) -> bool {
        self.self_hash == Some(self.current_digest())
    }
}

/// A record of the ledger: an index, a creation timestamp (milliseconds
/// since the Unix epoch), an opaque text payload, a content commitment
/// computed at construction, and two link fields each settable at most once.
pub struct Block {
    index: u64,
    timestamp: u64,
    data: String,
    previous_hash: Option<u64>,
    next_hash: Option<u64>,
    self_hash: Option<u64>,
}

impl View for Block {
    type V = BlockView;

    closed spec fn view(&self) -> BlockView {
        BlockView {
            index: self.index,
            timestamp: self.timestamp,
            data: self.data@,
            previous_hash: self.previous_hash,
            next_hash: self.next_hash,
            self_hash: self.self_hash,
        }
    }
}

/// Relies on chrono's `Utc::now` and `DateTime::timestamp_millis`: the
/// current time as whole milliseconds since the Unix epoch. `Utc::now`
/// aborts when the system clock is before the epoch, so the value cast
/// here is never negative. Nothing is promised of the value: it depends
/// on the clock.
#[verifier::external_body]
fn now_millis() -> u64 {
    chrono::Utc::now().timestamp_millis() as u64
}

impl Block {
    /// Constructs a sealed block stamped with the current time. Only the
    /// two link fields remain writable, each at most once.
    pub fn new(index: u64, data: String) -> (b: Block)
        ensures
            b@.index == index,
            b@.data == data@,
            b@.previous_hash is None,
            b@.next_hash is None,
            b@.untampered(),
    {
        let timestamp = now_millis();
        Block::with_timestamp(index, timestamp, data)
    }

    /// Constructs a sealed block with an explicitly chosen timestamp; the
    /// commitment is the digest of `(index, timestamp, data)` and nothing
    /// else of the result is left open.
    pub fn with_timestamp(index: u64, timestamp: u64, data: String) -> (b: Block)
        ensures
            b@ == (BlockView {
                index,
                timestamp,
                data: data@,
                previous_hash: None,
                next_hash: None,
                self_hash: Some(block_digest(index, timestamp, data@)),
            }),
    {
        let self_hash = compute_digest(index, timestamp, data.as_str());
        Block {
            index,
            timestamp,
            data,
            previous_hash: None,
            next_hash: None,
            self_hash: Some(self_hash),
        }
    }

    /// Recomputes the digest over the block's live fields. The result is a
    /// pure function of `(index, timestamp, data)`: it ignores the stored
    /// commitment and the link fields.
    pub fn calculate_hash(block: &Block) -> (h: u64)
        ensures
            h == block@.current_digest(),
    {
        compute_digest(block.index, block.timestamp, block.data.as_str())
    }

    fn check_hash(&self) -> (r: bool)
        ensures
            r == self@.untampered(),
    {
        match self.self_hash {
            Some(h) => h == Block::calculate_hash(self),
            None => false,
        }
    }

    /// Sets the forward link, at most once and only while the block is
    /// untampered; on failure nothing is written.
    pub fn set_next_hash(&mut self, hash: Option<u64>) -> (r: Result<(), ChainError>)
        ensures
            old(self)@.next_hash is Some ==> r == Err::<(), ChainError>(ChainError::AlreadySet)
                && final(self)@ == old(self)@,
            old(self)@.next_hash is None && !old(self)@.untampered() ==> r == Err::<(), ChainError>(
                ChainError::Tampered,
            ) && final(self)@ == old(self)@,
            old(self)@.next_hash is None && old(self)@.untampered() ==> r == Ok::<(), ChainError>(
                (),
            ) && final(self)@ == (BlockView { next_hash: hash, ..old(self)@ }),
    {
        if self.next_hash.is_none() {
            if self.check_hash() {
                self.next_hash = hash;
                Ok(())
            } else {
                Err(ChainError::Tampered)
            }
        } else {
            Err(ChainError::AlreadySet)
        }
    }

    /// Sets the backward link, at most once and only while the block is
    /// untampered; on failure nothing is written.
    pub fn set_previous_hash(&mut self, hash: Option<u64>) -> (r: Result<(), ChainError>)
        ensures
            old(self)@.previous_hash is Some ==> r == Err::<(), ChainError>(
                ChainError::AlreadySet,
            ) && final(self)@ == old(self)@,
            old(self)@.previous_hash is None && !old(self)@.untampered() ==> r == Err::<(), ChainError>(
                ChainError::Tampered,
            ) && final(self)@ == old(self)@,
            old(self)@.previous_hash is None && old(self)@.untampered() ==> r == Ok::<(), ChainError>(
                (),
            ) && final(self)@ == (BlockView { previous_hash: hash, ..old(self)@ }),
    {
        if self.previous_hash.is_none() {
            if self.check_hash() {
                self.previous_hash = hash;
                Ok(())
            } else {
                Err(ChainError::Tampered)
            }
        } else {
            Err(ChainError::AlreadySet)
        }
    }

    pub fn get_next_hash(&self) -> (r: Option<u64>)
        ensures
            r == self@.next_hash,
    {
        self.next_hash
    }

    pub fn get_previous_hash(&self) -> (r: Option<u64>)
        ensures
            r == self@.previous_hash,
    {
        self.previous_hash
    }

    pub fn get_index(&self) -> (r: u64)
        ensures
            r == self@.index,
    {
        self.index
    }

    pub fn get_timestamp(&self) -> (r: u64)
        ensures
            r == self@.timestamp,
    {
        self.timestamp
    }

    pub fn get_data(&self) -> (r: &String)
        ensures
            r@ == self@.data,
    {
        &self.data
    }

    pub fn get_self_hash(&self) -> (r: Option<u64>)
        ensures
            r == self@.self_hash,
    {
        self.self_hash
    }

    /// A placeholder block: index 0, empty payload, and no hashes at all.
    /// It carries no commitment, so no link can ever be set on it; it is
    /// never a valid ledger entry.
    pub fn empty() -> (b: Block)
        ensures
            b@ == (BlockView {
                index: 0,
                timestamp: 0,
                data: Seq::<char>::empty(),
                previous_hash: None,
                next_hash: None,
                self_hash: None,
            }),
    {
        Block {
            index: 0,
            timestamp: 0,
            data: String::new(),
            previous_hash: None,
            next_hash: None,
            self_hash: None,
        }
    }

    /// Renders the block's fields as text. Read-only.
    pub fn render(&self) -> (s: String)
        ensures
            s@ == render_block_spec(self@),
    {
        let mut s = "  Block: {\n    timestamp: ".to_owned();
        s.append(u64_to_string(self.timestamp).as_str());
        s.append(",\n    data: ");
        s.append(self.data.as_str());
        s.append(",\n    hash: ");
        s.append(opt_hash_to_string(self.self_hash).as_str());
        s.append("\n  }");
        proof {
            assert(s@ =~= render_block_spec(self@));
        }
        s
    }

    /// Overwrites the payload without resealing: the stored commitment is
    /// left as it was, so the block afterwards fails the integrity check
    /// unless the new payload hashes to the old digest. This models an
    /// out-of-band mutation of a sealed block.
    pub fn overwrite_data(&mut self, data: String)
        ensures
            final(self)@ == (BlockView { data: data@, ..old(self)@ }),
    {
        self.data = data;
    }
}

/// Hash determinism: two blocks whose index, timestamp and payload agree,
/// each still carrying its original commitment, commit to the same digest.
pub proof fn lemma_digest_deterministic(a: BlockView, b: BlockView)
    requires
        a.index == b.index,
        a.timestamp == b.timestamp,
        a.data == b.data,
        a.untampered(),
        b.untampered(),
    ensures
        a.self_hash == b.self_hash,
{
}

} // verus!
