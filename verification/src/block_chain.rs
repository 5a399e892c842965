//! The ledger: an append-only chain of blocks, newest block at the head,
//! every adjacent pair cross-linked through its content commitments.

use vstd::prelude::*;
use crate::block::{render_block_spec, Block, BlockView, ChainError};
use crate::text::{dec_digits, opt_hash_text, opt_hash_to_string, u64_to_string};

verus! {

/// The mathematical value of one chain node: a block together with the
/// cached commitment of the block directly below it.
pub ghost struct NodeView {
    pub block: BlockView,
    pub hash_pointer: Option<u64>,
}

struct ChainNode {
    elem_block: Block,
    hash_pointer: Option<u64>,
}

impl View for ChainNode {
    type V = NodeView;

    closed spec fn view(&self) -> NodeView {
        NodeView { block: self.elem_block@, hash_pointer: self.hash_pointer }
    }
}

/// Well-formedness of a chain value, oldest block first, head last:
/// indices count up from the genesis block, every demoted block still
/// matches its commitment, adjacent blocks are doubly linked through
/// their commitments, and each node caches the commitment of the block
/// directly below it. The head itself may have been tampered with out of
/// band; that is exactly what the next append detects.
pub open spec fn chain_wf(s: Seq<NodeView>) -> bool {
    &&& s.len() >= 1
    &&& forall|i: int| 0 <= i < s.len() ==> (#[trigger] s[i]).block.index == i
    &&& forall|i: int| 0 <= i < s.len() ==> (#[trigger] s[i]).block.self_hash is Some
    &&& forall|i: int| 0 <= i < s.len() - 1 ==> (#[trigger] s[i]).block.untampered()
    &&& s[0].block.previous_hash is None
    &&& s.last().block.next_hash is None
    &&& forall|i: int|
        1 <= i < s.len() ==> (#[trigger] s[i]).block.previous_hash == s[i - 1].block.self_hash
    &&& forall|i: int|
        0 <= i < s.len() - 1 ==> (#[trigger] s[i]).block.next_hash == s[i + 1].block.self_hash
    &&& s[0].hash_pointer is None
    &&& forall|i: int|
        1 <= i < s.len() ==> (#[trigger] s[i]).hash_pointer == s[i - 1].block.self_hash
}

/// The ledger. It owns its newest block directly; older blocks sit in the
/// tail, oldest first, each beside the cached commitment it carried when
/// it was the head.
pub struct BlockChain {
    elem_block: Block,
    hash_pointer: Option<u64>,
    rest: Vec<ChainNode>,
}

impl View for BlockChain {
    type V = Seq<NodeView>;

    closed spec fn view(&self) -> Seq<NodeView> {
        self.rest@.map_values(|n: ChainNode| n@).push(
            NodeView { block: self.elem_block@, hash_pointer: self.hash_pointer },
        )
    }
}

/// The text rendering of one chain node: the block, then the node's index
/// and its cached back-pointer.
pub open spec fn render_node_spec(n: NodeView) -> Seq<char> {
    "{\n"@ + render_block_spec(n.block) + ",\n  index: "@ + dec_digits(n.block.index as int)
        + ",\n  hash_pointer: "@ + opt_hash_text(n.hash_pointer) + "\n}\n\n"@
}

/// The rendering of a whole chain, newest block first, closed by the
/// sentinel line that marks the genesis end and matches no block entry.
pub open spec fn render_chain_spec(s: Seq<NodeView>) -> Seq<char>
    decreases s.len(),
{
    if s.len() == 0 {
        "Beginning is the most important part of the work.\n                                           -Plato"@
    } else {
        render_node_spec(s.last()) + render_chain_spec(s.drop_last())
    }
}

fn render_node(b: &Block, hash_pointer: Option<u64>) -> (s: String)
    ensures
        s@ == render_node_spec(NodeView { block: b@, hash_pointer }),
{
    let mut s = "{\n".to_owned();
    s.append(b.render().as_str());
    s.append(",\n  index: ");
    s.append(u64_to_string(b.get_index()).as_str());
    s.append(",\n  hash_pointer: ");
    s.append(opt_hash_to_string(hash_pointer).as_str());
    s.append("\n}\n\n");
    proof {
        assert(s@ =~= render_node_spec(NodeView { block: b@, hash_pointer }));
    }
    s
}

impl BlockChain {
    /// The chain value is well formed.
    pub open spec fn wf(&self) -> bool {
        chain_wf(self@)
    }

    /// Constructs a ledger holding exactly the genesis block: index 0,
    /// payload "Genesis Block", no links, no cached pointer.
    pub fn new() -> (c: BlockChain)
        ensures
            c.wf(),
            c@.len() == 1,
            c@[0].block.index == 0,
            c@[0].block.data == "Genesis Block"@,
            c@[0].block.untampered(),
            c@[0].block.previous_hash is None,
            c@[0].block.next_hash is None,
            c@[0].hash_pointer is None,
    {
        let elem_block = Block::new(0, "Genesis Block".to_owned());
        let c = BlockChain { elem_block, hash_pointer: None, rest: Vec::new() };
        proof {
            assert(c@ =~= seq![
                NodeView { block: c.elem_block@, hash_pointer: None::<u64> },
            ]);
        }
        c
    }

    /// Appends a record. A fresh block at the next index is back-linked to
    /// the current head, the head is forward-linked to it, and only then
    /// is the head demoted into the tail and the fresh block installed.
    /// If the head no longer matches its commitment the append returns
    /// `Tampered` and the ledger is exactly as it was.
    pub fn append(&mut self, data: String) -> (r: Result<(), ChainError>)
        requires
            old(self).wf(),
            old(self)@.len() <= u64::MAX,
        ensures
            final(self).wf(),
            old(self)@.last().block.untampered() ==> {
                &&& r == Ok::<(), ChainError>(())
                &&& final(self)@.len() == old(self)@.len() + 1
                &&& forall|i: int|
                    0 <= i < old(self)@.len() - 1 ==> final(self)@[i] == old(self)@[i]
                &&& final(self)@[old(self)@.len() - 1].block == (BlockView {
                    next_hash: final(self)@.last().block.self_hash,
                    ..old(self)@.last().block
                })
                &&& final(self)@[old(self)@.len() - 1].hash_pointer == old(
                    self,
                )@.last().hash_pointer
                &&& final(self)@.last().block.index == old(self)@.last().block.index + 1
                &&& final(self)@.last().block.data == data@
                &&& final(self)@.last().block.untampered()
                &&& final(self)@.last().block.previous_hash == old(self)@.last().block.self_hash
                &&& final(self)@.last().block.next_hash is None
                &&& final(self)@.last().hash_pointer == old(self)@.last().block.self_hash
            },
            !old(self)@.last().block.untampered() ==> r == Err::<(), ChainError>(
                ChainError::Tampered,
            ) && final(self)@ == old(self)@,
    {
        proof {
            assert(old(self)@[old(self)@.len() - 1].block.index == old(self)@.len() - 1);
        }
        let new_index = self.elem_block.get_index() + 1;
        let mut block = Block::new(new_index, data);
        let prev_self = self.elem_block.get_self_hash();
        match block.set_previous_hash(prev_self) {
            Ok(_) => {}
            Err(e) => {
                return Err(e);
            }
        }
        match self.elem_block.set_next_hash(block.get_self_hash()) {
            Ok(_) => {}
            Err(e) => {
                proof {
                    assert(self@ =~= old(self)@);
                }
                return Err(e);
            }
        }
        let demoted_pointer = self.hash_pointer;
        let new_pointer = self.elem_block.get_self_hash();
        let mut demoted = block;
        core::mem::swap(&mut self.elem_block, &mut demoted);
        self.hash_pointer = new_pointer;
        self.rest.push(ChainNode { elem_block: demoted, hash_pointer: demoted_pointer });
        proof {
            let s0 = old(self)@;
            let dn = NodeView {
                block: (BlockView {
                    next_hash: self.elem_block@.self_hash,
                    ..s0.last().block
                }),
                hash_pointer: s0.last().hash_pointer,
            };
            let hn = NodeView { block: self.elem_block@, hash_pointer: self.hash_pointer };
            assert(self@ =~= s0.drop_last().push(dn).push(hn));
            lemma_wf_append(s0, dn, hn);
            assert forall|i: int| 0 <= i < s0.len() - 1 implies self@[i] == s0[i] by {
                assert(self@[i] == s0.drop_last()[i]);
            }
            assert(self@[s0.len() - 1] == dn);
            assert(self@.last() == hn);
        }
        Ok(())
    }

    /// Overwrites the head block's payload without resealing it: models an
    /// out-of-band mutation of the newest record. The chain structure is
    /// untouched; the head merely stops matching its commitment, which the
    /// next link attempt reports as `Tampered`.
    pub fn overwrite_head_data(&mut self, data: String)
        requires
            old(self).wf(),
        ensures
            final(self).wf(),
            final(self)@ == old(self)@.update(
                old(self)@.len() - 1,
                (NodeView {
                    block: (BlockView { data: data@, ..old(self)@.last().block }),
                    hash_pointer: old(self)@.last().hash_pointer,
                }),
            ),
    {
        self.elem_block.overwrite_data(data);
        proof {
            assert(self@ =~= old(self)@.update(
                old(self)@.len() - 1,
                NodeView {
                    block: (BlockView { data: data@, ..old(self)@.last().block }),
                    hash_pointer: old(self)@.last().hash_pointer,
                },
            ));
        }
    }

    /// The number of blocks in the chain, genesis included.
    pub fn len(&self) -> (n: usize)
        requires
            self@.len() <= usize::MAX,
        ensures
            n == self@.len(),
    {
        self.rest.len() + 1
    }

    /// The block at position `i`, oldest first: position 0 is the genesis
    /// block, the last position is the head.
    pub fn block_at(&self, i: usize) -> (b: &Block)
        requires
            i < self@.len(),
        ensures
            b@ == self@[i as int].block,
    {
        if i < self.rest.len() {
            &self.rest[i].elem_block
        } else {
            &self.elem_block
        }
    }

    /// Renders the chain newest block first, one entry per block, ending
    /// with the sentinel line at the genesis end. Read-only.
    pub fn render(&self) -> (s: String)
        ensures
            s@ == render_chain_spec(self@),
    {
        let mut out = render_node(&self.elem_block, self.hash_pointer);
        let mut i: usize = self.rest.len();
        proof {
            assert(self@.take(self.rest@.len() as int) =~= self@.drop_last());
        }
        while i > 0
            invariant
                i <= self.rest@.len(),
                self@.len() == self.rest@.len() + 1,
                render_chain_spec(self@) == out@ + render_chain_spec(self@.take(i as int)),
            decreases i,
        {
            let idx = i - 1;
            let node_s = render_node(&self.rest[idx].elem_block, self.rest[idx].hash_pointer);
            proof {
                assert(self@[idx as int] == self.rest@.map_values(|n: ChainNode| n@)[idx as int]);
                assert(self@.take(i as int).last() == self@[idx as int]);
                assert(self@.take(i as int).drop_last() =~= self@.take(idx as int));
            }
            let ghost prev_out = out@;
            out.append(node_s.as_str());
            proof {
                assert((prev_out + node_s@) + render_chain_spec(self@.take(idx as int)) =~= prev_out
                    + (node_s@ + render_chain_spec(self@.take(idx as int))));
            }
            i = idx;
        }
        out.append(
            "Beginning is the most important part of the work.\n                                           -Plato",
        );
        proof {
            assert(self@.take(0) =~= Seq::<NodeView>::empty());
            assert(out@ =~= render_chain_spec(self@));
        }
        out
    }

    /// The cached back-pointer of the node at position `i`, oldest first.
    pub fn hash_pointer_at(&self, i: usize) -> (h: Option<u64>)
        requires
            i < self@.len(),
        ensures
            h == self@[i as int].hash_pointer,
    {
        if i < self.rest.len() {
            self.rest[i].hash_pointer
        } else {
            self.hash_pointer
        }
    }
}

/// Appending preserves well-formedness: demoting the head with its
/// forward link set to the new head's commitment, then installing a fresh
/// head linked back to it, yields a well-formed chain again.
proof fn lemma_wf_append(s: Seq<NodeView>, dn: NodeView, hn: NodeView)
    requires
        chain_wf(s),
        dn.block == (BlockView { next_hash: hn.block.self_hash, ..s.last().block }),
        dn.hash_pointer == s.last().hash_pointer,
        s.last().block.untampered(),
        hn.block.index == s.len(),
        hn.block.untampered(),
        hn.block.previous_hash == s.last().block.self_hash,
        hn.block.next_hash is None,
        hn.hash_pointer == s.last().block.self_hash,
    ensures
        chain_wf(s.drop_last().push(dn).push(hn)),
{
    let t = s.drop_last().push(dn).push(hn);
    let n = s.len() as int;
    assert(t.len() == n + 1);
    assert(s.last() == s[n - 1]);
    assert(t[n - 1] == dn);
    assert(t[n] == hn);
    assert forall|i: int| 0 <= i < n - 1 implies t[i] == s[i] by {
        assert(t[i] == s.drop_last()[i]);
    }
    assert(dn.block.current_digest() == s[n - 1].block.current_digest());
    assert(dn.block.untampered());
    assert forall|i: int| 0 <= i < t.len() implies (#[trigger] t[i]).block.index == i by {
        if i < n - 1 {
            assert(t[i] == s[i]);
            assert(s[i].block.index == i);
        } else if i == n - 1 {
            assert(s[n - 1].block.index == n - 1);
        }
    }
    assert forall|i: int| 0 <= i < t.len() implies (#[trigger] t[i]).block.self_hash is Some by {
        if i < n - 1 {
            assert(t[i] == s[i]);
            assert(s[i].block.self_hash is Some);
        } else if i == n - 1 {
            assert(s[n - 1].block.self_hash is Some);
        }
    }
    assert forall|i: int| 0 <= i < t.len() - 1 implies (#[trigger] t[i]).block.untampered() by {
        if i < n - 1 {
            assert(t[i] == s[i]);
            assert(s[i].block.untampered());
        }
    }
    assert(t[0].block.previous_hash is None) by {
        if n == 1 {
            assert(t[0] == dn);
        } else {
            assert(t[0] == s[0]);
        }
    }
    assert(t.last() == hn);
    assert forall|i: int|
        1 <= i < t.len() implies (#[trigger] t[i]).block.previous_hash
        == t[i - 1].block.self_hash by {
        if i < n - 1 {
            assert(t[i] == s[i]);
            assert(t[i - 1] == s[i - 1]);
            assert(s[i].block.previous_hash == s[i - 1].block.self_hash);
        } else if i == n - 1 {
            assert(t[i - 1] == s[i - 1]);
            assert(s[n - 1].block.previous_hash == s[n - 2].block.self_hash);
        } else {
            assert(t[i - 1] == dn);
        }
    }
    assert forall|i: int|
        0 <= i < t.len() - 1 implies (#[trigger] t[i]).block.next_hash
        == t[i + 1].block.self_hash by {
        if i < n - 2 {
            assert(t[i] == s[i]);
            assert(t[i + 1] == s[i + 1]);
            assert(s[i].block.next_hash == s[i + 1].block.self_hash);
        } else if i == n - 2 {
            assert(t[i] == s[i]);
            assert(s[n - 2].block.next_hash == s[n - 1].block.self_hash);
            assert(t[i + 1] == dn);
        } else {
            assert(t[i] == dn);
            assert(t[i + 1] == hn);
        }
    }
    assert(t[0].hash_pointer is None) by {
        if n == 1 {
            assert(t[0] == dn);
        } else {
            assert(t[0] == s[0]);
        }
    }
    assert forall|i: int|
        1 <= i < t.len() implies (#[trigger] t[i]).hash_pointer == t[i - 1].block.self_hash by {
        if i < n - 1 {
            assert(t[i] == s[i]);
            assert(t[i - 1] == s[i - 1]);
            assert(s[i].hash_pointer == s[i - 1].block.self_hash);
        } else if i == n - 1 {
            assert(t[i - 1] == s[i - 1]);
            assert(s[n - 1].hash_pointer == s[n - 2].block.self_hash);
        } else {
            assert(t[i - 1] == dn);
        }
    }
}

/// In a well-formed chain every adjacent pair is doubly linked by
/// commitment: a non-genesis block's `previous_hash` is its predecessor's
/// `self_hash`, and that predecessor's `next_hash` is the block's
/// `self_hash`.
pub proof fn lemma_adjacent_links(s: Seq<NodeView>, i: int)
    requires
        chain_wf(s),
        1 <= i < s.len(),
    ensures
        s[i].block.previous_hash == s[i - 1].block.self_hash,
        s[i - 1].block.next_hash == s[i].block.self_hash,
{
}

/// The head's index counts the appends performed: a well-formed chain of
/// `n + 1` blocks has head index `n`, and a fresh ledger starts with the
/// genesis block alone at index 0.
pub proof fn lemma_head_index_counts_appends(s: Seq<NodeView>)
    requires
        chain_wf(s),
    ensures
        s.last().block.index == s.len() - 1,
{
}

} // verus!
