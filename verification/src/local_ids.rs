//! Coordination-free unique IDs.
//!
//! A cluster of known, fixed size can hand out globally unique
//! identifiers with no shared store at all: the node at slot `offset` of
//! the membership list issues `counter * network_size + offset`, striding
//! over the identifier space so that distinct nodes never collide.

use vstd::prelude::*;

verus! {

/// A node's slice of the identifier space: slot `offset` of a cluster of
/// `network_size` nodes, with `internal_counter` identifiers issued so
/// far.
pub struct Block {
    pub internal_counter: usize,
    pub offset: usize,
    pub network_size: usize,
}

impl Block {
    /// A configured block names a real slot of a non-empty cluster.
    pub open spec fn wf(&self) -> bool {
        &&& self.network_size > 0
        &&& self.offset < self.network_size
    }

    /// Configures a node's slot from the membership list delivered at
    /// startup: the slot is this node's position in the list. A list that
    /// does not name this node configures nothing.
    pub fn init(nodes: &Vec<String>, node_id: &String) -> (r: Option<Block>)
        ensures
            match r {
                Some(b) => ({
                    &&& b.wf()
                    &&& b.internal_counter == 0
                    &&& b.network_size == nodes@.len()
                    &&& b.offset < nodes@.len() && nodes@[b.offset as int]@ == node_id@
                    &&& forall|j: int| 0 <= j < b.offset ==> nodes@[j]@ != node_id@
                }),
                None => forall|j: int| 0 <= j < nodes@.len() ==> nodes@[j]@ != node_id@,
            },
    {
        match position_of(nodes, node_id) {
            Some(offset) => Some(
                Block { internal_counter: 0, offset, network_size: nodes.len() },
            ),
            None => None,
        }
    }

    /// Issues the next identifier of this node's stride.
    pub fn next_id(&mut self) -> (id: usize)
        requires
            old(self).wf(),
            old(self).internal_counter < usize::MAX,
            old(self).internal_counter * old(self).network_size + old(self).offset <= usize::MAX,
        ensures
            final(self).wf(),
            id == old(self).internal_counter * old(self).network_size + old(self).offset,
            final(self).internal_counter == old(self).internal_counter + 1,
            final(self).offset == old(self).offset,
            final(self).network_size == old(self).network_size,
    {
        let val = self.internal_counter * self.network_size + self.offset;
        self.internal_counter = self.internal_counter + 1;
        val
    }
}

/// The first position of `node_id` in the membership list.
fn position_of(nodes: &Vec<String>, node_id: &String) -> (r: Option<usize>)
    ensures
        match r {
            Some(i) => 0 <= i < nodes@.len() && nodes@[i as int]@ == node_id@ && forall|j: int|
                0 <= j < i ==> nodes@[j]@ != node_id@,
            None => forall|j: int| 0 <= j < nodes@.len() ==> nodes@[j]@ != node_id@,
        },
{
    let mut i: usize = 0;
    while i < nodes.len()
        invariant
            i <= nodes.len(),
            forall|j: int| 0 <= j < i ==> nodes@[j]@ != node_id@,
        decreases nodes.len() - i,
    {
        if nodes[i] == *node_id {
            return Some(i);
        }
        i = i + 1;
    }
    None
}

/// Stride uniqueness: two identifiers issued against the same cluster
/// size collide only when they come from the same slot at the same issue
/// count — distinct nodes, or distinct issues of one node, never repeat
/// an identifier.
pub proof fn lemma_stride_unique(c1: nat, o1: nat, c2: nat, o2: nat, n: nat)
    requires
        o1 < n,
        o2 < n,
        c1 != c2 || o1 != o2,
    ensures
        c1 * n + o1 != c2 * n + o2,
{
    if c1 == c2 {
        assert(c1 * n == c2 * n);
    } else if c1 < c2 {
        assert(c1 * n + n <= c2 * n) by (nonlinear_arith)
            requires
                c1 < c2,
                n > 0,
        ;
    } else {
        assert(c2 * n + n <= c1 * n) by (nonlinear_arith)
            requires
                c2 < c1,
                n > 0,
        ;
    }
}

} // verus!
