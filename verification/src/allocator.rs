//! Block-based unique-ID allocation.
//!
//! A node hands out identifiers from a half-open block
//! `[block_start, block_start + LIMIT)` that it has reserved exclusively by
//! a successful compare-and-swap against a shared counter key in a
//! linearizable store. Issuing an ID is a local increment; a new block is
//! negotiated only when the current one is exhausted.

use vstd::prelude::*;

verus! {

/// Size of each reserved identifier block.
pub const LIMIT: u64 = 20;

/// A node's current identifier block: the reserved range is
/// `[block_start, block_start + LIMIT)` and `internal_counter` is the
/// offset of the next identifier to issue within it.
pub struct Block {
    pub internal_counter: u64,
    pub block_start: u64,
}

impl Block {
    /// A block is well formed when the offset has not run past the block
    /// size and every identifier in the reserved range fits in a `u64`.
    pub open spec fn wf(&self) -> bool {
        &&& self.internal_counter <= LIMIT
        &&& self.block_start + LIMIT <= u64::MAX
    }

    /// A fresh node owns no identifiers yet: its block reads as exhausted,
    /// so the first request negotiates a real block first.
    pub fn new() -> (b: Block)
        ensures
            b.wf(),
            b.internal_counter == LIMIT,
            b.block_start == 0,
    {
        Block { internal_counter: LIMIT, block_start: 0 }
    }

    /// True when every identifier of the current block has been issued and
    /// a new block must be reserved before the next one.
    pub fn next_block(&self) -> (exhausted: bool)
        ensures
            exhausted == (self.internal_counter == LIMIT),
    {
        self.internal_counter == LIMIT
    }

    /// Issues the next identifier of the current block.
    pub fn next_id(&mut self) -> (id: u64)
        requires
            old(self).wf(),
            old(self).internal_counter < LIMIT,
        ensures
            final(self).wf(),
            id == old(self).block_start + old(self).internal_counter,
            final(self).block_start == old(self).block_start,
            final(self).internal_counter == old(self).internal_counter + 1,
    {
        let val = self.internal_counter + self.block_start;
        self.internal_counter = self.internal_counter + 1;
        val
    }

    /// Adopts a freshly reserved block starting at `block`.
    pub fn update_block(&mut self, block: u64)
        requires
            block + LIMIT <= u64::MAX,
        ensures
            final(self).wf(),
            final(self).block_start == block,
            final(self).internal_counter == 0,
    {
        self.block_start = block;
        self.internal_counter = 0;
    }
}

/// The shared counter entry, as the linearizable store presents it: a
/// single key holding the next unallocated block start. This in-process
/// model carries the documented read and compare-and-swap semantics, so
/// the negotiation logic is verified against exactly the surface the
/// remote store offers.
pub struct CasCounter {
    entry: Option<u64>,
}

impl CasCounter {
    /// Whether the key exists in the store.
    pub closed spec fn present(&self) -> bool {
        self.entry is Some
    }

    /// The value a read observes: the stored value, or the zero sentinel
    /// while the key does not exist yet.
    pub closed spec fn current(&self) -> u64 {
        match self.entry {
            Some(v) => v,
            None => 0,
        }
    }

    /// A fresh store holds no counter key.
    pub fn new() -> (c: CasCounter)
        ensures
            !c.present(),
            c.current() == 0,
    {
        CasCounter { entry: None }
    }

    /// Reads the counter, defaulting to zero while the key is absent.
    pub fn read(&self) -> (v: u64)
        ensures
            v == self.current(),
    {
        match self.entry {
            Some(v) => v,
            None => 0,
        }
    }

    /// Atomic conditional update: succeeds only when the stored value
    /// equals `old_val`, or when the key is absent and `create_if_absent`
    /// permits creating it. A failed attempt changes nothing, so a retry
    /// from a fresh read is always safe.
    pub fn cas(&mut self, old_val: u64, new_val: u64, create_if_absent: bool) -> (ok: bool)
        ensures
            ok == ((old(self).present() && old(self).current() == old_val) || (!old(
                self,
            ).present() && create_if_absent)),
            ok ==> final(self).present() && final(self).current() == new_val,
            !ok ==> *final(self) == *old(self),
    {
        match self.entry {
            Some(v) => {
                if v == old_val {
                    self.entry = Some(new_val);
                    true
                } else {
                    false
                }
            },
            None => {
                if create_if_absent {
                    self.entry = Some(new_val);
                    true
                } else {
                    false
                }
            },
        }
    }
}

/// The compare-and-swap arguments with which a node tries to reserve the
/// block starting at `observed`: advance the counter by one block, and
/// permit creating the key only in the bootstrap case where the observed
/// value is the zero sentinel.
pub fn refill_request(observed: u64) -> (args: (u64, u64, bool))
    requires
        observed + LIMIT <= u64::MAX,
    ensures
        args.0 == observed,
        args.1 == observed + LIMIT,
        args.2 == (observed == 0),
{
    (observed, observed + LIMIT, observed == 0)
}

/// Issues one identifier, negotiating a fresh block first when the
/// current one is exhausted: read the counter, then compare-and-swap it
/// forward by one block, re-reading and retrying on every lost race. The
/// successful swap reserves `[observed, observed + LIMIT)` exclusively.
pub fn generate(block: &mut Block, store: &mut CasCounter) -> (id: u64)
    requires
        old(block).wf(),
        old(block).internal_counter == LIMIT ==> old(store).current() + LIMIT <= u64::MAX,
    ensures
        final(block).wf(),
        old(block).internal_counter < LIMIT ==> ({
            &&& id == old(block).block_start + old(block).internal_counter
            &&& final(block).block_start == old(block).block_start
            &&& final(block).internal_counter == old(block).internal_counter + 1
            &&& *final(store) == *old(store)
        }),
        old(block).internal_counter == LIMIT ==> ({
            &&& id == old(store).current()
            &&& final(block).block_start == old(store).current()
            &&& final(block).internal_counter == 1
            &&& final(store).present()
            &&& final(store).current() == old(store).current() + LIMIT
        }),
{
    if block.next_block() {
        let mut val = store.read();
        let mut won = false;
        while !won
            invariant
                !won ==> *store == *old(store),
                !won ==> val == store.current(),
                val + LIMIT <= u64::MAX,
                won ==> ({
                    &&& val == old(store).current()
                    &&& store.present()
                    &&& store.current() == old(store).current() + LIMIT
                }),
            decreases (if won { 0int } else { 1int }),
        {
            let args = refill_request(val);
            won = store.cas(args.0, args.1, args.2);
            if !won {
                val = store.read();
            }
        }
        block.update_block(val);
    }
    block.next_id()
}

/// The block starts granted by the successive successful compare-and-swap
/// reservations against one counter key, in the order the linearizable
/// store serialized them: the first success observes the fresh counter at
/// the zero sentinel, and every later one observes exactly the value its
/// predecessor installed, whichever node it belongs to.
pub open spec fn valid_grants(grants: Seq<u64>) -> bool {
    &&& grants.len() > 0 ==> grants[0] == 0
    &&& forall|i: int| 0 <= i < grants.len() - 1 ==> grants[i + 1] == #[trigger] grants[i] + LIMIT
}

/// A further reservation keeps a grant sequence valid: per `generate`'s
/// refill contract, a success observes the zero sentinel on the fresh
/// counter, and afterwards exactly the value the previous success
/// installed.
pub proof fn lemma_grants_extend(grants: Seq<u64>, observed: u64)
    requires
        valid_grants(grants),
        grants.len() == 0 ==> observed == 0,
        grants.len() > 0 ==> observed == grants[grants.len() - 1] + LIMIT,
    ensures
        valid_grants(grants.push(observed)),
{
    let extended = grants.push(observed);
    assert forall|i: int| 0 <= i < extended.len() - 1 implies extended[i + 1] == #[trigger] extended[i]
        + LIMIT by {
        if i < grants.len() - 1 {
            assert(grants[i + 1] == grants[i] + LIMIT);
        }
    }
}

/// Each grant in a valid sequence sits exactly one block above its
/// predecessors: the counter only ever moves forward, by whole blocks.
pub proof fn lemma_grant_value(grants: Seq<u64>, i: int)
    requires
        valid_grants(grants),
        0 <= i < grants.len(),
    ensures
        grants[i] == i * LIMIT,
    decreases i,
{
    if i > 0 {
        lemma_grant_value(grants, i - 1);
        assert(grants[i] == grants[i - 1] + LIMIT);
    }
}

/// Blocks granted later start at least one whole block higher, so every
/// identifier a node issues from a later block exceeds all identifiers of
/// its earlier blocks: one node's identifiers are strictly increasing.
pub proof fn lemma_grants_monotone(grants: Seq<u64>, i: int, j: int)
    requires
        valid_grants(grants),
        0 <= i < j < grants.len(),
    ensures
        grants[i] + LIMIT <= grants[j],
{
    lemma_grant_value(grants, i);
    lemma_grant_value(grants, j);
}

/// Disjoint identifier blocks: identifiers drawn from two distinct grants
/// of the same counter key never collide, whichever nodes hold the two
/// blocks and wherever within its block each identifier falls.
pub proof fn lemma_blocks_disjoint(grants: Seq<u64>, i: int, j: int, a: u64, b: u64)
    requires
        valid_grants(grants),
        0 <= i < grants.len(),
        0 <= j < grants.len(),
        i != j,
        a < LIMIT,
        b < LIMIT,
    ensures
        grants[i] + a != grants[j] + b,
{
    if i < j {
        lemma_grants_monotone(grants, i, j);
    } else {
        lemma_grants_monotone(grants, j, i);
    }
}

/// Block boundary: for an exhausted block whose grant the counter still
/// reflects (no other node has raced it since), the identifier issued
/// right after the block switch — `generate` returns the counter value it
/// reserves — is exactly one above the last identifier of the old block,
/// and the switch moves the counter by exactly one block, the footprint
/// of a single successful compare-and-swap.
pub proof fn lemma_block_boundary(b: Block, s: CasCounter)
    requires
        b.wf(),
        b.internal_counter == LIMIT,
        s.present(),
        s.current() == b.block_start + LIMIT,
        s.current() + LIMIT <= u64::MAX,
    ensures
        s.current() == (b.block_start + b.internal_counter - 1) + 1,
        s.current() + LIMIT == b.block_start + 2 * LIMIT,
{
}

impl Default for Block {
    /// Same fresh state as `Block::new`.
    fn default() -> (b: Block)
        ensures
            b.wf(),
            b.internal_counter == LIMIT,
            b.block_start == 0,
    {
        Block::new()
    }
}

} // verus!
