//! Gossip broadcast node.
//!
//! The node keeps a deduplicated set of observed values and a neighbour
//! table fixed by the first topology announcement. A broadcast request is
//! acknowledged at once; when it carries a value never seen before, one
//! delivery task per neighbour is handed back to the caller for concurrent
//! fan-out. Redundant deliveries of a known value are absorbed silently.

use vstd::prelude::*;

verus! {

/// Failures a request handler reports back to the caller. Transient
/// delivery failures never surface here: they are absorbed by retry.
#[derive(Clone, Copy, Debug, PartialEq, Eq, Structural)]
pub enum ProtocolError {
    /// A topology announcement arrived after the neighbour table was
    /// already fixed.
    NeighboursAlreadySet,
    /// The topology announcement holds no entry for this node.
    NoNeighboursForNode,
    /// The request shape is not one this node answers.
    UnexpectedRequest,
}

/// The request and reply shapes exchanged between broadcast nodes.
#[derive(Clone, Debug)]
pub enum BroadcastProtocol {
    Broadcast { message: i64 },
    BroadcastBatch { message: Vec<i64> },
    Read,
    Topology { topology: Vec<(String, Vec<String>)> },
    BroadcastOk,
    ReadOk { messages: Vec<i64> },
    TopologyOk,
    BroadcastBatchOk,
}

/// What adding a value to the observed set yields: the set absorbs a value
/// it already holds.
pub open spec fn seen_add(seen: Seq<i64>, v: i64) -> Seq<i64> {
    if seen.contains(v) {
        seen
    } else {
        seen.push(v)
    }
}

/// One delivery task per neighbour, each carrying the value.
pub open spec fn fan_out(nbrs: Seq<String>, v: i64) -> Seq<(String, i64)> {
    Seq::new(nbrs.len(), |i: int| (nbrs[i], v))
}

/// The delivery tasks a broadcast request launches: a full round when the
/// value is new, none when it was already seen.
pub open spec fn broadcast_fanout(seen: Seq<i64>, nbrs: Seq<String>, v: i64) -> Seq<(String, i64)> {
    if seen.contains(v) {
        Seq::<(String, i64)>::empty()
    } else {
        fan_out(nbrs, v)
    }
}

/// What a topology announcement does to the neighbour table: it is
/// adopted only while the table was never set before, and refused
/// afterwards — whatever list the first announcement carried, an empty
/// one included.
pub open spec fn set_neighbours_spec(already_set: bool, cur: Seq<String>, announced: Seq<
    String,
>) -> (Seq<String>, bool) {
    if already_set {
        (cur, false)
    } else {
        (announced, true)
    }
}

/// Whether the announced topology holds an entry for the node named `id`.
pub open spec fn topo_has(t: Seq<(String, Vec<String>)>, id: Seq<char>) -> bool {
    exists|i: int| 0 <= i < t.len() && t[i].0@ == id
}

/// Per-node broadcast state: the values observed so far and the neighbour
/// table fixed by the first topology announcement.
pub struct State {
    seen: Vec<i64>,
    neighbours: Vec<String>,
    neighbours_set: bool,
}

impl State {
    /// The set of observed values, as the sequence of first sightings.
    pub closed spec fn seen(&self) -> Seq<i64> {
        self.seen@
    }

    /// The neighbour table.
    pub closed spec fn nbrs(&self) -> Seq<String> {
        self.neighbours@
    }

    /// Whether a topology announcement has fixed the neighbour table
    /// already. Recorded apart from the table itself, so that a node
    /// legitimately assigned zero neighbours is protected against a later
    /// announcement all the same.
    pub closed spec fn nbrs_set(&self) -> bool {
        self.neighbours_set
    }

    /// The observed values hold no duplicate — membership is a set test —
    /// and the neighbour table is empty until an announcement fixes it.
    pub closed spec fn wf(&self) -> bool {
        &&& self.seen@.no_duplicates()
        &&& !self.neighbours_set ==> self.neighbours@.len() == 0
    }

    /// A node starts with nothing observed and its neighbour table unset.
    pub fn new() -> (s: State)
        ensures
            s.wf(),
            s.seen() == Seq::<i64>::empty(),
            s.nbrs() == Seq::<String>::empty(),
            !s.nbrs_set(),
    {
        State { seen: Vec::new(), neighbours: Vec::new(), neighbours_set: false }
    }

    /// Records `v` as observed. Returns whether `v` was new; a value
    /// already present is absorbed without any change.
    pub fn add(&mut self, v: i64) -> (newly: bool)
        requires
            old(self).wf(),
        ensures
            final(self).wf(),
            newly == !old(self).seen().contains(v),
            final(self).seen() == seen_add(old(self).seen(), v),
            final(self).seen().contains(v),
            final(self).nbrs() == old(self).nbrs(),
            final(self).nbrs_set() == old(self).nbrs_set(),
    {
        let present = contains_value(&self.seen, v);
        if present {
            return false;
        }
        self.seen.push(v);
        proof {
            assert(self.seen@ == old(self).seen@.push(v));
            assert(self.seen@[old(self).seen@.len() as int] == v);
            assert(self.seen@.contains(v));
            assert forall|i: int, j: int|
                0 <= i < self.seen@.len() && 0 <= j < self.seen@.len() && i != j implies self.seen@[i]
                != self.seen@[j] by {
                if i < old(self).seen@.len() && j < old(self).seen@.len() {
                    assert(old(self).seen@.no_duplicates());
                } else if i == old(self).seen@.len() {
                    assert(!old(self).seen@.contains(v));
                    assert(old(self).seen@[j] != v);
                } else if j == old(self).seen@.len() {
                    assert(!old(self).seen@.contains(v));
                    assert(old(self).seen@[i] != v);
                }
            }
        }
        true
    }

    /// A snapshot of every value observed so far, in first-sighting order.
    pub fn all(&self) -> (r: Vec<i64>)
        ensures
            r@ == self.seen(),
    {
        let mut out: Vec<i64> = Vec::new();
        let mut i: usize = 0;
        while i < self.seen.len()
            invariant
                i <= self.seen.len(),
                out@ == self.seen@.subrange(0, i as int),
            decreases self.seen.len() - i,
        {
            out.push(self.seen[i]);
            proof {
                assert(out@ == self.seen@.subrange(0, i + 1 as int));
            }
            i = i + 1;
        }
        proof {
            assert(self.seen@.subrange(0, self.seen@.len() as int) == self.seen@);
        }
        out
    }

    /// Fixes the neighbour table, exactly once: the first call adopts the
    /// list — an empty one included — and every later call fails and
    /// changes nothing.
    pub fn set_neighbours(&mut self, neighbours: Vec<String>) -> (r: Result<(), ProtocolError>)
        requires
            old(self).wf(),
        ensures
            final(self).wf(),
            final(self).seen() == old(self).seen(),
            final(self).nbrs() == set_neighbours_spec(
                old(self).nbrs_set(),
                old(self).nbrs(),
                neighbours@,
            ).0,
            (r is Ok) == set_neighbours_spec(old(self).nbrs_set(), old(self).nbrs(), neighbours@).1,
            (r is Ok) == !old(self).nbrs_set(),
            final(self).nbrs_set(),
            r is Err ==> r == Err::<(), ProtocolError>(ProtocolError::NeighboursAlreadySet)
                && *final(self) == *old(self),
    {
        if !self.neighbours_set {
            self.neighbours = neighbours;
            self.neighbours_set = true;
            Ok(())
        } else {
            Err(ProtocolError::NeighboursAlreadySet)
        }
    }

    /// The neighbour table as fixed by the first topology announcement.
    pub fn neighbours(&self) -> (r: &Vec<String>)
        ensures
            r@ == self.nbrs(),
    {
        &self.neighbours
    }

    /// Answers one inbound request: mutates the local state, and returns
    /// the reply for the requester together with the delivery tasks to
    /// launch concurrently (one `(neighbour, value)` pair per task).
    ///
    /// A broadcast is acknowledged whether or not the value is new, but
    /// fans out only on first sighting. A read snapshots the observed set.
    /// A topology announcement adopts the first neighbour list filed under
    /// this node's name, and only while the table is unset. Any other
    /// request shape is refused without touching the state.
    pub fn to_response(&mut self, node_id: &String, request: BroadcastProtocol) -> (r: Result<
        (BroadcastProtocol, Vec<(String, i64)>),
        ProtocolError,
    >)
        requires
            old(self).wf(),
        ensures
            final(self).wf(),
            match request {
                BroadcastProtocol::Broadcast { message } => {
                    &&& r matches Ok(resp)
                    &&& resp.0 is BroadcastOk
                    &&& resp.1@ == broadcast_fanout(old(self).seen(), old(self).nbrs(), message)
                    &&& final(self).seen() == seen_add(old(self).seen(), message)
                    &&& final(self).nbrs() == old(self).nbrs()
                    &&& final(self).nbrs_set() == old(self).nbrs_set()
                },
                BroadcastProtocol::Read => {
                    &&& r matches Ok(resp)
                    &&& resp.0 matches BroadcastProtocol::ReadOk { messages } && messages@ == old(
                        self,
                    ).seen()
                    &&& resp.1@.len() == 0
                    &&& *final(self) == *old(self)
                },
                BroadcastProtocol::Topology { topology } => {
                    &&& !topo_has(topology@, node_id@) ==> r == Err::<
                        (BroadcastProtocol, Vec<(String, i64)>),
                        ProtocolError,
                    >(ProtocolError::NoNeighboursForNode) && *final(self) == *old(self)
                    &&& (topo_has(topology@, node_id@) && old(self).nbrs_set()) ==> r == Err::<
                        (BroadcastProtocol, Vec<(String, i64)>),
                        ProtocolError,
                    >(ProtocolError::NeighboursAlreadySet) && *final(self) == *old(self)
                    &&& (topo_has(topology@, node_id@) && !old(self).nbrs_set()) ==> ({
                        &&& r matches Ok(resp)
                        &&& resp.0 is TopologyOk
                        &&& resp.1@.len() == 0
                        &&& final(self).seen() == old(self).seen()
                        &&& final(self).nbrs_set()
                        &&& exists|i: int|
                            0 <= i < topology@.len() && topology@[i].0@ == node_id@ && (forall|
                                j: int,
                            | 0 <= j < i ==> topology@[j].0@ != node_id@) && final(self).nbrs()
                                == topology@[i].1@
                    })
                },
                _ => r == Err::<
                    (BroadcastProtocol, Vec<(String, i64)>),
                    ProtocolError,
                >(ProtocolError::UnexpectedRequest) && *final(self) == *old(self),
            },
    {
        match request {
            BroadcastProtocol::Broadcast { message } => {
                let newly = self.add(message);
                let mut fanout: Vec<(String, i64)> = Vec::new();
                if newly {
                    let n = self.neighbours.len();
                    let mut i: usize = 0;
                    while i < n
                        invariant
                            i <= n,
                            n == self.neighbours@.len(),
                            fanout@.len() == i,
                            forall|j: int|
                                0 <= j < i ==> fanout@[j] == (self.neighbours@[j], message),
                        decreases n - i,
                    {
                        let target: String = self.neighbours[i].clone();
                        fanout.push((target, message));
                        i = i + 1;
                    }
                    proof {
                        assert(fanout@ =~= fan_out(self.nbrs(), message));
                    }
                }
                proof {
                    assert(fanout@ =~= broadcast_fanout(
                        old(self).seen(),
                        old(self).nbrs(),
                        message,
                    ));
                }
                Ok((BroadcastProtocol::BroadcastOk, fanout))
            },
            BroadcastProtocol::Read => {
                let messages = self.all();
                Ok((BroadcastProtocol::ReadOk { messages }, Vec::new()))
            },
            BroadcastProtocol::Topology { topology } => {
                let mut t = topology;
                match find_key(&t, node_id) {
                    Some(i) => {
                        proof {
                            assert(topo_has(t@, node_id@));
                        }
                        let entry = t.remove(i);
                        match self.set_neighbours(entry.1) {
                            Ok(()) => Ok((BroadcastProtocol::TopologyOk, Vec::new())),
                            Err(e) => Err(e),
                        }
                    },
                    None => {
                        proof {
                            assert(!topo_has(t@, node_id@));
                        }
                        Err(ProtocolError::NoNeighboursForNode)
                    },
                }
            },
            _ => Err(ProtocolError::UnexpectedRequest),
        }
    }
}

impl Default for State {
    /// Same fresh state as `State::new`.
    fn default() -> (s: State)
        ensures
            s.wf(),
            s.seen() == Seq::<i64>::empty(),
            s.nbrs() == Seq::<String>::empty(),
            !s.nbrs_set(),
    {
        State::new()
    }
}

/// Looks up the first topology entry filed under the node named `id`.
fn find_key(t: &Vec<(String, Vec<String>)>, id: &String) -> (r: Option<usize>)
    ensures
        match r {
            Some(i) => 0 <= i < t@.len() && t@[i as int].0@ == id@ && forall|j: int|
                0 <= j < i ==> t@[j].0@ != id@,
            None => forall|j: int| 0 <= j < t@.len() ==> t@[j].0@ != id@,
        },
{
    let mut i: usize = 0;
    while i < t.len()
        invariant
            i <= t.len(),
            forall|j: int| 0 <= j < i ==> t@[j].0@ != id@,
        decreases t.len() - i,
    {
        if t[i].0 == *id {
            return Some(i);
        }
        i = i + 1;
    }
    None
}

/// Whether `values` holds `x`.
fn contains_value(values: &Vec<i64>, x: i64) -> (r: bool)
    ensures
        r == values@.contains(x),
{
    let mut i: usize = 0;
    while i < values.len()
        invariant
            i <= values.len(),
            forall|j: int| 0 <= j < i ==> values@[j] != x,
        decreases values.len() - i,
    {
        if values[i] == x {
            return true;
        }
        i = i + 1;
    }
    false
}

/// Idempotent deduplication: once a value is in the observed set, adding
/// it again changes nothing and launches no second fan-out round, and the
/// set holds it at exactly one position.
pub proof fn lemma_broadcast_idempotent(seen: Seq<i64>, nbrs: Seq<String>, v: i64)
    requires
        seen.no_duplicates(),
    ensures
        seen_add(seen, v).contains(v),
        seen_add(seen_add(seen, v), v) == seen_add(seen, v),
        broadcast_fanout(seen_add(seen, v), nbrs, v) == Seq::<(String, i64)>::empty(),
        seen_add(seen, v).no_duplicates(),
        forall|i: int, j: int|
            0 <= i < seen_add(seen, v).len() && 0 <= j < seen_add(seen, v).len()
                && seen_add(seen, v)[i] == v && seen_add(seen, v)[j] == v ==> i == j,
{
    let s1 = seen_add(seen, v);
    if !seen.contains(v) {
        assert(s1[seen.len() as int] == v);
        assert(s1.contains(v));
        assert forall|i: int, j: int|
            0 <= i < s1.len() && 0 <= j < s1.len() && i != j implies s1[i] != s1[j] by {
            if i < seen.len() && j < seen.len() {
                assert(seen.no_duplicates());
            } else if i == seen.len() {
                assert(seen[j] != v);
            } else if j == seen.len() {
                assert(seen[i] != v);
            }
        }
    }
    assert(s1.contains(v));
    assert(seen_add(s1, v) == s1);
    assert(broadcast_fanout(s1, nbrs, v) == Seq::<(String, i64)>::empty());
    assert forall|i: int, j: int|
        0 <= i < s1.len() && 0 <= j < s1.len() && s1[i] == v && s1[j] == v implies i == j by {
        if i != j {
            assert(s1[i] != s1[j]);
        }
    }
}

/// Neighbour set immutability: once an announcement has fixed the table —
/// whatever list it carried, an empty one included — every later
/// announcement is refused and the table keeps its value.
pub proof fn lemma_neighbours_immutable(cur: Seq<String>, announced: Seq<String>)
    ensures
        set_neighbours_spec(true, cur, announced).0 == cur,
        !set_neighbours_spec(true, cur, announced).1,
{
}

/// Well-formedness means set semantics: the observed values of a
/// well-formed state hold no duplicates, so a read reports each value at
/// exactly one position.
pub proof fn lemma_wf_means_set_semantics(s: &State)
    requires
        s.wf(),
    ensures
        s.seen().no_duplicates(),
{
}

} // verus!
