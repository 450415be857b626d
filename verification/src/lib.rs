//! Verified core of a small distributed cluster: a gossip broadcast node
//! that deduplicates values and fans them out to its neighbours with
//! unbounded retry, and a unique-ID allocator that reserves disjoint
//! blocks of identifiers through compare-and-swap on a shared counter.
//!
//! The message transport and the remote key-value store are external
//! collaborators; the decision logic they drive lives here, stated over
//! plain values so that every rule is verified.

pub mod allocator;
pub mod gossip;
pub mod local_ids;
pub mod retry;
