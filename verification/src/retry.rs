//! Unbounded-retry delivery.
//!
//! A delivery task for one `(neighbour, value)` pair issues the call, and
//! on timeout or failure immediately issues it again, with no backoff and
//! no attempt limit, until the neighbour acknowledges. The policy trades
//! efficiency for guaranteed eventual delivery over a lossy transport
//! that eventually lets a call through.

use vstd::prelude::*;

verus! {

/// How many attempts the retry loop makes against the given sequence of
/// attempt outcomes (`true` = acknowledged): every attempt up to and
/// including the first successful one.
pub open spec fn attempts_to_succeed(outcomes: Seq<bool>) -> int
    decreases outcomes.len(),
{
    if outcomes.len() == 0 {
        0
    } else if outcomes[0] {
        1
    } else {
        1 + attempts_to_succeed(outcomes.skip(1))
    }
}

/// Eventual convergence of delivery: when the first `k` attempts fail and
/// attempt `k + 1` succeeds, the retry loop makes exactly `k + 1`
/// attempts and then stops.
pub proof fn lemma_retry_convergence(outcomes: Seq<bool>, k: int)
    requires
        0 <= k < outcomes.len(),
        outcomes[k],
        forall|i: int| 0 <= i < k ==> !outcomes[i],
    ensures
        attempts_to_succeed(outcomes) == k + 1,
    decreases k,
{
    if k > 0 {
        assert(!outcomes[0]);
        let rest = outcomes.skip(1);
        assert forall|i: int| 0 <= i < k - 1 implies !rest[i] by {
            assert(rest[i] == outcomes[i + 1]);
        }
        assert(rest[k - 1] == outcomes[k]);
        lemma_retry_convergence(rest, k - 1);
    }
}

/// Runs the delivery retry loop against a recorded sequence of attempt
/// outcomes (`true` = acknowledged before the timeout) and returns how
/// many attempts it made: failed attempts are retried at once, and the
/// loop stops at the first acknowledgment.
pub fn deliver_with_retry(outcomes: &Vec<bool>) -> (attempts: usize)
    requires
        exists|i: int| 0 <= i < outcomes@.len() && outcomes@[i],
    ensures
        1 <= attempts <= outcomes@.len(),
        outcomes@[attempts - 1],
        forall|i: int| 0 <= i < attempts - 1 ==> !outcomes@[i],
        attempts == attempts_to_succeed(outcomes@),
{
    let n = outcomes.len();
    let mut i: usize = 0;
    while !outcomes[i]
        invariant
            n == outcomes@.len(),
            0 <= i < n,
            forall|j: int| 0 <= j < i ==> !outcomes@[j],
            exists|j: int| i <= j < outcomes@.len() && outcomes@[j],
        decreases outcomes@.len() - i,
    {
        proof {
            let w = choose|j: int| i <= j < outcomes@.len() && outcomes@[j];
            assert(i + 1 <= w < outcomes@.len());
        }
        i = i + 1;
    }
    proof {
        lemma_retry_convergence(outcomes@, i as int);
    }
    i + 1
}

/// The retry policy itself: an attempt that was not acknowledged is
/// re-issued immediately; an acknowledged one ends the task.
pub fn should_retry(acknowledged: bool) -> (retry: bool)
    ensures
        retry == !acknowledged,
{
    !acknowledged
}

} // verus!
