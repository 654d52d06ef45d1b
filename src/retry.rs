//! The bounded retry of a read-modify-write: after each compare-and-swap,
//! decide whether the mutation is done, must be re-read and re-applied, or
//! has failed.

use vstd::prelude::*;
use crate::error::DnsError;

verus! {

/// How many compare-and-swap attempts one mutation makes at most.
pub const MAX_COMMIT_ATTEMPTS: u32 = 3;

/// What a writer does after a commit attempt.
#[derive(Debug, Clone, Copy, PartialEq, Eq, Structural)]
pub enum CommitStep {
    /// The commit went through at this version.
    Done(u64),
    /// Another writer won: fetch the record again and re-apply the change.
    Retry,
    /// The mutation fails with this error.
    Fail(DnsError),
}

/// The step after attempt number `attempt` (counted from 1) ended in `outcome`.
pub open spec fn commit_step(attempt: nat, outcome: Result<u64, DnsError>) -> CommitStep {
    match outcome {
        Ok(v) => CommitStep::Done(v),
        Err(DnsError::Conflict) => if attempt < MAX_COMMIT_ATTEMPTS {
            CommitStep::Retry
        } else {
            CommitStep::Fail(DnsError::ConcurrentModification)
        },
        Err(e) => CommitStep::Fail(e),
    }
}

/// Decides the step after a commit attempt: a conflict is retried while
/// attempts remain and surfaces as `ConcurrentModification` once they are
/// spent; any other failure is final.
pub fn next_commit_step(attempt: u32, outcome: Result<u64, DnsError>) -> (r: CommitStep)
    ensures
        r == commit_step(attempt as nat, outcome),
{
    match outcome {
        Ok(v) => CommitStep::Done(v),
        Err(DnsError::Conflict) => {
            if attempt < MAX_COMMIT_ATTEMPTS {
                CommitStep::Retry
            } else {
                CommitStep::Fail(DnsError::ConcurrentModification)
            }
        },
        Err(e) => CommitStep::Fail(e),
    }
}

} // verus!
