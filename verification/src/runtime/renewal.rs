//! Renewing the lease of a leader.
use vstd::prelude::*;

use crate::runtime::errors::StorageError;
use crate::time::TimeSpan;
use crate::types::CoordinatorTerm;

verus! {

/// What to do about a renewal that failed.
#[derive(Debug, Clone, Copy, PartialEq, Eq, Structural)]
pub enum LeaseRenewal {
    Retry(TimeSpan),
    Surrender,
}

/// Whether a failure of the store says nothing of the lease.
pub open spec fn is_transient(error: StorageError) -> bool {
    error == StorageError::Unavailable || error == StorageError::Deadline || error
        == StorageError::OutcomeUnknown
}

/// Twice as much for each attempt, up to the fourth.
pub open spec fn attempt_factor(attempt: u32) -> nat {
    if attempt == 0 {
        1
    } else if attempt == 1 {
        2
    } else if attempt == 2 {
        4
    } else if attempt == 3 {
        8
    } else {
        16
    }
}

/// How long to wait before the next attempt, in nanoseconds.
pub open spec fn renewal_backoff(remaining: nat, renewal_interval: nat, attempt: u32) -> nat {
    let backoff = renewal_interval / 16 * attempt_factor(attempt);
    if backoff <= remaining {
        backoff
    } else {
        remaining
    }
}

/// Losing the record of the leader is always fatal. A failure that says nothing of the lease is
/// not: it may be retried while the lease is still valid.
pub fn classify_lease_renewal(
    error: &StorageError,
    remaining: TimeSpan,
    renewal_interval: TimeSpan,
    attempt: u32,
) -> (renewal: LeaseRenewal)
    ensures
        match renewal {
            LeaseRenewal::Retry(backoff) => {
                &&& is_transient(*error)
                &&& remaining.length() > 0
                &&& backoff.length() == renewal_backoff(
                    remaining.length(),
                    renewal_interval.length(),
                    attempt,
                )
            },
            LeaseRenewal::Surrender => !is_transient(*error) || remaining.length() == 0,
        },
{
    let transient = match error {
        StorageError::Unavailable => true,
        StorageError::Deadline => true,
        StorageError::OutcomeUnknown => true,
        _ => false,
    };
    if !transient || remaining.is_zero() {
        return LeaseRenewal::Surrender;
    }
    let factor: u32 = if attempt == 0 {
        1
    } else if attempt == 1 {
        2
    } else if attempt == 2 {
        4
    } else if attempt == 3 {
        8
    } else {
        16
    };
    let step = renewal_interval.divided_by(16);
    let longest = renewal_interval.as_nanos();
    proof {
        assert(renewal_interval.length() / 16 * attempt_factor(attempt)
            <= renewal_interval.length()) by (nonlinear_arith)
            requires
                attempt_factor(attempt) <= 16,
        ;
    }
    LeaseRenewal::Retry(step.saturating_mul(factor).shorter(remaining))
}

/// A retry never waits beyond the lease that it is to save.
pub proof fn law_retries_stay_inside_the_lease(
    remaining: nat,
    renewal_interval: nat,
    attempt: u32,
)
    ensures
        renewal_backoff(remaining, renewal_interval, attempt) <= remaining,
        renewal_backoff(remaining, renewal_interval, attempt) <= renewal_interval,
{
    assert(renewal_interval / 16 * attempt_factor(attempt) <= renewal_interval) by (nonlinear_arith)
        requires
            attempt_factor(attempt) <= 16,
    ;
}

/// How far the reconciliation of a leader is offset, so that terms do not coincide: its term
/// within a quarter of the interval, in milliseconds.
pub fn reconciliation_jitter(term: CoordinatorTerm, interval: TimeSpan) -> (jitter: u64)
    ensures
        ({
            let millis = interval.length() / 1_000_000;
            let whole = if millis <= u64::MAX {
                millis
            } else {
                u64::MAX as nat
            };
            let bound = if whole / 4 >= 1 {
                whole / 4
            } else {
                1
            };
            jitter == term.0 as nat % bound
        }),
{
    let quarter = interval.as_millis_u64() / 4;
    let bound = if quarter >= 1 {
        quarter
    } else {
        1
    };
    term.get() % bound
}

} // verus!
