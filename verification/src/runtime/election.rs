//! Elections: when a candidate runs, and under which term.
use vstd::prelude::*;
use vstd::utf8::encode_utf8;

use crate::encode::{be_bytes, be_value, leading_u64, push_all, push_be};
use crate::hashing::{blake3_digest, blake3_hash};
use crate::runtime::control::{CoordinatorScope, ScopeModel};
use crate::runtime::errors::{CoordinatorRuntimeError, RuntimeErrorModel};
use crate::time::TimeSpan;
use crate::types::{CoordinatorTerm, NodeKey, NodeModel};

verus! {

/// The bytes by which a scope enters the preference of a candidate.
pub open spec fn scope_bytes(scope: ScopeModel) -> Seq<u8> {
    match scope {
        CoordinatorScope::Membership => encode_utf8("membership"@),
        CoordinatorScope::Placement(domain) => encode_utf8("placement/"@) + encode_utf8(domain),
    }
}

/// What the preference of a candidate for a scope digests.
pub open spec fn candidate_bytes(scope: ScopeModel, node: NodeModel) -> Seq<u8> {
    scope_bytes(scope) + seq![0u8] + encode_utf8(node.node_id) + be_bytes(
        node.incarnation.0 as nat,
        16,
    )
}

/// How many whole milliseconds there are in a span, as far as they can be told.
pub open spec fn whole_millis(span: TimeSpan) -> nat {
    let millis = span.length() / 1_000_000;
    if millis <= u64::MAX {
        millis
    } else {
        u64::MAX as nat
    }
}

/// How many milliseconds a candidate waits before it runs: up to a maximum, spread by what scope
/// and candidate digest to.
pub open spec fn candidate_millis(scope: ScopeModel, node: NodeModel, maximum: TimeSpan) -> nat {
    let bound = whole_millis(maximum);
    let range = if bound < u64::MAX {
        bound + 1
    } else {
        u64::MAX as nat
    };
    if bound == 0 {
        0
    } else {
        be_value(blake3_digest(candidate_bytes(scope, node)).subrange(0, 8)) % range
    }
}

pub fn candidate_delay_duration(
    scope: &CoordinatorScope,
    node: &NodeKey,
    maximum: TimeSpan,
) -> (delay: TimeSpan)
    ensures
        delay.length() == candidate_millis(scope@, node@, maximum) * 1_000_000,
{
    let bound = maximum.as_millis_u64();
    if bound == 0 {
        return TimeSpan::zero();
    }
    let mut input: Vec<u8> = Vec::new();
    match scope {
        CoordinatorScope::Membership => {
            push_all(&mut input, "membership".as_bytes());
        },
        CoordinatorScope::Placement(domain) => {
            push_all(&mut input, "placement/".as_bytes());
            push_all(&mut input, domain.as_str().as_bytes());
        },
    }
    assert(input@ =~= scope_bytes(scope@));
    input.push(0);
    push_all(&mut input, node.node_id.as_str().as_bytes());
    push_be(&mut input, node.incarnation.get(), 16);
    assert(input@ =~= candidate_bytes(scope@, node@));
    let digest = blake3_hash(input.as_slice());
    let range = bound.saturating_add(1);
    TimeSpan::from_millis(leading_u64(&digest) % range)
}

/// No candidate waits longer than the maximum.
pub proof fn law_candidates_wait_no_longer(scope: ScopeModel, node: NodeModel, maximum: TimeSpan)
    ensures
        candidate_millis(scope, node, maximum) <= whole_millis(maximum),
        candidate_millis(scope, node, maximum) * 1_000_000 <= maximum.length(),
{
    let millis = maximum.length() / 1_000_000;
    assert(millis * 1_000_000 <= maximum.length());
}

/// The term after the one that is stored.
pub open spec fn term_after(stored: u64) -> Result<CoordinatorTerm, RuntimeErrorModel> {
    if stored < u64::MAX {
        Ok(CoordinatorTerm((stored + 1) as u64))
    } else {
        Err(RuntimeErrorModel::RevisionExhausted)
    }
}

pub fn next_term(stored: u64) -> (result: Result<CoordinatorTerm, CoordinatorRuntimeError>)
    ensures
        match result {
            Ok(term) => term_after(stored) == Ok::<_, RuntimeErrorModel>(term),
            Err(error) => term_after(stored) == Err::<CoordinatorTerm, _>(error@),
        },
{
    match stored.checked_add(1) {
        None => Err(CoordinatorRuntimeError::RevisionExhausted),
        Some(next) => match CoordinatorTerm::new(next) {
            Some(term) => Ok(term),
            None => Err(CoordinatorRuntimeError::RevisionExhausted),
        },
    }
}

} // verus!
