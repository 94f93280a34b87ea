//! How leaders are elected, keep their lease, take over and count what goes wrong.
use vstd::prelude::*;
use vstd::utf8::encode_utf8;

use crate::encode::{be_bytes, be_value};
use crate::hashing::blake3_digest;
use crate::plan::PlanModel;
use crate::ranking::PolicyModel;
use crate::runtime::config::{CoordinatorLeaderConfig, RebalanceLimits};
use crate::runtime::control::{CoordinatorScope, ScopeModel};
use crate::runtime::election::{
    candidate_millis, scope_bytes, term_after, whole_millis,
};
use crate::runtime::errors::{
    blames_the_command, is_declined_round, shard_answer, singleton_answer, AllocationError,
    RuntimeErrorModel, StorageCounters, StorageError,
};
use crate::runtime::members::MembershipVersion;
use crate::runtime::renewal::{is_transient, renewal_backoff};
use crate::runtime::state::{DurableLimits, LeaderModel};
use crate::runtime::takeover::{
    highest_revision, initial_assignments, initial_revision, plans_by_id,
};
use crate::time::{MonotonicTime, TimeSpan};
use crate::types::{
    CoordinatorTerm, NodeModel, PlacementSlotState, Revision, SlotKeyModel, SlotModel,
};

verus! {

/// A failure of the store says nothing of the lease exactly when the store was not reached, answered
/// too late, or may have answered.
pub proof fn law_transient_failures_say_nothing(error: StorageError)
    ensures
        is_transient(error) <==> (error is Unavailable || error is Deadline || error
            is OutcomeUnknown),
{
}

/// Retries begin at a sixteenth of the renewal interval and wait twice as long each time, up to the
/// fifth attempt, unless the lease runs out before.
pub proof fn law_retries_back_off(remaining: nat, interval: nat, attempt: u32)
    ensures
        interval / 16 <= remaining ==> renewal_backoff(remaining, interval, 0) == interval / 16,
        attempt < 4 && renewal_backoff(remaining, interval, (attempt + 1) as u32) < remaining
            ==> renewal_backoff(remaining, interval, (attempt + 1) as u32) == 2 * renewal_backoff(
            remaining,
            interval,
            attempt,
        ),
        attempt >= 4 ==> renewal_backoff(remaining, interval, attempt) == renewal_backoff(
            remaining,
            interval,
            4,
        ),
        attempt < 4 && 2 * renewal_backoff(remaining, interval, attempt) <= remaining
            ==> renewal_backoff(remaining, interval, (attempt + 1) as u32) == 2 * renewal_backoff(
            remaining,
            interval,
            attempt,
        ) || renewal_backoff(remaining, interval, attempt) == remaining,
        renewal_backoff(remaining, interval, attempt) <= remaining,
{
    let step = interval / 16;
    assert(step * 1 == step && step * 2 == 2 * step && step * 4 == 4 * step && step * 8 == 8 * step
        && step * 16 == 16 * step) by (nonlinear_arith);
}

/// The bytes of a scope tell it: that of the membership from every domain, and each domain from the
/// others.
pub proof fn law_scopes_have_their_own_bytes(scope: ScopeModel, other: ScopeModel)
    ensures
        scope is Membership ==> scope_bytes(scope) == encode_utf8("membership"@),
        scope matches CoordinatorScope::Placement(domain) ==> scope_bytes(scope) == encode_utf8(
            "placement/"@,
        ) + encode_utf8(domain),
        scope is Placement && other is Placement ==> (scope_bytes(scope) == scope_bytes(other)
            <==> scope == other),
{
    if scope is Placement && other is Placement && scope_bytes(scope) == scope_bytes(other) {
        let front = encode_utf8("placement/"@);
        let (one, another) = (scope->Placement_0, other->Placement_0);
        let bytes = scope_bytes(scope);
        assert(encode_utf8(one) =~= bytes.subrange(front.len() as int, bytes.len() as int));
        assert(encode_utf8(another) =~= bytes.subrange(front.len() as int, bytes.len() as int));
        vstd::utf8::encode_utf8_decode_utf8(one);
        vstd::utf8::encode_utf8_decode_utf8(another);
    }
}

/// A candidate waits as many whole milliseconds as the first eight bytes of the BLAKE3 digest of
/// scope, name and incarnation stand for, modulo one more than the longest wait; not at all where
/// the longest wait is less than a millisecond.
pub proof fn law_candidates_are_spread_by_their_digest(
    scope: ScopeModel,
    node: NodeModel,
    maximum: TimeSpan,
)
    requires
        maximum.length() / 1_000_000 < u64::MAX,
    ensures
        ({
            let bound = maximum.length() / 1_000_000;
            let digest = blake3_digest(
                scope_bytes(scope) + seq![0u8] + encode_utf8(node.node_id) + be_bytes(
                    node.incarnation.0 as nat,
                    16,
                ),
            );
            &&& bound > 0 ==> candidate_millis(scope, node, maximum) == be_value(
                digest.subrange(0, 8),
            ) % (bound + 1)
            &&& bound == 0 ==> candidate_millis(scope, node, maximum) == 0
            &&& candidate_millis(scope, node, maximum) <= bound
            &&& whole_millis(maximum) == bound
        }),
{
}

/// Terms count up by one from the one that is stored, as long as they can.
pub proof fn law_terms_count_up(stored: u64)
    ensures
        term_after(stored) is Ok <==> stored < u64::MAX,
        term_after(stored) matches Ok(term) ==> term.0 == stored + 1,
        term_after(stored) matches Err(error) ==> error == RuntimeErrorModel::RevisionExhausted,
{
}

proof fn lemma_highest(slots: Seq<SlotModel>, count: nat)
    requires
        count <= slots.len(),
    ensures
        count == 0 <==> highest_revision(slots, count) is None,
        forall|i: int|
            0 <= i < count ==> (#[trigger] slots[i]).version.revision.0 <= (highest_revision(
                slots,
                count,
            )->0).0,
        count > 0 ==> exists|i: int|
            0 <= i < count && (#[trigger] slots[i]).version.revision == highest_revision(
                slots,
                count,
            )->0,
    decreases count,
{
    if count > 0 {
        lemma_highest(slots, (count - 1) as nat);
        let before = highest_revision(slots, (count - 1) as nat);
        let after = highest_revision(slots, count);
        if after == before {
            let i = choose|i: int|
                0 <= i < count - 1 && (#[trigger] slots[i]).version.revision == before->0;
            assert(slots[i].version.revision == after->0);
        } else {
            assert(slots[count - 1].version.revision == after->0);
        }
    }
}

/// A leader takes over at the highest revision of any slot, or at the first where there is none.
pub proof fn law_leaders_take_over_at_the_latest_revision(slots: Seq<SlotModel>)
    ensures
        slots.len() == 0 ==> initial_revision(slots) == Revision(1),
        forall|i: int|
            0 <= i < slots.len() ==> (#[trigger] slots[i]).version.revision.0 <= initial_revision(
                slots,
            ).0,
        slots.len() > 0 ==> exists|i: int|
            0 <= i < slots.len() && (#[trigger] slots[i]).version.revision == initial_revision(
                slots,
            ),
{
    lemma_highest(slots, slots.len());
}

/// Exactly the running slots count as assigned, from the beginning of the leadership on.
pub proof fn law_running_slots_count_as_assigned(slots: Seq<SlotModel>, key: SlotKeyModel)
    ensures
        initial_assignments(slots).contains_key(key) <==> exists|i: int|
            0 <= i < slots.len() && (#[trigger] slots[i]).key == key && slots[i].state
                == PlacementSlotState::Running,
        initial_assignments(slots).contains_key(key) ==> initial_assignments(slots)[key]
            == MonotonicTime(0),
{
}

proof fn lemma_plans(plans: Seq<PlanModel>, count: nat)
    requires
        count <= plans.len(),
    ensures
        forall|i: int|
            0 <= i < count ==> plans_by_id(plans, count).contains_key((#[trigger] plans[i]).plan_id),
        forall|id: u128| #[trigger]
            plans_by_id(plans, count).contains_key(id) ==> plans_by_id(plans, count)[id].plan_id
                == id && plans.contains(plans_by_id(plans, count)[id]),
    decreases count,
{
    if count > 0 {
        lemma_plans(plans, (count - 1) as nat);
        assert(plans.contains(plans[count - 1]));
    }
}

/// The stored plans are taken over under their identities, each of them and no other.
pub proof fn law_plans_are_taken_over(plans: Seq<PlanModel>, i: int, id: u128)
    ensures
        0 <= i < plans.len() ==> plans_by_id(plans, plans.len()).contains_key(plans[i].plan_id),
        plans_by_id(plans, plans.len()).contains_key(id) ==> plans_by_id(
            plans,
            plans.len(),
        )[id].plan_id == id && plans.contains(plans_by_id(plans, plans.len())[id]),
{
    lemma_plans(plans, plans.len());
}

/// A leader that takes over knows its term, its configuration, the membership, its strategies and
/// what is stored; no member is connected, nothing is claimed or under way, nothing is paused and
/// nothing is reconciled yet.
pub proof fn law_leaders_start_anew(
    config: CoordinatorLeaderConfig,
    limits: DurableLimits,
    domain: Seq<char>,
    term: CoordinatorTerm,
    membership_version: MembershipVersion,
    strategies: Map<PolicyModel, u64>,
    slots: Seq<SlotModel>,
    plans: Seq<PlanModel>,
)
    ensures
        ({
            let leader = LeaderModel::taking_over(
                config,
                limits,
                domain,
                term,
                membership_version,
                strategies,
                slots,
                plans,
            );
            &&& leader.config == config
            &&& leader.limits == limits
            &&& leader.term == term
            &&& leader.version.domain == domain
            &&& leader.version.term == term
            &&& leader.version.revision == initial_revision(slots)
            &&& leader.membership_version == membership_version
            &&& leader.strategies == strategies
            &&& leader.plans == plans_by_id(plans, plans.len())
            &&& leader.slot_assigned_at == initial_assignments(slots)
            &&& leader.sessions.dom().len() == 0
            &&& leader.claims.dom().len() == 0
            &&& leader.handoffs.dom().len() == 0
            &&& leader.entity_configs.dom().len() == 0
            &&& leader.singleton_configs.dom().len() == 0
            &&& leader.applied_admin_operations.dom().len() == 0
            &&& leader.node_load_received.dom().len() == 0
            &&& leader.shard_load_received.dom().len() == 0
            &&& leader.last_automatic_move_at is None
            &&& !leader.automatic_globally_paused
            &&& leader.paused_entity_types.len() == 0
            &&& leader.reconciliation_focus.len() == 0
            &&& !leader.reconciliation_focused
            &&& !leader.reconciled
            &&& leader.reconciliation.backlog == 0
            &&& leader.reconciliation.oldest_pending is None
            &&& leader.reconciliation.last_success is None
            &&& !leader.reconciliation.is_degraded()
            &&& leader.counters.leadership_loss_count == 0
            &&& leader.counters.commit_conflict_count == 0
            &&& leader.counters.unknown_outcome_count == 0
            &&& leader.counters.capacity_rejection_count == 0
        }),
{
    let none = Map::<SlotKeyModel, MonotonicTime>::empty();
    assert(Set::<SlotKeyModel>::empty().len() == 0);
}

/// The limits on concurrent moves allow something exactly when each of them is positive.
pub proof fn law_rebalance_limits_allow_something(limits: RebalanceLimits)
    ensures
        !limits.has_zero_limit() <==> {
            &&& limits.moves_per_round > 0
            &&& limits.concurrent_cluster > 0
            &&& limits.concurrent_entity > 0
            &&& limits.concurrent_source > 0
            &&& limits.concurrent_target > 0
        },
{
}

/// The configuration of a leader is sound exactly when every time is positive, leases and claims are
/// renewed before they run out, and every limit allows something.
pub proof fn law_sound_leaders_renew_in_time(config: CoordinatorLeaderConfig)
    ensures
        config.fault() is None <==> {
            &&& config.member_heartbeat_timeout.length() > 0
            &&& 0 < config.renewal_interval.length() < config.leader_lease_ttl.length()
            &&& config.renewal_interval.length() < config.member_lease_ttl.length()
            &&& config.renewal_interval.length() < config.claim_ttl.length()
            &&& config.rebalance_interval.length() > 0
            &&& config.maximum_sessions > 0
            &&& config.maximum_node_loads > 0
            &&& config.maximum_shard_loads > 0
            &&& config.maximum_control_payload > 0
            &&& config.maximum_operations > 0
            &&& config.maximum_plan_moves > 0
            &&& config.maximum_completed_plan_history > 0
            &&& config.rebalance_limits.moves_per_round > 0
            &&& config.rebalance_limits.concurrent_cluster > 0
            &&& config.rebalance_limits.concurrent_entity > 0
            &&& config.rebalance_limits.concurrent_source > 0
            &&& config.rebalance_limits.concurrent_target > 0
        },
        config.fault() is Some ==> config.fault() == Some(RuntimeErrorModel::InvalidConfig),
{
}

/// A count goes up by one, and stays at the most that can be counted.
pub open spec fn counts(before: u64, after: u64) -> bool {
    after == before + 1 || (before == u64::MAX && after == u64::MAX)
}

/// What the store refuses is counted where it belongs, and nothing else is.
pub proof fn law_refusals_of_the_store_are_counted(
    counters: StorageCounters,
    fault: Option<RuntimeErrorModel>,
)
    ensures
        ({
            let after = counters.counted(fault);
            let lost = fault == Some(RuntimeErrorModel::Storage(StorageError::LeadershipLost));
            let conflict = fault == Some(RuntimeErrorModel::Storage(StorageError::CompareFailed));
            let unknown = fault == Some(RuntimeErrorModel::Storage(StorageError::OutcomeUnknown));
            let full = fault == Some(RuntimeErrorModel::Storage(StorageError::Capacity));
            &&& lost ==> counts(counters.leadership_loss_count, after.leadership_loss_count)
            &&& !lost ==> after.leadership_loss_count == counters.leadership_loss_count
            &&& conflict ==> counts(counters.commit_conflict_count, after.commit_conflict_count)
            &&& !conflict ==> after.commit_conflict_count == counters.commit_conflict_count
            &&& unknown ==> counts(counters.unknown_outcome_count, after.unknown_outcome_count)
            &&& !unknown ==> after.unknown_outcome_count == counters.unknown_outcome_count
            &&& full ==> counts(counters.capacity_rejection_count, after.capacity_rejection_count)
            &&& !full ==> after.capacity_rejection_count == counters.capacity_rejection_count
        }),
{
}

/// A command is blamed for exactly the errors that it can cause: a sender that may not send it or is
/// not known, bytes that cannot be read, a state that it does not fit and a sequence that is used up.
pub proof fn law_commands_are_blamed_for_what_they_cause(error: RuntimeErrorModel)
    ensures
        blames_the_command(error) <==> match error {
            RuntimeErrorModel::UnauthorizedCommand => true,
            RuntimeErrorModel::UnknownSession => true,
            RuntimeErrorModel::Codec => true,
            RuntimeErrorModel::Coordinator(_) => true,
            RuntimeErrorModel::Control(_) => true,
            RuntimeErrorModel::ClaimSequence => true,
            _ => false,
        },
        is_declined_round(error) <==> match error {
            RuntimeErrorModel::Allocation(cause) => match cause {
                AllocationError::AutomaticPaused => true,
                AllocationError::Cooldown => true,
                AllocationError::ConcurrencyLimit => true,
                AllocationError::NoEligibleNode => true,
                AllocationError::Unreconciled => true,
                AllocationError::StaleLoad => false,
                AllocationError::InvalidView => false,
            },
            _ => false,
        },
{
}

/// A member that asks where a slot is gets a snapshot exactly when the answer was not published to
/// it; that no node can take the slot now is no error of the member, and every other error stays.
pub proof fn law_members_are_answered_once(result: Result<bool, RuntimeErrorModel>)
    ensures
        ({
            let nobody = result == Err::<bool, _>(RuntimeErrorModel::IneligibleTarget);
            let no_node = result == Err::<bool, _>(
                RuntimeErrorModel::Allocation(AllocationError::NoEligibleNode),
            );
            &&& shard_answer(result) == Ok::<_, RuntimeErrorModel>(true) <==> result == Ok::<
                _,
                RuntimeErrorModel,
            >(false)
            &&& shard_answer(result) == Ok::<_, RuntimeErrorModel>(false) <==> result == Ok::<
                _,
                RuntimeErrorModel,
            >(true) || nobody || no_node
            &&& result is Err && !nobody && !no_node ==> shard_answer(result) == result
            &&& singleton_answer(result) == Ok::<_, RuntimeErrorModel>(true) <==> result == Ok::<
                _,
                RuntimeErrorModel,
            >(false)
            &&& singleton_answer(result) == Ok::<_, RuntimeErrorModel>(false) <==> result == Ok::<
                _,
                RuntimeErrorModel,
            >(true) || nobody
            &&& result is Err && !nobody ==> singleton_answer(result) == result
        }),
{
}

} // verus!
