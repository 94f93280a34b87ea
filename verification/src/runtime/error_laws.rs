//! What errors say: each of them something of its own.
use vstd::prelude::*;

use crate::plan::{plan_error_message, PlanError};
use crate::region::{region_error_message, RegionError};
use crate::runtime::errors::{
    allocation_error_message, storage_error_message, AllocationError, RuntimeErrorModel,
    StorageError,
};

verus! {

/// Different errors of a region say different things.
pub proof fn law_errors_of_regions_say_their_own(one: RegionError, other: RegionError)
    ensures
        region_error_message(one) == region_error_message(other) <==> one == other,
{
    reveal_strlit("entity shard count is zero or exceeds the fixed bound");
    reveal_strlit("entity configuration is invalid");
    reveal_strlit("Region limit must be nonzero");
    reveal_strlit("Region home cache is full");
    reveal_strlit("Region lookup concurrency limit reached");
    reveal_strlit("Region message buffer is full");
    reveal_strlit("Region time arithmetic overflowed");
    reveal_strlit("Region message ID is zero");
    reveal_strlit("Region message deadline elapsed before buffering");
    reveal_strlit("Coordinator revision is stale or duplicated");
    reveal_strlit("handoff acknowledgement is from an unrelated session or revision");
    let (a, b) = (region_error_message(one), region_error_message(other));
    if a == b {
        assert((a.len(), a[0], a[7]) == (b.len(), b[0], b[7]));
    }
}

/// Different errors of the store say different things.
pub proof fn law_errors_of_stores_say_their_own(one: StorageError, other: StorageError)
    ensures
        storage_error_message(one) == storage_error_message(other) <==> one == other,
{
    reveal_strlit("placement store is unavailable");
    reveal_strlit("placement store deadline elapsed");
    reveal_strlit("placement store outcome is unknown");
    reveal_strlit("placement leadership was lost");
    reveal_strlit("placement store comparison failed");
    reveal_strlit("placement store capacity is exhausted");
    let (a, b) = (storage_error_message(one), storage_error_message(other));
    if a == b {
        assert((a.len(), a[0], a[1]) == (b.len(), b[0], b[1]));
    }
}

/// Different errors of an allocation say different things.
pub proof fn law_errors_of_allocations_say_their_own(one: AllocationError, other: AllocationError)
    ensures
        allocation_error_message(one) == allocation_error_message(other) <==> one == other,
{
    reveal_strlit("automatic rebalancing is paused");
    reveal_strlit("automatic rebalancing is cooling down");
    reveal_strlit("rebalance concurrency limit is reached");
    reveal_strlit("no eligible node is available");
    reveal_strlit("placement view is not reconciled");
    reveal_strlit("placement load is stale");
    reveal_strlit("placement view is invalid");
    let (a, b) = (allocation_error_message(one), allocation_error_message(other));
    if a == b {
        assert((a.len(), a[0], a[1]) == (b.len(), b[0], b[1]));
    }
}

/// Different errors of a plan say different things.
pub proof fn law_errors_of_plans_say_their_own(one: PlanError, other: PlanError)
    ensures
        plan_error_message(one) == plan_error_message(other) <==> one == other,
{
    reveal_strlit("rebalance plan move count is empty, unbounded, or over limit");
    reveal_strlit("rebalance plan contains an invalid move");
    reveal_strlit("rebalance plan contains the same shard more than once");
    reveal_strlit("rebalance plan does not contain the shard");
    reveal_strlit("shard generation changed before handoff");
    reveal_strlit("shard already has an active move");
    reveal_strlit("a move that entered handoff cannot be rolled back");
    reveal_strlit("rebalance move progress transition is illegal");
    let (a, b) = (plan_error_message(one), plan_error_message(other));
    if a == b {
        assert((a.len(), a[0], a[1]) == (b.len(), b[0], b[1]));
    }
}

/// Different kinds of errors of a leader say different things, and an allocation that was declined
/// also says why.
pub proof fn law_errors_of_leaders_say_their_own(one: RuntimeErrorModel, other: RuntimeErrorModel)
    ensures
        one.headline() == other.headline() ==> {
            &&& one is InvalidConfig <==> other is InvalidConfig
            &&& one is NotLeader <==> other is NotLeader
            &&& one is Codec <==> other is Codec
            &&& one is ControlClosed <==> other is ControlClosed
            &&& one is ControlBackpressure <==> other is ControlBackpressure
            &&& one is OperationClosed <==> other is OperationClosed
            &&& one is InvalidAdminOperation <==> other is InvalidAdminOperation
            &&& one is IdempotencyConflict <==> other is IdempotencyConflict
            &&& one is OperationCapacity <==> other is OperationCapacity
            &&& one is UnauthorizedCommand <==> other is UnauthorizedCommand
            &&& one is UnknownSession <==> other is UnknownSession
            &&& one is AssociationUnavailable <==> other is AssociationUnavailable
            &&& one is ClaimSequence <==> other is ClaimSequence
            &&& one is StaleProposal <==> other is StaleProposal
            &&& one is PlanConflict <==> other is PlanConflict
            &&& one is ConcurrencyLimit <==> other is ConcurrencyLimit
            &&& one is IneligibleTarget <==> other is IneligibleTarget
            &&& one is UnknownEntityConfig <==> other is UnknownEntityConfig
            &&& one is UnknownSingletonConfig <==> other is UnknownSingletonConfig
            &&& one is ConfigurationConflict <==> other is ConfigurationConflict
            &&& one is ConfigurationCapacity <==> other is ConfigurationCapacity
            &&& one is ShardOutOfRange <==> other is ShardOutOfRange
            &&& one is UnknownStrategy <==> other is UnknownStrategy
            &&& one is DuplicateStrategy <==> other is DuplicateStrategy
            &&& one is UnknownSlot <==> other is UnknownSlot
            &&& one is UnknownPlan <==> other is UnknownPlan
            &&& one is UnknownHandoff <==> other is UnknownHandoff
            &&& one is StaleHandoff <==> other is StaleHandoff
            &&& one is StaleMember <==> other is StaleMember
            &&& one is DrainNotReady <==> other is DrainNotReady
            &&& one is MemberNotReady <==> other is MemberNotReady
            &&& one is ClaimNotProven <==> other is ClaimNotProven
            &&& one is RevisionExhausted <==> other is RevisionExhausted
            &&& one is Storage <==> other is Storage
            &&& one is Coordinator <==> other is Coordinator
            &&& one is Control <==> other is Control
            &&& one is Allocation <==> other is Allocation
            &&& one is Plan <==> other is Plan
            &&& one is Handoff <==> other is Handoff
            &&& one is Association <==> other is Association
        },
        !(one is Allocation) ==> one.text() == one.headline(),
        one matches RuntimeErrorModel::Allocation(cause) ==> one.text() == one.headline() + ": "@
            + allocation_error_message(cause),
        one matches RuntimeErrorModel::Allocation(cause) ==> one.source() == Some(
            allocation_error_message(cause),
        ),
        one matches RuntimeErrorModel::Storage(cause) ==> one.source() == Some(
            storage_error_message(cause),
        ),
        one matches RuntimeErrorModel::Plan(cause) ==> one.source() == Some(
            plan_error_message(cause),
        ),
        one matches RuntimeErrorModel::Coordinator(cause) ==> one.source() == Some(cause),
        one matches RuntimeErrorModel::Control(cause) ==> one.source() == Some(cause),
        one matches RuntimeErrorModel::Handoff(cause) ==> one.source() == Some(cause),
        one matches RuntimeErrorModel::Association(cause) ==> one.source() == Some(cause),
        one.source() is Some ==> one.cause() == one.source()->0,
        one.source() is None ==> one.cause() == "none"@,
{
    reveal_strlit("Coordinator runtime configuration is invalid");
    reveal_strlit("Coordinator leadership campaign lost");
    reveal_strlit("Coordinator snapshot record codec failed");
    reveal_strlit("Coordinator control stream closed");
    reveal_strlit("Coordinator control queue is full");
    reveal_strlit("Coordinator operation stream closed");
    reveal_strlit("Coordinator admin operation is invalid");
    reveal_strlit("Coordinator admin operation ID conflicts with another command");
    reveal_strlit("Coordinator admin operation history is full");
    reveal_strlit("Coordinator received a command from an unauthorized session");
    reveal_strlit("Coordinator session is not registered");
    reveal_strlit("Coordinator association is unavailable");
    reveal_strlit("Coordinator claim sequence exhausted");
    reveal_strlit("rebalance proposal is stale or no longer matches placement truth");
    reveal_strlit("rebalance plan conflicts with active work");
    reveal_strlit("rebalance concurrency or target reservation limit reached");
    reveal_strlit("rebalance target is not a live eligible host");
    reveal_strlit("placement entity configuration is unknown");
    reveal_strlit("placement singleton configuration is unknown");
    reveal_strlit("placement configuration conflicts with an existing declaration");
    reveal_strlit("placement configuration capacity is exhausted");
    reveal_strlit("shard is outside the configured shard count");
    reveal_strlit("allocation strategy is not registered");
    reveal_strlit("allocation strategy ID/version is already registered");
    reveal_strlit("placement slot does not exist");
    reveal_strlit("rebalance plan does not exist");
    reveal_strlit("handoff state does not exist");
    reveal_strlit("handoff state no longer matches persisted placement truth");
    reveal_strlit("cluster member is stale");
    reveal_strlit("member drain is not ready to complete");
    reveal_strlit("cluster member is not ready");
    reveal_strlit("old claim invalidation could not be proven");
    reveal_strlit("Coordinator revision exhausted");
    reveal_strlit("Coordinator durable store failed");
    reveal_strlit("Coordinator reducer rejected state");
    reveal_strlit("Coordinator control codec failed");
    reveal_strlit("allocation strategy rejected the placement view");
    reveal_strlit("rebalance plan reducer rejected a transition");
    reveal_strlit("handoff reducer rejected a transition");
    reveal_strlit("Coordinator Association rejected reliable control admission");
    let (a, b) = (one.headline(), other.headline());
    if a == b {
        assert((a.len(), a[0], a[20]) == (b.len(), b[0], b[20]));
    }
}

} // verus!
