//! What each step of a plan does, stated over the moves before and after it.
use vstd::prelude::*;

use crate::plan::{
    is_move_of, move_index, moves_shard, MoveModel, MoveProgress, PlanError, PlanModel, PlanReason,
    PlanStatus, ProposalModel, ProposedMoveModel, RebalanceTrigger,
};
use crate::sorted::lemma_filter_members;
use crate::types::{
    AssignmentGeneration, CoordinatorTerm, NodeIncarnation, NodeModel, PlanRevision, ShardId,
    VersionModel,
};

verus! {

/// Whether the move at a place is the only one of a shard.
pub open spec fn is_sole_move(moves: Seq<MoveModel>, shard_id: ShardId, at: int) -> bool {
    &&& 0 <= at < moves.len()
    &&& moves[at].shard_id == shard_id
    &&& forall|j: int|
        0 <= j < moves.len() && j != at ==> (#[trigger] moves[j]).shard_id != shard_id
}

pub proof fn lemma_sole_move(moves: Seq<MoveModel>, shard_id: ShardId, at: int)
    requires
        is_sole_move(moves, shard_id, at),
    ensures
        moves_shard(moves, shard_id),
        move_index(moves, shard_id) == at,
{
    assert(is_move_of(moves, shard_id, at));
    let k = move_index(moves, shard_id);
    assert(is_move_of(moves, shard_id, k));
}

/// A move is begun exactly when its plan is open, no other move holds the slot, the move is pending
/// and its generation is current; then it alone is in handoff, and the plan runs.
pub proof fn law_a_move_begins_once(
    plan: PlanModel,
    shard_id: ShardId,
    at: int,
    generation: AssignmentGeneration,
    active: Option<u128>,
)
    requires
        is_sole_move(plan.moves, shard_id, at),
    ensures
        ({
            let (after, fault) = plan.begun(shard_id, generation, active);
            let open = plan.status == PlanStatus::Planned || plan.status == PlanStatus::Running;
            let ready = plan.moves[at].progress == MoveProgress::Pending
                && plan.moves[at].expected_generation == generation;
            &&& fault is None <==> open && active is None && ready
            &&& fault == Some(PlanError::MoveConflict) <==> !open || active is Some
            &&& fault == Some(PlanError::StaleGeneration) <==> open && active is None && !ready
            &&& fault is None ==> {
                &&& after.status == PlanStatus::Running
                &&& after.moves.len() == plan.moves.len()
                &&& after.moves[at].progress == MoveProgress::Handoff
                &&& after.moves[at].source == plan.moves[at].source
                &&& after.moves[at].target == plan.moves[at].target
                &&& after.moves[at].shard_id == shard_id
                &&& forall|j: int|
                    0 <= j < plan.moves.len() && j != at ==> #[trigger] after.moves[j]
                        == plan.moves[j]
                &&& after.plan_id == plan.plan_id && after.record_revision == plan.record_revision
            }
            &&& fault is Some ==> after.moves == plan.moves
        }),
{
    lemma_sole_move(plan.moves, shard_id, at);
}

/// A barrier is installed exactly on a move in handoff that has none; then it holds that version
/// and waits for those sessions, and nothing else changes.
pub proof fn law_a_barrier_holds_what_was_installed(
    plan: PlanModel,
    shard_id: ShardId,
    at: int,
    version: VersionModel,
    sessions: Set<NodeIncarnation>,
)
    requires
        is_sole_move(plan.moves, shard_id, at),
    ensures
        ({
            let (after, fault) = plan.barred(shard_id, version, sessions);
            &&& fault is None <==> plan.moves[at].progress == MoveProgress::Handoff
                && plan.moves[at].barrier_version is None
            &&& fault is Some ==> fault->0 == PlanError::IllegalProgress && after == plan
            &&& fault is None ==> {
                &&& after == (PlanModel { moves: after.moves, ..plan })
                &&& after.moves.len() == plan.moves.len()
                &&& after.moves[at] == (MoveModel {
                    barrier_version: Some(version),
                    barrier_sessions: sessions,
                    ..plan.moves[at]
                })
                &&& forall|j: int|
                    0 <= j < plan.moves.len() && j != at ==> #[trigger] after.moves[j]
                        == plan.moves[j]
            }
        }),
{
    lemma_sole_move(plan.moves, shard_id, at);
}

/// Whether every move of a plan is completed or cancelled.
pub open spec fn is_done(moves: Seq<MoveModel>) -> bool {
    forall|i: int|
        0 <= i < moves.len() ==> (#[trigger] moves[i]).progress == MoveProgress::Completed
            || moves[i].progress == MoveProgress::Cancelled
}

/// Whether some move of a plan has arrived.
pub open spec fn has_arrival(moves: Seq<MoveModel>) -> bool {
    exists|i: int| 0 <= i < moves.len() && (#[trigger] moves[i]).progress == MoveProgress::Completed
}

/// A pending move can be cancelled, one in handoff completed, and no other: then it alone changes,
/// and the plan is closed once nothing of it is left to do: as completed if a move has arrived, or
/// else as cancelled.
pub proof fn law_moves_end_as_they_stand(plan: PlanModel, shard_id: ShardId, at: int)
    requires
        is_sole_move(plan.moves, shard_id, at),
    ensures
        ({
            let (cancelled, refused) = plan.cancelled(shard_id);
            let (completed, rejected) = plan.completed(shard_id);
            let progress = plan.moves[at].progress;
            &&& refused is None <==> progress == MoveProgress::Pending
            &&& refused is Some ==> refused->0 == PlanError::CannotRollbackHandoff && cancelled
                == plan
            &&& rejected is None <==> progress == MoveProgress::Handoff
            &&& rejected is Some ==> rejected->0 == PlanError::IllegalProgress && completed == plan
            &&& refused is None ==> cancelled.moves == plan.moves.update(
                at,
                MoveModel { progress: MoveProgress::Cancelled, ..plan.moves[at] },
            )
            &&& rejected is None ==> completed.moves == plan.moves.update(
                at,
                MoveModel { progress: MoveProgress::Completed, ..plan.moves[at] },
            )
            &&& refused is None ==> cancelled == (PlanModel {
                moves: cancelled.moves,
                status: cancelled.status,
                ..plan
            })
            &&& rejected is None ==> completed == (PlanModel {
                moves: completed.moves,
                status: completed.status,
                ..plan
            })
            &&& refused is None && is_done(cancelled.moves) ==> cancelled.status == if has_arrival(
                cancelled.moves,
            ) {
                PlanStatus::Completed
            } else {
                PlanStatus::Cancelled
            }
            &&& refused is None && !is_done(cancelled.moves) ==> cancelled.status == plan.status
            &&& rejected is None && is_done(completed.moves) ==> completed.status
                == PlanStatus::Completed
            &&& rejected is None && !is_done(completed.moves) ==> completed.status == plan.status
        }),
{
    lemma_sole_move(plan.moves, shard_id, at);
    let (cancelled, refused) = plan.cancelled(shard_id);
    let (completed, rejected) = plan.completed(shard_id);
    if refused is None {
        let raw = plan.moves.update(
            at,
            MoveModel { progress: MoveProgress::Cancelled, ..plan.moves[at] },
        );
        assert(cancelled.moves == raw);
        if !is_done(raw) {
            let i = choose|i: int|
                0 <= i < raw.len() && !((#[trigger] raw[i]).progress == MoveProgress::Completed
                    || raw[i].progress == MoveProgress::Cancelled);
            assert(!crate::plan::is_settled(raw[i].progress));
        }
    }
    if rejected is None {
        let raw = plan.moves.update(
            at,
            MoveModel { progress: MoveProgress::Completed, ..plan.moves[at] },
        );
        assert(completed.moves == raw);
        assert(raw[at].progress == MoveProgress::Completed);
        if !is_done(raw) {
            let i = choose|i: int|
                0 <= i < raw.len() && !((#[trigger] raw[i]).progress == MoveProgress::Completed
                    || raw[i].progress == MoveProgress::Cancelled);
            assert(!crate::plan::is_settled(raw[i].progress));
        }
    }
}

/// A plan knows nothing of a shard that none of its moves is of.
pub proof fn law_unknown_shards_are_refused(
    plan: PlanModel,
    shard_id: ShardId,
    version: VersionModel,
    sessions: Set<NodeIncarnation>,
    generation: AssignmentGeneration,
)
    requires
        forall|j: int| 0 <= j < plan.moves.len() ==> (#[trigger] plan.moves[j]).shard_id != shard_id,
    ensures
        plan.barred(shard_id, version, sessions) == (plan, Some(PlanError::UnknownShard)),
        plan.cancelled(shard_id) == (plan, Some(PlanError::UnknownShard)),
        plan.completed(shard_id) == (plan, Some(PlanError::UnknownShard)),
        plan.begun(shard_id, generation, None).1 == Some(
            if plan.status == PlanStatus::Planned || plan.status == PlanStatus::Running {
                PlanError::UnknownShard
            } else {
                PlanError::MoveConflict
            },
        ),
        plan.begun(shard_id, generation, None).0.moves == plan.moves,
{
}

proof fn lemma_moves_without_fault(proposal: ProposalModel, entity_type: Seq<char>, n: int)
    requires
        0 <= n <= proposal.moves.len(),
    ensures
        proposal.first_move_fault(entity_type, n) is None <==> forall|i: int|
            0 <= i < n ==> {
                let movement = #[trigger] proposal.moves[i];
                &&& movement.domain == proposal.domain
                &&& movement.entity_type == entity_type
                &&& movement.source != movement.target
                &&& movement.estimated_weight > 0
                &&& forall|j: int|
                    0 <= j < i ==> (#[trigger] proposal.moves[j]).shard_id != movement.shard_id
            },
        proposal.first_move_fault(entity_type, n) matches Some(fault) ==> exists|i: int|
            0 <= i < n && {
                let movement = #[trigger] proposal.moves[i];
                let valid = movement.domain == proposal.domain && movement.entity_type
                    == entity_type && movement.source != movement.target
                    && movement.estimated_weight > 0;
                let repeated = exists|j: int|
                    0 <= j < i && (#[trigger] proposal.moves[j]).shard_id == movement.shard_id;
                ||| !valid && fault == PlanError::InvalidMove
                ||| valid && repeated && fault == PlanError::DuplicateShard
            },
    decreases n,
{
    if n > 0 {
        lemma_moves_without_fault(proposal, entity_type, n - 1);
        let last = proposal.moves[n - 1];
        if proposal.first_move_fault(entity_type, n - 1) is None {
            if proposal.move_fault(entity_type, n - 1) is None {
                assert forall|i: int| 0 <= i < n implies {
                    let movement = #[trigger] proposal.moves[i];
                    &&& movement.domain == proposal.domain
                    &&& movement.entity_type == entity_type
                    &&& movement.source != movement.target
                    &&& movement.estimated_weight > 0
                    &&& forall|j: int|
                        0 <= j < i ==> (#[trigger] proposal.moves[j]).shard_id != movement.shard_id
                } by {}
            } else {
                assert(proposal.moves[n - 1] == last);
            }
        } else {
            let fault = proposal.first_move_fault(entity_type, n - 1)->0;
            let i = choose|i: int|
                0 <= i < n - 1 && {
                    let movement = #[trigger] proposal.moves[i];
                    let valid = movement.domain == proposal.domain && movement.entity_type
                        == entity_type && movement.source != movement.target
                        && movement.estimated_weight > 0;
                    let repeated = exists|j: int|
                        0 <= j < i && (#[trigger] proposal.moves[j]).shard_id == movement.shard_id;
                    ||| !valid && fault == PlanError::InvalidMove
                    ||| valid && repeated && fault == PlanError::DuplicateShard
                };
            assert(0 <= i < n && proposal.moves[i] == proposal.moves[i]);
        }
    }
}

/// A plan comes of a proposal exactly when it has moves, not more than are allowed, each of the
/// domain and the entity type, from one node to another, with a weight, and no shard twice.
pub proof fn law_plans_come_of_sound_proposals(
    proposal: ProposalModel,
    entity_type: Seq<char>,
    maximum_moves: usize,
)
    ensures
        proposal.fault(entity_type, maximum_moves) is None <==> {
            &&& 0 < proposal.moves.len() <= maximum_moves
            &&& forall|i: int|
                0 <= i < proposal.moves.len() ==> {
                    let movement = #[trigger] proposal.moves[i];
                    &&& movement.domain == proposal.domain
                    &&& movement.entity_type == entity_type
                    &&& movement.source != movement.target
                    &&& movement.estimated_weight > 0
                    &&& forall|j: int|
                        0 <= j < i ==> (#[trigger] proposal.moves[j]).shard_id != movement.shard_id
                }
        },
        proposal.fault(entity_type, maximum_moves) == Some(PlanError::InvalidMoveCount) <==> !(0
            < proposal.moves.len() <= maximum_moves),
        proposal.fault(entity_type, maximum_moves) == Some(PlanError::DuplicateShard)
            ==> exists|i: int, j: int|
            0 <= j < i < proposal.moves.len() && (#[trigger] proposal.moves[j]).shard_id == (
            #[trigger] proposal.moves[i]).shard_id,
{
    lemma_moves_without_fault(proposal, entity_type, proposal.moves.len() as int);
}

/// Whether a proposed move is sound by itself: of the domain and the entity type, from one node to
/// another, and with a weight.
pub open spec fn is_sound_move(proposal: ProposalModel, entity_type: Seq<char>, i: int) -> bool {
    let movement = proposal.moves[i];
    &&& movement.domain == proposal.domain
    &&& movement.entity_type == entity_type
    &&& movement.source != movement.target
    &&& movement.estimated_weight > 0
}

/// Whether a proposed move is of a shard that an earlier one moves.
pub open spec fn repeats_a_shard(proposal: ProposalModel, i: int) -> bool {
    exists|j: int|
        0 <= j < i && (#[trigger] proposal.moves[j]).shard_id == proposal.moves[i].shard_id
}

/// Whether a proposed move is sound by itself and the first one of its shard.
pub open spec fn is_faultless_move(proposal: ProposalModel, entity_type: Seq<char>, i: int) -> bool {
    is_sound_move(proposal, entity_type, i) && !repeats_a_shard(proposal, i)
}

proof fn lemma_first_faulty_move(
    proposal: ProposalModel,
    entity_type: Seq<char>,
    at: int,
    n: int,
)
    requires
        0 <= at < n <= proposal.moves.len(),
        forall|i: int|
            0 <= i < at ==> #[trigger] is_faultless_move(proposal, entity_type, i),
        !is_faultless_move(proposal, entity_type, at),
    ensures
        proposal.first_move_fault(entity_type, n) == Some(
            if is_sound_move(proposal, entity_type, at) {
                PlanError::DuplicateShard
            } else {
                PlanError::InvalidMove
            },
        ),
    decreases n,
{
    if n > at + 1 {
        lemma_first_faulty_move(proposal, entity_type, at, n - 1);
    } else {
        lemma_moves_without_fault(proposal, entity_type, at);
        assert forall|i: int| 0 <= i < at implies {
            let movement = #[trigger] proposal.moves[i];
            &&& movement.domain == proposal.domain
            &&& movement.entity_type == entity_type
            &&& movement.source != movement.target
            &&& movement.estimated_weight > 0
            &&& forall|j: int|
                0 <= j < i ==> (#[trigger] proposal.moves[j]).shard_id != movement.shard_id
        } by {
            assert(is_faultless_move(proposal, entity_type, i));
        }
    }
}

/// Of several faulty moves the first is told: that it is unsound by itself, or else that its shard is
/// moved before.
pub proof fn law_the_first_faulty_move_is_told(
    proposal: ProposalModel,
    entity_type: Seq<char>,
    maximum_moves: usize,
    at: int,
)
    requires
        0 <= at < proposal.moves.len() <= maximum_moves,
        forall|i: int|
            0 <= i < at ==> #[trigger] is_faultless_move(proposal, entity_type, i),
        !is_faultless_move(proposal, entity_type, at),
    ensures
        proposal.fault(entity_type, maximum_moves) == Some(
            if is_sound_move(proposal, entity_type, at) {
                PlanError::DuplicateShard
            } else {
                PlanError::InvalidMove
            },
        ),
{
    lemma_first_faulty_move(proposal, entity_type, at, proposal.moves.len() as int);
}

/// The plan of a proposal does what was proposed: each move as it was proposed and still pending,
/// in the same order, under the reason of what triggered it, and nothing of it has been recorded.
pub proof fn law_plans_keep_what_was_proposed(
    proposal: ProposalModel,
    plan_id: u128,
    entity_type: Seq<char>,
    term: CoordinatorTerm,
)
    ensures
        ({
            let plan = proposal.planned(plan_id, entity_type, term);
            &&& plan.plan_id == plan_id
            &&& plan.domain == proposal.domain
            &&& plan.entity_type == entity_type
            &&& plan.coordinator_term == term
            &&& plan.base_version == proposal.base_version
            &&& plan.policy_id == proposal.policy_id
            &&& plan.policy_version == proposal.policy_version
            &&& plan.status == PlanStatus::Planned
            &&& plan.record_revision == PlanRevision(1)
            &&& plan.moves.len() == proposal.moves.len()
            &&& forall|i: int|
                0 <= i < proposal.moves.len() ==> {
                    let (movement, proposed) = (#[trigger] plan.moves[i], proposal.moves[i]);
                    &&& movement.shard_id == proposed.shard_id
                    &&& movement.expected_generation == proposed.expected_generation
                    &&& movement.source == proposed.source
                    &&& movement.target == proposed.target
                    &&& movement.estimated_weight == proposed.estimated_weight
                    &&& movement.progress == MoveProgress::Pending
                    &&& movement.barrier_version is None
                    &&& movement.barrier_sessions == Set::<NodeIncarnation>::empty()
                }
            &&& plan.reason == PlanReason::Recovery <==> proposal.trigger is Recovery
            &&& plan.reason == PlanReason::Drain <==> proposal.trigger is Drain
            &&& plan.reason == PlanReason::Manual <==> proposal.trigger is Manual
            &&& plan.reason == PlanReason::Automatic <==> proposal.trigger is Automatic
        }),
{
}

/// A plan reserves weight on the targets of those of its moves that are pending or in handoff, and
/// carries on after a change of leaders those that are in handoff.
pub proof fn law_plans_reserve_for_what_is_to_arrive(plan: PlanModel, node: NodeModel, weight: u64)
    ensures
        plan.reservations().contains((node, weight)) <==> exists|i: int|
            0 <= i < plan.moves.len() && (#[trigger] plan.moves[i]).target == node
                && plan.moves[i].estimated_weight == weight && (plan.moves[i].progress
                == MoveProgress::Pending || plan.moves[i].progress == MoveProgress::Handoff),
        forall|shard_id: ShardId| #[trigger]
            plan.forward_shards().contains(shard_id) <==> exists|i: int|
                0 <= i < plan.moves.len() && (#[trigger] plan.moves[i]).shard_id == shard_id
                    && plan.moves[i].progress == MoveProgress::Handoff,
{
    let active = |movement: MoveModel| crate::plan::is_active(movement.progress);
    let kept = plan.moves.filter(active);
    lemma_filter_members(plan.moves, active);
    let brought = |movement: MoveModel| (movement.target, movement.estimated_weight);
    assert(plan.reservations() =~= kept.map_values(brought));
    if plan.reservations().contains((node, weight)) {
        let k = choose|k: int|
            0 <= k < plan.reservations().len() && plan.reservations()[k] == (node, weight);
        assert(kept.contains(kept[k]));
        let i = choose|i: int| 0 <= i < plan.moves.len() && plan.moves[i] == kept[k];
        assert(plan.moves[i].target == node);
    }
    if exists|i: int|
        0 <= i < plan.moves.len() && (#[trigger] plan.moves[i]).target == node
            && plan.moves[i].estimated_weight == weight && (plan.moves[i].progress
            == MoveProgress::Pending || plan.moves[i].progress == MoveProgress::Handoff) {
        let i = choose|i: int|
            0 <= i < plan.moves.len() && (#[trigger] plan.moves[i]).target == node
                && plan.moves[i].estimated_weight == weight && (plan.moves[i].progress
                == MoveProgress::Pending || plan.moves[i].progress == MoveProgress::Handoff);
        assert(plan.moves.contains(plan.moves[i]));
        assert(kept.contains(plan.moves[i]));
        let k = choose|k: int| 0 <= k < kept.len() && kept[k] == plan.moves[i];
        assert(plan.reservations()[k] == (node, weight));
    }
    let forward = |movement: MoveModel| movement.progress == MoveProgress::Handoff;
    let held = plan.moves.filter(forward);
    lemma_filter_members(plan.moves, forward);
    assert(plan.forward_shards() =~= held.map_values(|movement: MoveModel| movement.shard_id));
    assert forall|shard_id: ShardId| #[trigger]
        plan.forward_shards().contains(shard_id) <==> exists|i: int|
            0 <= i < plan.moves.len() && (#[trigger] plan.moves[i]).shard_id == shard_id
                && plan.moves[i].progress == MoveProgress::Handoff by {
        if plan.forward_shards().contains(shard_id) {
            let k = choose|k: int|
                0 <= k < plan.forward_shards().len() && plan.forward_shards()[k] == shard_id;
            assert(held.contains(held[k]));
            let i = choose|i: int| 0 <= i < plan.moves.len() && plan.moves[i] == held[k];
            assert(plan.moves[i].shard_id == shard_id);
        }
        if exists|i: int|
            0 <= i < plan.moves.len() && (#[trigger] plan.moves[i]).shard_id == shard_id
                && plan.moves[i].progress == MoveProgress::Handoff {
            let i = choose|i: int|
                0 <= i < plan.moves.len() && (#[trigger] plan.moves[i]).shard_id == shard_id
                    && plan.moves[i].progress == MoveProgress::Handoff;
            assert(plan.moves.contains(plan.moves[i]));
            assert(held.contains(plan.moves[i]));
            let k = choose|k: int| 0 <= k < held.len() && held[k] == plan.moves[i];
            assert(plan.forward_shards()[k] == shard_id);
        }
    }
}

} // verus!
