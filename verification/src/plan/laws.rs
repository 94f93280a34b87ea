//! What every step of a plan keeps.
use vstd::prelude::*;

use crate::plan::{
    is_move_of, is_settled, move_index, moves_shard, MoveModel, MoveProgress, PlanError, PlanModel,
    PlanStatus, ProposalModel,
};
use crate::types::{
    AssignmentGeneration, CoordinatorTerm, NodeIncarnation, ShardId, VersionModel,
};

verus! {

/// One step that can be asked of a plan.
pub enum PlanStep {
    Begin { generation: AssignmentGeneration, active: Option<u128> },
    Bar { version: VersionModel, sessions: Set<NodeIncarnation> },
    Cancel,
    Complete,
}

/// The plan after a step, refused or not.
pub open spec fn stepped(plan: PlanModel, shard_id: ShardId, step: PlanStep) -> PlanModel {
    match step {
        PlanStep::Begin { generation, active } => plan.begun(shard_id, generation, active).0,
        PlanStep::Bar { version, sessions } => plan.barred(shard_id, version, sessions).0,
        PlanStep::Cancel => plan.cancelled(shard_id).0,
        PlanStep::Complete => plan.completed(shard_id).0,
    }
}

/// Whether two moves are of the same shard from the same source to the same target.
pub open spec fn same_movement(left: MoveModel, right: MoveModel) -> bool {
    &&& left.shard_id == right.shard_id
    &&& left.expected_generation == right.expected_generation
    &&& left.source == right.source
    &&& left.target == right.target
    &&& left.estimated_weight == right.estimated_weight
}

/// No step changes what a plan is of: its identity, and what each of its moves is to do.
pub proof fn law_steps_keep_the_moves(plan: PlanModel, shard_id: ShardId, step: PlanStep, i: int)
    requires
        0 <= i < plan.moves.len(),
    ensures
        stepped(plan, shard_id, step).plan_id == plan.plan_id,
        stepped(plan, shard_id, step).entity_type == plan.entity_type,
        stepped(plan, shard_id, step).reason == plan.reason,
        stepped(plan, shard_id, step).moves.len() == plan.moves.len(),
        same_movement(stepped(plan, shard_id, step).moves[i], plan.moves[i]),
{
    if moves_shard(plan.moves, shard_id) {
        let k = move_index(plan.moves, shard_id);
        assert(is_move_of(plan.moves, shard_id, k));
    }
}

/// A move that is completed or cancelled never changes again.
pub proof fn law_settled_moves_stay(plan: PlanModel, shard_id: ShardId, step: PlanStep, i: int)
    requires
        0 <= i < plan.moves.len(),
        is_settled(plan.moves[i].progress),
    ensures
        stepped(plan, shard_id, step).moves[i] == plan.moves[i],
{
    if moves_shard(plan.moves, shard_id) {
        let k = move_index(plan.moves, shard_id);
        assert(is_move_of(plan.moves, shard_id, k));
    }
}

/// A move that entered handoff is never rolled back: it stays there, or completes.
pub proof fn law_handoff_is_never_rolled_back(
    plan: PlanModel,
    shard_id: ShardId,
    step: PlanStep,
    i: int,
)
    requires
        0 <= i < plan.moves.len(),
        plan.moves[i].progress == MoveProgress::Handoff,
    ensures
        stepped(plan, shard_id, step).moves[i].progress == MoveProgress::Handoff || stepped(
            plan,
            shard_id,
            step,
        ).moves[i].progress == MoveProgress::Completed,
        is_move_of(plan.moves, shard_id, i) ==> plan.cancelled(shard_id) == (
            plan,
            Some(PlanError::CannotRollbackHandoff),
        ),
{
    if moves_shard(plan.moves, shard_id) {
        let k = move_index(plan.moves, shard_id);
        assert(is_move_of(plan.moves, shard_id, k));
        if is_move_of(plan.moves, shard_id, i) {
            if k < i {
                assert(plan.moves[k].shard_id != shard_id);
            }
            if i < k {
                assert(plan.moves[i].shard_id != shard_id);
            }
        }
    }
}

/// A barrier is installed at most once, and stays.
pub proof fn law_barrier_is_installed_once(
    plan: PlanModel,
    shard_id: ShardId,
    step: PlanStep,
    i: int,
)
    requires
        0 <= i < plan.moves.len(),
        plan.moves[i].barrier_version is Some,
    ensures
        stepped(plan, shard_id, step).moves[i].barrier_version == plan.moves[i].barrier_version,
        stepped(plan, shard_id, step).moves[i].barrier_sessions == plan.moves[i].barrier_sessions,
{
    if moves_shard(plan.moves, shard_id) {
        let k = move_index(plan.moves, shard_id);
        assert(is_move_of(plan.moves, shard_id, k));
    }
}

/// Whether a plan is closed.
pub open spec fn is_closed(plan: PlanModel) -> bool {
    plan.status == PlanStatus::Completed || plan.status == PlanStatus::Cancelled
}

/// Whether each move of a plan is settled.
pub open spec fn all_settled(plan: PlanModel) -> bool {
    forall|i: int| 0 <= i < plan.moves.len() ==> is_settled((#[trigger] plan.moves[i]).progress)
}

/// A plan is closed exactly when each of its moves is settled: every step keeps it so.
pub proof fn law_plan_closes_with_its_last_move(
    plan: PlanModel,
    shard_id: ShardId,
    step: PlanStep,
)
    requires
        is_closed(plan) == all_settled(plan),
    ensures
        is_closed(stepped(plan, shard_id, step)) == all_settled(stepped(plan, shard_id, step)),
{
    let next = stepped(plan, shard_id, step);
    if moves_shard(plan.moves, shard_id) {
        let k = move_index(plan.moves, shard_id);
        assert(is_move_of(plan.moves, shard_id, k));
        if next.moves == plan.moves {
            assert(all_settled(next) == all_settled(plan));
        } else {
            assert(!is_settled(plan.moves[k].progress));
            assert(!all_settled(plan));
            match step {
                PlanStep::Begin { .. } => {
                    assert(!is_settled(next.moves[k].progress));
                },
                PlanStep::Bar { .. } => {
                    assert(!is_settled(next.moves[k].progress));
                },
                PlanStep::Cancel => {
                    let raw = plan.with_move(
                        shard_id,
                        MoveModel { progress: MoveProgress::Cancelled, ..plan.moves[k] },
                    );
                    assert(next == raw.refreshed());
                    assert(next.moves == raw.moves);
                },
                PlanStep::Complete => {
                    let raw = plan.with_move(
                        shard_id,
                        MoveModel { progress: MoveProgress::Completed, ..plan.moves[k] },
                    );
                    assert(next == raw.refreshed());
                    assert(next.moves == raw.moves);
                },
            }
        }
    } else {
        assert(next.moves == plan.moves);
        assert(all_settled(next) == all_settled(plan));
    }
}

/// A plan that comes of a proposal moves no shard twice, and each move is pending.
pub proof fn law_planned_moves_are_distinct(
    proposal: ProposalModel,
    plan_id: u128,
    entity_type: Seq<char>,
    term: CoordinatorTerm,
    maximum_moves: usize,
    i: int,
    j: int,
)
    requires
        proposal.fault(entity_type, maximum_moves) is None,
        0 <= i < j < proposal.moves.len(),
    ensures
        ({
            let plan = proposal.planned(plan_id, entity_type, term);
            &&& plan.moves[i].shard_id != plan.moves[j].shard_id
            &&& plan.moves[i].progress == MoveProgress::Pending
            &&& plan.moves[i].source != plan.moves[i].target
        }),
{
    lemma_no_fault(proposal, entity_type, proposal.moves.len() as int, i);
    lemma_no_fault(proposal, entity_type, proposal.moves.len() as int, j);
}

proof fn lemma_no_fault(proposal: ProposalModel, entity_type: Seq<char>, n: int, i: int)
    requires
        proposal.first_move_fault(entity_type, n) is None,
        0 <= i < n,
    ensures
        proposal.move_fault(entity_type, i) is None,
    decreases n,
{
    if i < n - 1 {
        lemma_no_fault(proposal, entity_type, n - 1, i);
    }
}

/// A pending move of an open plan whose generation still holds can be begun, barred and
/// completed, in that order.
pub proof fn law_a_move_runs_through(
    plan: PlanModel,
    shard_id: ShardId,
    generation: AssignmentGeneration,
    version: VersionModel,
    sessions: Set<NodeIncarnation>,
)
    requires
        plan.status == PlanStatus::Planned || plan.status == PlanStatus::Running,
        moves_shard(plan.moves, shard_id),
        plan.movement(shard_id).progress == MoveProgress::Pending,
        plan.movement(shard_id).expected_generation == generation,
        plan.movement(shard_id).barrier_version is None,
    ensures
        ({
            let (begun, refused_begin) = plan.begun(shard_id, generation, None);
            let (barred, refused_bar) = begun.barred(shard_id, version, sessions);
            let (done, refused_end) = barred.completed(shard_id);
            &&& refused_begin is None
            &&& refused_bar is None
            &&& refused_end is None
            &&& begun.status == PlanStatus::Running
            &&& done.moves[move_index(plan.moves, shard_id)].progress == MoveProgress::Completed
        }),
{
    let k = move_index(plan.moves, shard_id);
    assert(is_move_of(plan.moves, shard_id, k));
    let begun = plan.begun(shard_id, generation, None).0;
    lemma_index_kept(plan.moves, begun.moves, shard_id, k);
    let barred = begun.barred(shard_id, version, sessions).0;
    lemma_index_kept(begun.moves, barred.moves, shard_id, k);
}

/// Moves of the same shards are found at the same places.
pub proof fn lemma_index_kept(
    before: Seq<MoveModel>,
    after: Seq<MoveModel>,
    shard_id: ShardId,
    k: int,
)
    requires
        is_move_of(before, shard_id, k),
        before.len() == after.len(),
        forall|i: int| 0 <= i < before.len() ==> (#[trigger] after[i]).shard_id == before[i].shard_id,
    ensures
        moves_shard(after, shard_id),
        move_index(after, shard_id) == k,
{
    assert(is_move_of(after, shard_id, k)) by {
        assert forall|j: int| 0 <= j < k implies (#[trigger] after[j]).shard_id != shard_id by {
            assert(before[j].shard_id != shard_id);
        }
    }
    let m = move_index(after, shard_id);
    assert(is_move_of(after, shard_id, m));
    if m < k {
        assert(after[m].shard_id != shard_id);
    }
    if k < m {
        assert(after[k].shard_id != shard_id);
    }
}

} // verus!
