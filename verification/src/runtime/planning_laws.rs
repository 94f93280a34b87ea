//! What plans are accepted, started and set aside, stated over plans, slots and sessions.
use vstd::prelude::*;

use crate::plan::step_laws::is_sole_move;
use crate::plan::{
    is_move_of, move_index, moves_shard, MoveModel, MoveProgress, PlanError, PlanModel, PlanReason,
    PlanStatus, ProposalModel,
};
use crate::runtime::errors::RuntimeErrorModel;
use crate::runtime::members::{DomainMemberStatus, MemberStatus};
use crate::runtime::moves::{
    all_moves, handoffs_passing, moves_of, moves_of_first, passes, planned_move, weight_toward,
    MoveFilter, PlannedMoveModel,
};
use crate::runtime::planning::{
    cancelled_first, closed_plans, given_way, pending_shards, plan_weight, preempted_first,
    priority_of, revised, ClosedPlan, ClosedPlanModel, PlanUpdateModel,
};
use crate::runtime::state::LeaderModel;
use crate::sorted::{ascending, lemma_filter_members, lemma_ranked_lists, ranked, Ranked};
use crate::types::{
    version_later, NodeModel, PlacementSlotState, PlanRevision, ShardId, SlotModel,
};

verus! {

/// What the first `n` moves of a plan add up to, each counted as told.
pub open spec fn tally_of(plan: PlanModel, each: spec_fn(PlanModel, MoveModel) -> nat, n: int) -> nat
    decreases n,
{
    if n <= 0 {
        0
    } else {
        tally_of(plan, each, n - 1) + each(plan, plan.moves[n - 1])
    }
}

/// What the moves of the first `n` of some plans add up to, each counted as told.
pub open spec fn tally(
    plans: Map<u128, PlanModel>,
    ids: Seq<u128>,
    each: spec_fn(PlanModel, MoveModel) -> nat,
    n: int,
) -> nat
    decreases n,
{
    if n <= 0 {
        0
    } else {
        let plan = plans[ids[n - 1]];
        tally(plans, ids, each, n - 1) + tally_of(plan, each, plan.moves.len() as int)
    }
}

/// What all moves of all plans add up to, each counted as told.
pub open spec fn total(
    plans: Map<u128, PlanModel>,
    each: spec_fn(PlanModel, MoveModel) -> nat,
) -> nat {
    let ids = ranked::<u128>(plans.dom());
    tally(plans, ids, each, ids.len() as int)
}

/// The weight that a move brings to a node, while it is pending or in handoff.
pub open spec fn brought_to(node: NodeModel) -> spec_fn(PlanModel, MoveModel) -> nat {
    |plan: PlanModel, movement: MoveModel|
        if movement.target == node && (movement.progress == MoveProgress::Pending
            || movement.progress == MoveProgress::Handoff) {
            movement.estimated_weight as nat
        } else {
            0
        }
}

/// The weight that a move is to bring to a node, however far it is.
pub open spec fn meant_for(node: NodeModel) -> spec_fn(PlanModel, MoveModel) -> nat {
    |plan: PlanModel, movement: MoveModel|
        if movement.target == node {
            movement.estimated_weight as nat
        } else {
            0
        }
}

/// One for a move in handoff that is picked, nothing for any other.
pub open spec fn one_for(picked: spec_fn(PlanModel, MoveModel) -> bool) -> spec_fn(
    PlanModel,
    MoveModel,
) -> nat {
    |plan: PlanModel, movement: MoveModel|
        if movement.progress == MoveProgress::Handoff && picked(plan, movement) {
            1
        } else {
            0
        }
}

pub proof fn lemma_weights_add_up(
    front: Seq<PlannedMoveModel>,
    back: Seq<PlannedMoveModel>,
    node: NodeModel,
)
    ensures
        weight_toward(front + back, node) == weight_toward(front, node) + weight_toward(
            back,
            node,
        ),
    decreases back.len(),
{
    if back.len() == 0 {
        assert(front + back =~= front);
    } else {
        lemma_weights_add_up(front, back.drop_last(), node);
        assert((front + back).drop_last() =~= front + back.drop_last());
    }
}

pub proof fn lemma_weight_of_plan(plan: PlanModel, node: NodeModel, n: int)
    requires
        0 <= n <= plan.moves.len(),
    ensures
        weight_toward(moves_of(plan).subrange(0, n), node) == tally_of(plan, brought_to(node), n),
    decreases n,
{
    if n > 0 {
        lemma_weight_of_plan(plan, node, n - 1);
        let longer = moves_of(plan).subrange(0, n);
        assert(longer.drop_last() =~= moves_of(plan).subrange(0, n - 1));
        assert(longer.last() == planned_move(plan, plan.moves[n - 1]));
    }
}

proof fn lemma_weight_of_plans(
    plans: Map<u128, PlanModel>,
    ids: Seq<u128>,
    node: NodeModel,
    n: int,
)
    requires
        0 <= n <= ids.len(),
    ensures
        weight_toward(moves_of_first(plans, ids, n), node) == tally(
            plans,
            ids,
            brought_to(node),
            n,
        ),
    decreases n,
{
    if n > 0 {
        lemma_weight_of_plans(plans, ids, node, n - 1);
        let plan = plans[ids[n - 1]];
        lemma_weights_add_up(moves_of_first(plans, ids, n - 1), moves_of(plan), node);
        lemma_weight_of_plan(plan, node, plan.moves.len() as int);
        assert(moves_of(plan).subrange(0, plan.moves.len() as int) =~= moves_of(plan));
    }
}

proof fn lemma_weight_on_the_way(leader: LeaderModel, node: NodeModel)
    ensures
        weight_toward(all_moves(leader.plans), node) == total(leader.plans, brought_to(node)),
{
    let ids = ranked::<u128>(leader.plans.dom());
    lemma_weight_of_plans(leader.plans, ids, node, ids.len() as int);
}

proof fn lemma_plan_weight(plan: PlanModel, node: NodeModel, n: int)
    requires
        0 <= n <= plan.moves.len(),
    ensures
        plan_weight(plan.moves, node, n) == tally_of(plan, meant_for(node), n),
    decreases n,
{
    if n > 0 {
        lemma_plan_weight(plan, node, n - 1);
    }
}

proof fn lemma_tally_grows(
    plan: PlanModel,
    each: spec_fn(PlanModel, MoveModel) -> nat,
    m: int,
    n: int,
)
    requires
        m <= n,
    ensures
        tally_of(plan, each, m) <= tally_of(plan, each, n),
    decreases n - m,
{
    if m < n {
        lemma_tally_grows(plan, each, m, n - 1);
    }
}

/// Whether a node is a connected member that is up, under that very identity, and hosts the
/// entities of a type.
pub open spec fn is_eligible(leader: LeaderModel, node: NodeModel, entity_type: Seq<char>) -> bool {
    let session = leader.sessions[node.incarnation];
    &&& leader.sessions.contains_key(node.incarnation)
    &&& session.hello.node == node
    &&& session.record.status == MemberStatus::Up
    &&& session.domain_record is Some
    &&& session.domain_record->0.status == DomainMemberStatus::Up
    &&& session.hello.hosted_entity_types.contains(entity_type)
}

/// Whether a slot stands as a move of a plan found it: on the source of the move, running under the
/// generation that it expects, held by no move, and not written after the plan was made.
pub open spec fn is_untouched(slot: SlotModel, plan: PlanModel, movement: MoveModel) -> bool {
    &&& slot.owner == Some(movement.source)
    &&& slot.assignment_generation == movement.expected_generation
    &&& slot.state == PlacementSlotState::Running
    &&& slot.active_move is None
    &&& !version_later(slot.version, plan.base_version)
}

/// Whether a node has room for a weight; one that declares all the room there is always has.
pub open spec fn has_room(leader: LeaderModel, node: NodeModel, weight: nat) -> bool {
    let capacity = leader.sessions[node.incarnation].hello.capacity_units;
    weight <= capacity || capacity == u64::MAX
}

/// A move is refused for what is first wrong with it: that its slot is not stored, that the slot is
/// not as the move found it, that the target may not host it, or that the target has no room for it
/// beside what is on its way there and what the plan brought up to it.
pub proof fn law_moves_are_refused_for_a_reason(
    leader: LeaderModel,
    plan: PlanModel,
    at: int,
    slot: Option<SlotModel>,
)
    requires
        0 <= at < plan.moves.len(),
    ensures
        ({
            let movement = plan.moves[at];
            let rejection = leader.move_rejection(plan, at, slot);
            let weight = total(leader.plans, brought_to(movement.target)) + tally_of(
                plan,
                meant_for(movement.target),
                at + 1,
            );
            let stands = slot is Some && is_untouched(slot->0, plan, movement);
            let eligible = is_eligible(leader, movement.target, plan.entity_type);
            &&& rejection == Some(RuntimeErrorModel::UnknownSlot) <==> slot is None
            &&& rejection == Some(RuntimeErrorModel::StaleProposal) <==> slot is Some && !stands
            &&& rejection == Some(RuntimeErrorModel::IneligibleTarget) <==> stands && !eligible
            &&& rejection == Some(RuntimeErrorModel::ConcurrencyLimit) <==> stands && eligible
                && !has_room(leader, movement.target, weight)
            &&& rejection is None <==> stands && eligible && has_room(
                leader,
                movement.target,
                weight,
            )
        }),
{
    lemma_weight_on_the_way(leader, plan.moves[at].target);
    lemma_plan_weight(plan, plan.moves[at].target, at + 1);
}

proof fn lemma_no_rejection(
    leader: LeaderModel,
    plan: PlanModel,
    slots: Seq<Option<SlotModel>>,
    n: int,
)
    ensures
        leader.first_rejection(plan, slots, n) is None <==> forall|i: int|
            0 <= i < n ==> leader.move_rejection(plan, i, #[trigger] slots[i]) is None,
        leader.first_rejection(plan, slots, n) is Some ==> exists|i: int|
            0 <= i < n && leader.first_rejection(plan, slots, n) == leader.move_rejection(
                plan,
                i,
                #[trigger] slots[i],
            ) && forall|j: int|
                0 <= j < i ==> leader.move_rejection(plan, j, #[trigger] slots[j]) is None,
    decreases n,
{
    if n > 0 {
        lemma_no_rejection(leader, plan, slots, n - 1);
        if leader.first_rejection(plan, slots, n - 1) is None {
            let last = slots[n - 1];
            if leader.move_rejection(plan, n - 1, last) is None {
                assert forall|i: int| 0 <= i < n implies leader.move_rejection(
                    plan,
                    i,
                    #[trigger] slots[i],
                ) is None by {}
            } else {
                assert(leader.first_rejection(plan, slots, n) == leader.move_rejection(
                    plan,
                    n - 1,
                    slots[n - 1],
                ));
            }
        } else {
            let i = choose|i: int|
                0 <= i < n - 1 && leader.first_rejection(plan, slots, n - 1)
                    == leader.move_rejection(plan, i, #[trigger] slots[i]) && forall|j: int|
                    0 <= j < i ==> leader.move_rejection(plan, j, #[trigger] slots[j]) is None;
            assert(leader.first_rejection(plan, slots, n) == leader.move_rejection(
                plan,
                i,
                slots[i],
            ));
        }
    }
}

/// A plan is accepted exactly when every slot of it stands as its move found it, the target of each
/// of its moves may host it, and each target has room for all that the plan brings there beside
/// what is on its way there already.
pub proof fn law_accepted_plans_fit(
    leader: LeaderModel,
    plan: PlanModel,
    slots: Seq<Option<SlotModel>>,
)
    requires
        slots.len() == plan.moves.len(),
    ensures
        leader.first_rejection(plan, slots, plan.moves.len() as int) is None <==> forall|i: int|
            0 <= i < plan.moves.len() ==> {
                let movement = #[trigger] plan.moves[i];
                &&& slots[i] is Some
                &&& is_untouched(slots[i]->0, plan, movement)
                &&& is_eligible(leader, movement.target, plan.entity_type)
                &&& has_room(
                    leader,
                    movement.target,
                    total(leader.plans, brought_to(movement.target)) + tally_of(
                        plan,
                        meant_for(movement.target),
                        plan.moves.len() as int,
                    ),
                )
            },
        leader.first_rejection(plan, slots, plan.moves.len() as int) is Some ==> exists|i: int|
            0 <= i < plan.moves.len() && leader.first_rejection(
                plan,
                slots,
                plan.moves.len() as int,
            ) == leader.move_rejection(plan, i, #[trigger] slots[i]),
{
    let n = plan.moves.len() as int;
    lemma_no_rejection(leader, plan, slots, n);
    assert forall|i: int| 0 <= i < n implies {
        let movement = #[trigger] plan.moves[i];
        let each = meant_for(movement.target);
        let there = total(leader.plans, brought_to(movement.target));
        &&& leader.move_rejection(plan, i, slots[i]) is None <==> slots[i] is Some && is_untouched(
            slots[i]->0,
            plan,
            movement,
        ) && is_eligible(leader, movement.target, plan.entity_type) && has_room(
            leader,
            movement.target,
            there + tally_of(plan, each, i + 1),
        )
        &&& tally_of(plan, each, i + 1) <= tally_of(plan, each, n)
    } by {
        law_moves_are_refused_for_a_reason(leader, plan, i, slots[i]);
        lemma_tally_grows(plan, meant_for(plan.moves[i].target), i + 1, n);
    }
    if leader.first_rejection(plan, slots, n) is None {
        assert forall|i: int| 0 <= i < n implies {
            let movement = #[trigger] plan.moves[i];
            &&& slots[i] is Some
            &&& is_untouched(slots[i]->0, plan, movement)
            &&& is_eligible(leader, movement.target, plan.entity_type)
            &&& has_room(
                leader,
                movement.target,
                total(leader.plans, brought_to(movement.target)) + tally_of(
                    plan,
                    meant_for(movement.target),
                    n,
                ),
            )
        } by {
            assert(leader.move_rejection(plan, i, slots[i]) is None);
            let node = plan.moves[i].target;
            let k = lemma_last_toward(plan, node, i, n);
            assert(leader.move_rejection(plan, k, slots[k]) is None);
            assert(plan.moves[k].target == node);
        }
    }
}

/// The last move toward a node brings the tally to what all of them come to.
proof fn lemma_last_toward(plan: PlanModel, node: NodeModel, at: int, n: int) -> (k: int)
    requires
        0 <= at < n <= plan.moves.len(),
        plan.moves[at].target == node,
    ensures
        0 <= k < n,
        plan.moves[k].target == node,
        tally_of(plan, meant_for(node), k + 1) == tally_of(plan, meant_for(node), n),
    decreases n,
{
    if plan.moves[n - 1].target == node {
        n - 1
    } else {
        lemma_last_toward(plan, node, at, n - 1)
    }
}

pub proof fn lemma_handoffs_add_up(
    front: Seq<PlannedMoveModel>,
    back: Seq<PlannedMoveModel>,
    filter: MoveFilter<Seq<char>>,
)
    ensures
        handoffs_passing(front + back, filter) == handoffs_passing(front, filter)
            + handoffs_passing(back, filter),
    decreases back.len(),
{
    if back.len() == 0 {
        assert(front + back =~= front);
    } else {
        lemma_handoffs_add_up(front, back.drop_last(), filter);
        assert((front + back).drop_last() =~= front + back.drop_last());
    }
}

pub proof fn lemma_handoffs_of_plan(
    plan: PlanModel,
    filter: MoveFilter<Seq<char>>,
    picked: spec_fn(PlanModel, MoveModel) -> bool,
    n: int,
)
    requires
        0 <= n <= plan.moves.len(),
        forall|movement: MoveModel|
            passes(#[trigger] planned_move(plan, movement), filter) == picked(plan, movement),
    ensures
        handoffs_passing(moves_of(plan).subrange(0, n), filter) == tally_of(
            plan,
            one_for(picked),
            n,
        ),
    decreases n,
{
    if n > 0 {
        lemma_handoffs_of_plan(plan, filter, picked, n - 1);
        let longer = moves_of(plan).subrange(0, n);
        assert(longer.drop_last() =~= moves_of(plan).subrange(0, n - 1));
        assert(longer.last() == planned_move(plan, plan.moves[n - 1]));
    }
}

proof fn lemma_handoffs_of_plans(
    plans: Map<u128, PlanModel>,
    ids: Seq<u128>,
    filter: MoveFilter<Seq<char>>,
    picked: spec_fn(PlanModel, MoveModel) -> bool,
    n: int,
)
    requires
        0 <= n <= ids.len(),
        forall|plan: PlanModel, movement: MoveModel|
            passes(#[trigger] planned_move(plan, movement), filter) == picked(plan, movement),
    ensures
        handoffs_passing(moves_of_first(plans, ids, n), filter) == tally(
            plans,
            ids,
            one_for(picked),
            n,
        ),
    decreases n,
{
    if n > 0 {
        lemma_handoffs_of_plans(plans, ids, filter, picked, n - 1);
        let plan = plans[ids[n - 1]];
        lemma_handoffs_add_up(moves_of_first(plans, ids, n - 1), moves_of(plan), filter);
        lemma_handoffs_of_plan(plan, filter, picked, plan.moves.len() as int);
        assert(moves_of(plan).subrange(0, plan.moves.len() as int) =~= moves_of(plan));
    }
}

/// A move may be started exactly while fewer moves are in handoff than are allowed: in the cluster,
/// of the entity type of its plan, away from its source, and toward its target.
pub proof fn law_moves_start_below_the_limits(
    leader: LeaderModel,
    plan_id: u128,
    shard_id: ShardId,
    at: int,
)
    requires
        leader.plans.contains_key(plan_id),
        is_sole_move(leader.plans[plan_id].moves, shard_id, at),
    ensures
        ({
            let plan = leader.plans[plan_id];
            let movement = plan.moves[at];
            let limits = leader.config.rebalance_limits;
            let under_way = |picked: spec_fn(PlanModel, MoveModel) -> bool|
                total(leader.plans, one_for(picked));
            &&& leader.can_start(plan_id, shard_id) is Ok
            &&& leader.can_start(plan_id, shard_id)->Ok_0 <==> {
                &&& under_way(|p: PlanModel, m: MoveModel| true) < limits.concurrent_cluster
                &&& under_way(|p: PlanModel, m: MoveModel| p.entity_type == plan.entity_type)
                    < limits.concurrent_entity
                &&& under_way(|p: PlanModel, m: MoveModel| m.source == movement.source)
                    < limits.concurrent_source
                &&& under_way(|p: PlanModel, m: MoveModel| m.target == movement.target)
                    < limits.concurrent_target
            }
        }),
{
    let plan = leader.plans[plan_id];
    assert(is_move_of(plan.moves, shard_id, at));
    let k = move_index(plan.moves, shard_id);
    assert(is_move_of(plan.moves, shard_id, k));
    assert(k == at);
    let movement = plan.moves[at];
    let ids = ranked::<u128>(leader.plans.dom());
    let n = ids.len() as int;
    lemma_handoffs_of_plans(
        leader.plans,
        ids,
        MoveFilter::Any,
        |p: PlanModel, m: MoveModel| true,
        n,
    );
    lemma_handoffs_of_plans(
        leader.plans,
        ids,
        MoveFilter::OfEntity(plan.entity_type),
        |p: PlanModel, m: MoveModel| p.entity_type == plan.entity_type,
        n,
    );
    lemma_handoffs_of_plans(
        leader.plans,
        ids,
        MoveFilter::FromSource(movement.source),
        |p: PlanModel, m: MoveModel| m.source == movement.source,
        n,
    );
    lemma_handoffs_of_plans(
        leader.plans,
        ids,
        MoveFilter::ToTarget(movement.target),
        |p: PlanModel, m: MoveModel| m.target == movement.target,
        n,
    );
}

/// No move of a plan that is not there, or of a shard that the plan does not move, may be started.
pub proof fn law_unknown_moves_are_not_started(
    leader: LeaderModel,
    plan_id: u128,
    shard_id: ShardId,
)
    ensures
        !leader.plans.contains_key(plan_id) ==> leader.can_start(plan_id, shard_id) == Err::<
            bool,
            _,
        >(RuntimeErrorModel::UnknownPlan),
        leader.plans.contains_key(plan_id) && (forall|j: int|
            0 <= j < leader.plans[plan_id].moves.len() ==> (
            #[trigger] leader.plans[plan_id].moves[j]).shard_id != shard_id) ==> leader.can_start(
            plan_id,
            shard_id,
        ) == Err::<bool, _>(RuntimeErrorModel::UnknownSlot),
{
}

/// A proposal becomes a plan exactly when it was made against the current version, has no more
/// moves than a round may have, is sound, and, if it is automatic, no automatic plan of the entity
/// type is still planned or running.
pub proof fn law_proposals_are_admitted_when_current(
    leader: LeaderModel,
    proposal: ProposalModel,
    entity_type: Seq<char>,
)
    ensures
        ({
            let rejection = leader.proposal_rejection(proposal, entity_type);
            let current = proposal.base_version == leader.version && proposal.moves.len()
                <= leader.config.rebalance_limits.moves_per_round;
            let fault = proposal.fault(entity_type, leader.config.maximum_plan_moves);
            let rival = proposal.trigger is Automatic && exists|id: u128| #[trigger]
                leader.plans.contains_key(id) && leader.plans[id].entity_type == entity_type
                    && leader.plans[id].reason == PlanReason::Automatic && (leader.plans[id].status
                    == PlanStatus::Planned || leader.plans[id].status == PlanStatus::Running);
            &&& rejection is None <==> current && fault is None && !rival
            &&& rejection == Some(RuntimeErrorModel::StaleProposal) <==> !current
            &&& rejection == Some(RuntimeErrorModel::PlanConflict) <==> current && fault is None
                && rival
            &&& current && fault is Some ==> rejection == Some(RuntimeErrorModel::Plan(fault->0))
        }),
{
    if exists|id: u128| #[trigger]
        leader.plans.contains_key(id) && leader.plans[id].entity_type == entity_type
            && leader.plans[id].reason == PlanReason::Automatic && (leader.plans[id].status
            == PlanStatus::Planned || leader.plans[id].status == PlanStatus::Running) {
        let id = choose|id: u128| #[trigger]
            leader.plans.contains_key(id) && leader.plans[id].entity_type == entity_type
                && leader.plans[id].reason == PlanReason::Automatic && (leader.plans[id].status
                == PlanStatus::Planned || leader.plans[id].status == PlanStatus::Running);
        assert(leader.plans.contains_key(id) && crate::runtime::planning::is_open(
            leader.plans[id].status,
        ));
        assert(leader.has_automatic_plan(entity_type));
    }
}

/// Recovery comes before draining, draining before what an operator asks, and that before automatic
/// moves.
pub proof fn law_urgency_is_ordered(one: PlanReason, other: PlanReason)
    ensures
        priority_of(PlanReason::Recovery) < priority_of(PlanReason::Drain),
        priority_of(PlanReason::Drain) < priority_of(PlanReason::Manual),
        priority_of(PlanReason::Manual) < priority_of(PlanReason::Automatic),
        priority_of(one) == priority_of(other) ==> one == other,
{
}

/// Whether no two moves of a plan are of one shard.
pub open spec fn is_distinct(moves: Seq<MoveModel>) -> bool {
    forall|i: int, j: int|
        0 <= i < j < moves.len() ==> (#[trigger] moves[i]).shard_id != (#[trigger] moves[j]).shard_id
}

proof fn lemma_cancelling_in_turn(plan: PlanModel, shards: Seq<ShardId>, n: int)
    requires
        is_distinct(plan.moves),
        shards == pending_shards(plan),
        0 <= n <= shards.len(),
    ensures
        ({
            let (after, fault) = cancelled_first(plan, shards, n);
            &&& fault is None
            &&& after == (PlanModel { moves: after.moves, status: after.status, ..plan })
            &&& after.moves.len() == plan.moves.len()
            &&& forall|i: int|
                0 <= i < plan.moves.len() ==> #[trigger] after.moves[i] == if plan.moves[i].progress
                    == MoveProgress::Pending && shards.subrange(0, n).contains(
                    plan.moves[i].shard_id,
                ) {
                    MoveModel { progress: MoveProgress::Cancelled, ..plan.moves[i] }
                } else {
                    plan.moves[i]
                }
        }),
    decreases n,
{
    if n > 0 {
        lemma_cancelling_in_turn(plan, shards, n - 1);
        let before = cancelled_first(plan, shards, n - 1).0;
        let after = cancelled_first(plan, shards, n).0;
        let shard_id = shards[n - 1];
        let shorter = shards.subrange(0, n - 1);
        let longer = shards.subrange(0, n);
        assert(longer =~= shorter.push(shard_id));
        let k = lemma_pending_shard(plan, n - 1);
        lemma_pending_once(plan, n - 1);
        assert(is_sole_move(before.moves, shard_id, k)) by {
            assert(before.moves[k].shard_id == shard_id);
            assert forall|j: int| 0 <= j < before.moves.len() && j != k implies (
            #[trigger] before.moves[j]).shard_id != shard_id by {
                assert(before.moves[j].shard_id == plan.moves[j].shard_id);
                if j < k {
                    assert(plan.moves[j].shard_id != plan.moves[k].shard_id);
                } else {
                    assert(plan.moves[k].shard_id != plan.moves[j].shard_id);
                }
            }
        }
        assert(before.moves[k] == plan.moves[k]);
        crate::plan::step_laws::law_moves_end_as_they_stand(before, shard_id, k);
        assert forall|i: int| 0 <= i < plan.moves.len() implies #[trigger] after.moves[i]
            == if plan.moves[i].progress == MoveProgress::Pending && longer.contains(
            plan.moves[i].shard_id,
        ) {
            MoveModel { progress: MoveProgress::Cancelled, ..plan.moves[i] }
        } else {
            plan.moves[i]
        } by {
            assert(before.moves[i] == before.moves[i]);
            if i == k {
                assert(longer[n - 1] == shard_id);
                assert(longer.contains(shard_id));
            } else {
                assert(plan.moves[i].shard_id != shard_id) by {
                    if i < k {
                        assert(plan.moves[i].shard_id != plan.moves[k].shard_id);
                    } else {
                        assert(plan.moves[k].shard_id != plan.moves[i].shard_id);
                    }
                }
                if longer.contains(plan.moves[i].shard_id) {
                    let m = choose|m: int|
                        0 <= m < longer.len() && longer[m] == plan.moves[i].shard_id;
                    assert(shorter[m] == plan.moves[i].shard_id);
                }
                if shorter.contains(plan.moves[i].shard_id) {
                    let m = choose|m: int|
                        0 <= m < shorter.len() && shorter[m] == plan.moves[i].shard_id;
                    assert(longer[m] == plan.moves[i].shard_id);
                }
            }
        }
    } else {
        assert(shards.subrange(0, 0) =~= Seq::<ShardId>::empty());
    }
}

/// A shard that is listed as pending is that of a pending move.
proof fn lemma_pending_shard(plan: PlanModel, at: int) -> (k: int)
    requires
        0 <= at < pending_shards(plan).len(),
    ensures
        0 <= k < plan.moves.len(),
        plan.moves[k].shard_id == pending_shards(plan)[at],
        plan.moves[k].progress == MoveProgress::Pending,
{
    let pending = |movement: MoveModel| movement.progress == MoveProgress::Pending;
    let kept = plan.moves.filter(pending);
    lemma_filter_members(plan.moves, pending);
    assert(kept.contains(kept[at]));
    choose|k: int| 0 <= k < plan.moves.len() && plan.moves[k] == kept[at]
}

/// A shard of a plan with distinct moves is listed as pending once.
proof fn lemma_pending_once(plan: PlanModel, at: int)
    requires
        is_distinct(plan.moves),
        0 <= at < pending_shards(plan).len(),
    ensures
        !pending_shards(plan).subrange(0, at).contains(pending_shards(plan)[at]),
{
    let pending = |movement: MoveModel| movement.progress == MoveProgress::Pending;
    let kept = plan.moves.filter(pending);
    assert(plan.moves.no_duplicates());
    lemma_filter_members(plan.moves, pending);
    let shorter = pending_shards(plan).subrange(0, at);
    if shorter.contains(pending_shards(plan)[at]) {
        let m = choose|m: int| 0 <= m < shorter.len() && shorter[m] == pending_shards(plan)[at];
        assert(kept[m].shard_id == kept[at].shard_id);
        assert(kept.contains(kept[m]) && kept.contains(kept[at]));
        let i = choose|i: int| 0 <= i < plan.moves.len() && plan.moves[i] == kept[m];
        let j = choose|j: int| 0 <= j < plan.moves.len() && plan.moves[j] == kept[at];
        assert(kept[m] != kept[at]);
        if i < j {
            assert(plan.moves[i].shard_id != plan.moves[j].shard_id);
        } else {
            assert(plan.moves[j].shard_id != plan.moves[i].shard_id);
        }
    }
}

/// The shards of a plan that are still to be started are those of its pending moves.
pub proof fn law_pending_shards_are_those_of_pending_moves(plan: PlanModel, shard_id: ShardId)
    ensures
        pending_shards(plan).contains(shard_id) <==> exists|i: int|
            0 <= i < plan.moves.len() && (#[trigger] plan.moves[i]).shard_id == shard_id
                && plan.moves[i].progress == MoveProgress::Pending,
{
    let pending = |movement: MoveModel| movement.progress == MoveProgress::Pending;
    let kept = plan.moves.filter(pending);
    lemma_filter_members(plan.moves, pending);
    if pending_shards(plan).contains(shard_id) {
        let at = choose|at: int|
            0 <= at < pending_shards(plan).len() && pending_shards(plan)[at] == shard_id;
        let k = lemma_pending_shard(plan, at);
        assert(plan.moves[k].shard_id == shard_id);
    }
    if exists|i: int|
        0 <= i < plan.moves.len() && (#[trigger] plan.moves[i]).shard_id == shard_id
            && plan.moves[i].progress == MoveProgress::Pending {
        let i = choose|i: int|
            0 <= i < plan.moves.len() && (#[trigger] plan.moves[i]).shard_id == shard_id
                && plan.moves[i].progress == MoveProgress::Pending;
        assert(plan.moves.contains(plan.moves[i]));
        assert(kept.contains(plan.moves[i]));
        let k = choose|k: int| 0 <= k < kept.len() && kept[k] == plan.moves[i];
        assert(pending_shards(plan)[k] == shard_id);
    }
}

/// A plan that gives way loses exactly its pending moves: each is cancelled, every other is as it
/// was, and the plan is recorded anew.
pub proof fn law_giving_way_cancels_what_is_pending(plan: PlanModel, i: int)
    requires
        is_distinct(plan.moves),
        0 <= i < plan.moves.len(),
    ensures
        given_way(plan) is Err <==> plan.record_revision.0 == u64::MAX,
        given_way(plan) is Err ==> given_way(plan) == Err::<PlanModel, _>(
            RuntimeErrorModel::RevisionExhausted,
        ),
        given_way(plan) matches Ok(after) ==> {
            &&& after.moves.len() == plan.moves.len()
            &&& after.record_revision.0 == plan.record_revision.0 + 1
            &&& after.plan_id == plan.plan_id && after.reason == plan.reason
            &&& plan.moves[i].progress == MoveProgress::Pending ==> after.moves[i] == (MoveModel {
                progress: MoveProgress::Cancelled,
                ..plan.moves[i]
            })
            &&& plan.moves[i].progress != MoveProgress::Pending ==> after.moves[i] == plan.moves[i]
        },
{
    let shards = pending_shards(plan);
    lemma_cancelling_in_turn(plan, shards, shards.len() as int);
    assert(shards.subrange(0, shards.len() as int) =~= shards);
    law_pending_shards_are_those_of_pending_moves(plan, plan.moves[i].shard_id);
    let after = cancelled_first(plan, shards, shards.len() as int).0;
    assert(after.moves[i] == after.moves[i]);
}

proof fn lemma_preempted(
    plans: Map<u128, PlanModel>,
    ids: Seq<u128>,
    incoming: PlanReason,
    n: int,
    at: int,
)
    requires
        0 <= at < n <= ids.len(),
        preempted_first(plans, ids, incoming, n).1 is None,
    ensures
        ({
            let plan = plans[ids[at]];
            let updates = preempted_first(plans, ids, incoming, n).0;
            priority_of(plan.reason) > priority_of(incoming) && pending_shards(plan).len() > 0
                ==> exists|k: int|
                0 <= k < updates.len() && (#[trigger] updates[k]).expected == plan && Ok::<
                    PlanModel,
                    RuntimeErrorModel,
                >(updates[k].plan) == given_way(plan)
        }),
    decreases n,
{
    let updates = preempted_first(plans, ids, incoming, n).0;
    let before = preempted_first(plans, ids, incoming, n - 1).0;
    let plan = plans[ids[at]];
    if at < n - 1 {
        lemma_preempted(plans, ids, incoming, n - 1, at);
        if priority_of(plan.reason) > priority_of(incoming) && pending_shards(plan).len() > 0 {
            let k = choose|k: int|
                0 <= k < before.len() && (#[trigger] before[k]).expected == plan && Ok::<
                    PlanModel,
                    RuntimeErrorModel,
                >(before[k].plan) == given_way(plan);
            assert(updates[k] == before[k]);
        }
    } else if priority_of(plan.reason) > priority_of(incoming) && pending_shards(plan).len() > 0 {
        assert(updates[before.len() as int].expected == plan);
    }
}

/// Something urgent takes precedence over everything less urgent: each plan of a lesser reason that
/// still has a pending move gives way, unless the record of one can be counted up no more.
pub proof fn law_less_urgent_plans_give_way(
    leader: LeaderModel,
    incoming: PlanReason,
    id: u128,
    i: int,
)
    requires
        leader.plans.dom().finite(),
        leader.preempted(incoming).1 is None,
        leader.plans.contains_key(id),
        0 <= i < leader.plans[id].moves.len(),
        leader.plans[id].moves[i].progress == MoveProgress::Pending,
        priority_of(leader.plans[id].reason) > priority_of(incoming),
    ensures
        exists|k: int|
            0 <= k < leader.preempted(incoming).0.len() && (
            #[trigger] leader.preempted(incoming).0[k]).expected == leader.plans[id]
                && given_way(leader.plans[id]) == Ok::<PlanModel, RuntimeErrorModel>(
                leader.preempted(incoming).0[k].plan,
            ),
{
    let plan = leader.plans[id];
    lemma_ranked_lists::<u128>(leader.plans.dom());
    let ids = ranked::<u128>(leader.plans.dom());
    assert(ids.to_set().contains(id));
    let at = choose|at: int| 0 <= at < ids.len() && ids[at] == id;
    assert(plan.moves[i].shard_id == plan.moves[i].shard_id);
    law_pending_shards_are_those_of_pending_moves(plan, plan.moves[i].shard_id);
    assert(pending_shards(plan).len() > 0);
    lemma_preempted(leader.plans, ids, incoming, ids.len() as int, at);
}

/// A pending move of a plan that is known can be cancelled: the plan is stored anew over what it
/// was, with that move cancelled and every other as it was.
pub proof fn law_cancelling_takes_back_one_move(
    leader: LeaderModel,
    plan_id: u128,
    shard_id: ShardId,
    at: int,
)
    requires
        leader.plans.contains_key(plan_id),
        is_sole_move(leader.plans[plan_id].moves, shard_id, at),
    ensures
        ({
            let plan = leader.plans[plan_id];
            let cancellation = leader.cancellation(plan_id, shard_id);
            let pending = plan.moves[at].progress == MoveProgress::Pending;
            &&& cancellation is Ok <==> pending && plan.record_revision.0 < u64::MAX
            &&& !pending ==> cancellation == Err::<PlanUpdateModel, _>(
                RuntimeErrorModel::Plan(PlanError::CannotRollbackHandoff),
            )
            &&& cancellation matches Ok(update) ==> {
                &&& update.expected == plan
                &&& update.plan.record_revision.0 == plan.record_revision.0 + 1
                &&& update.plan.plan_id == plan.plan_id
                &&& update.plan.moves == plan.moves.update(
                    at,
                    MoveModel { progress: MoveProgress::Cancelled, ..plan.moves[at] },
                )
            }
        }),
{
    crate::plan::step_laws::law_moves_end_as_they_stand(leader.plans[plan_id], shard_id, at);
}

/// Of the closed plans the oldest are forgotten, as many as are too many, and no other: a plan is
/// older if it was made against an earlier version, or against the same under a lower identity.
pub proof fn law_the_oldest_plans_are_forgotten(leader: LeaderModel, gone: u128, other: u128)
    requires
        leader.plans.dom().finite(),
        leader.forgettable().contains(gone),
    ensures
        leader.plans.contains_key(gone),
        leader.plans[gone].status != PlanStatus::Planned,
        leader.plans[gone].status != PlanStatus::Running,
        leader.plans.contains_key(other) && leader.plans[other].status != PlanStatus::Planned
            && leader.plans[other].status != PlanStatus::Running && !leader.forgettable().contains(
            other,
        ) ==> {
            let (old, kept) = (leader.plans[gone].base_version, leader.plans[other].base_version);
            version_later(kept, old) || (kept == old && other > gone)
        },
        closed_plans(leader.plans).len() > leader.config.maximum_completed_plan_history,
        leader.forgettable().len() == closed_plans(leader.plans).len()
            - leader.config.maximum_completed_plan_history,
{
    lemma_closed_finite(leader.plans);
    let closed = closed_plans(leader.plans);
    lemma_ranked_lists::<ClosedPlan>(closed);
    let list = ranked::<ClosedPlan>(closed);
    let kept = leader.config.maximum_completed_plan_history;
    let excess = if list.len() > kept {
        list.len() - kept
    } else {
        0
    };
    let forgotten = leader.forgettable();
    assert(forgotten.len() == excess);
    let i = choose|i: int| 0 <= i < forgotten.len() && forgotten[i] == gone;
    assert(list.subrange(0, excess)[i] == list[i]);
    assert(list.to_set().contains(list[i]));
    if leader.plans.contains_key(other) && leader.plans[other].status != PlanStatus::Planned
        && leader.plans[other].status != PlanStatus::Running && !forgotten.contains(other) {
        let key = ClosedPlan { base_version: leader.plans[other].base_version, plan_id: other };
        assert(closed.contains(key));
        assert(list.to_set().contains(key));
        let j = choose|j: int| 0 <= j < list.len() && list[j] == key;
        if j < excess {
            assert(list.subrange(0, excess)[j] == key);
            assert(forgotten[j] == other);
        }
        assert(ClosedPlan::less(list[i], list[j]));
    }
}

proof fn lemma_closed_finite(plans: Map<u128, PlanModel>)
    requires
        plans.dom().finite(),
    ensures
        closed_plans(plans).finite(),
{
    let name = |id: u128| ClosedPlan { base_version: plans[id].base_version, plan_id: id };
    let named = plans.dom().map(name);
    plans.dom().lemma_map_finite(name);
    assert forall|key: ClosedPlanModel| closed_plans(plans).contains(key) implies named.contains(
        key,
    ) by {
        assert(plans.dom().contains(key.plan_id));
        assert(name(key.plan_id) == key);
    }
    vstd::set_lib::lemma_set_subset_finite(named, closed_plans(plans));
}

/// A plan is recorded anew under the next number, and is otherwise as it was.
pub proof fn law_records_are_numbered(plan: PlanModel)
    ensures
        revised(plan) is Err <==> plan.record_revision.0 == u64::MAX,
        revised(plan) matches Err(error) ==> error == RuntimeErrorModel::RevisionExhausted,
        revised(plan) matches Ok(next) ==> next == (PlanModel {
            record_revision: PlanRevision((plan.record_revision.0 + 1) as u64),
            ..plan
        }),
{
}

proof fn lemma_first_refused_move(
    leader: LeaderModel,
    plan: PlanModel,
    slots: Seq<Option<SlotModel>>,
    at: int,
    n: int,
)
    requires
        0 <= at < n,
        forall|i: int|
            0 <= i < at ==> leader.move_rejection(plan, i, #[trigger] slots[i]) is None,
        leader.move_rejection(plan, at, slots[at]) is Some,
    ensures
        leader.first_rejection(plan, slots, at) is None,
        leader.first_rejection(plan, slots, n) == leader.move_rejection(plan, at, slots[at]),
    decreases n,
{
    if n > at + 1 {
        lemma_first_refused_move(leader, plan, slots, at, n - 1);
    } else {
        lemma_none_refused(leader, plan, slots, at);
    }
}

proof fn lemma_none_refused(
    leader: LeaderModel,
    plan: PlanModel,
    slots: Seq<Option<SlotModel>>,
    n: int,
)
    requires
        0 <= n,
        forall|i: int|
            0 <= i < n ==> leader.move_rejection(plan, i, #[trigger] slots[i]) is None,
    ensures
        leader.first_rejection(plan, slots, n) is None,
    decreases n,
{
    if n > 0 {
        lemma_none_refused(leader, plan, slots, n - 1);
        assert(leader.move_rejection(plan, n - 1, slots[n - 1]) is None);
    }
}

/// Of several moves of a plan that are refused the first is told.
pub proof fn law_the_first_refused_move_is_told(
    leader: LeaderModel,
    plan: PlanModel,
    slots: Seq<Option<SlotModel>>,
    at: int,
)
    requires
        0 <= at < plan.moves.len(),
        forall|i: int|
            0 <= i < at ==> leader.move_rejection(plan, i, #[trigger] slots[i]) is None,
        leader.move_rejection(plan, at, slots[at]) is Some,
    ensures
        leader.first_rejection(plan, slots, plan.moves.len() as int) == leader.move_rejection(
            plan,
            at,
            slots[at],
        ),
{
    lemma_first_refused_move(leader, plan, slots, at, plan.moves.len() as int);
}

} // verus!
