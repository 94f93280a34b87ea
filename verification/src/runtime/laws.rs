//! What a leader keeps, whatever it decides.
use vstd::prelude::*;

use crate::order::{lemma_lex_asymmetric, lemma_lex_transitive};
use crate::plan::{
    is_move_of, move_index, moves_shard, MoveModel, MoveProgress, PlanModel, PlanReason,
};
use crate::region::EntityConfigModel;
use crate::runtime::allocation::{is_placed, placement_rank, ranks_before};
use crate::runtime::errors::RuntimeErrorModel;
use crate::runtime::handoff::HandoffModel;
use crate::runtime::handoffs::{releases_source_claim, source_may_claim};
use crate::runtime::members::SingletonModel;
use crate::runtime::moves::{
    all_moves, handoffs_passing, moves_of, moves_of_first, MoveFilter, PlannedMoveModel,
};
use crate::runtime::planning::{
    cancelled_first, closed_plans, given_way, is_open, pending_shards, preempted_first,
    priority_of, slot_matches, ClosedPlan, ClosedPlanModel,
};
use crate::runtime::recovery::{CommitStyle, PlanRecoveryModel};
use crate::runtime::state::LeaderModel;
use crate::sorted::{lemma_ranked_lists, ranked, Ranked};
use crate::types::{
    version_later, AssignmentGeneration, ClaimModel, NodeIncarnation, NodeKey, NodeModel,
    PlacementSlotState, ShardId, SlotKeyModel, SlotModel,
};

verus! {

/// Whatever a leader writes to a slot is at a version that comes right after that of the leader.
pub proof fn law_slots_are_written_at_the_next_version(
    leader: LeaderModel,
    key: SlotKeyModel,
    plan_id: u128,
    shard_id: ShardId,
    slot: Option<SlotModel>,
    claim: Option<ClaimModel>,
    owner: NodeModel,
    generation: AssignmentGeneration,
    fingerprint: Seq<u8>,
)
    ensures
        leader.beginning(plan_id, shard_id, slot) matches Ok(reservation) ==> Some(
            reservation.slot.version,
        ) == leader.version.spec_next(),
        leader.draining(key, slot) matches Ok(written) ==> Some(written.version)
            == leader.version.spec_next(),
        leader.stop_failed(slot) matches Ok(written) ==> Some(written.version)
            == leader.version.spec_next(),
        leader.activated(key, slot) matches Ok(written) ==> Some(written.version)
            == leader.version.spec_next(),
        leader.first_ready(owner, generation, slot) matches Ok(written) ==> Some(written.version)
            == leader.version.spec_next(),
        leader.first_slot(key, fingerprint, owner) matches Ok(written) ==> Some(written.version)
            == leader.version.spec_next(),
        leader.replacement(key, slot, claim).slots.len() > 0 ==> Some(
            leader.replacement(key, slot, claim).slots[0].version,
        ) == leader.version.spec_next(),
        leader.version.spec_next() matches Some(next) ==> version_later(next, leader.version),
{
}

/// The authority over a slot passes only through a fence: a slot is handed to the target of its
/// handoff only after it was stored as fenced, and the claim of the source, if there is one, is
/// withdrawn before.
pub proof fn law_authority_passes_through_a_fence(
    leader: LeaderModel,
    key: SlotKeyModel,
    slot: SlotModel,
    claim: Option<ClaimModel>,
)
    requires
        leader.handoffs.contains_key(key),
        leader.replacement(key, Some(slot), claim).fault is None,
    ensures
        ({
            let replaced = leader.replacement(key, Some(slot), claim);
            let handoff = leader.handoffs[key];
            let last = replaced.slots.last();
            &&& replaced.slots.len() > 0
            &&& last.owner == Some(handoff.target)
            &&& last.assignment_generation == handoff.target_generation
            &&& last.state == PlacementSlotState::Allocating
            &&& last.active_move == Some(handoff.plan_id)
            &&& slot.state == PlacementSlotState::Fenced || (replaced.slots.len() == 2
                && replaced.slots[0].state == PlacementSlotState::Fenced && replaced.slots[0].owner
                == slot.owner && version_later(replaced.slots[1].version, replaced.slots[0].version)
                && replaced.withdrawn == claim)
            &&& replaced.withdrawn matches Some(withdrawn) ==> withdrawn.owner == handoff.source
                && withdrawn.assignment_generation == handoff.source_generation
        }),
{
}

/// A handoff runs forward from its beginning to its end, whichever leaders carry it on: what one
/// step writes is what the next one asks for, and in the end the slot runs on the target, under
/// the generation of the target, and belongs to no move.
pub proof fn law_a_handoff_runs_forward(
    begun: LeaderModel,
    stopping: LeaderModel,
    replacing: LeaderModel,
    ending: LeaderModel,
    key: SlotKeyModel,
    shard_id: ShardId,
    slot: SlotModel,
    handoff: HandoffModel,
)
    requires
        begun.beginning(handoff.plan_id, shard_id, Some(slot)) is Ok,
        stopping.handoffs.contains_key(key) && stopping.handoffs[key] == handoff,
        replacing.handoffs.contains_key(key) && replacing.handoffs[key] == handoff,
        ending.handoffs.contains_key(key) && ending.handoffs[key] == handoff,
        stopping.version.spec_next() is Some,
        replacing.version.spec_next() is Some,
        (replacing.version.spec_next()->0).spec_next() is Some,
        ending.version.spec_next() is Some,
    ensures
        ({
            let entered = begun.beginning(handoff.plan_id, shard_id, Some(slot))->Ok_0.slot;
            let stopped = stopping.draining(key, Some(entered));
            let replaced = replacing.replacement(key, Some(stopped->Ok_0), None);
            let active = ending.activated(key, Some(replaced.slots.last()));
            &&& stopped is Ok
            &&& replaced.fault is None
            &&& active is Ok
            &&& active->Ok_0.state == PlacementSlotState::Running
            &&& active->Ok_0.owner == Some(handoff.target)
            &&& active->Ok_0.assignment_generation == handoff.target_generation
            &&& active->Ok_0.active_move is None
            &&& active->Ok_0.barrier_sessions == Set::<NodeIncarnation>::empty()
            &&& active->Ok_0.key == slot.key
        }),
{
}

/// A claim is granted to the owner of a slot only, for the generation of the slot, and where the
/// owner had one of that generation before, with a higher sequence.
pub proof fn law_claims_follow_ownership(
    leader: LeaderModel,
    node: NodeModel,
    slot: SlotModel,
    previous: Option<ClaimModel>,
)
    ensures
        leader.reconciled_claim(node, slot, previous) matches Ok(Some(claim)) ==> {
            &&& slot.owner == Some(node)
            &&& is_placed(slot)
            &&& claim.owner == node
            &&& claim.slot == slot.key
            &&& claim.assignment_generation == slot.assignment_generation
            &&& claim.coordinator_term == leader.term
            &&& (previous is Some && previous->0.assignment_generation
                == slot.assignment_generation) ==> claim.grant_sequence.0
                > previous->0.grant_sequence.0
        },
        slot.owner != Some(node) ==> leader.reconciled_claim(node, slot, previous) == Ok::<
            Option<ClaimModel>,
            RuntimeErrorModel,
        >(None),
{
}

/// Cancelling pending moves leaves every move alone that is in handoff.
proof fn lemma_cancelling_spares_handoffs(
    plan: PlanModel,
    shards: Seq<ShardId>,
    n: int,
    i: int,
)
    requires
        0 <= i < plan.moves.len(),
        plan.moves[i].progress == MoveProgress::Handoff,
    ensures
        cancelled_first(plan, shards, n).0.moves.len() == plan.moves.len(),
        cancelled_first(plan, shards, n).0.moves[i] == plan.moves[i],
        cancelled_first(plan, shards, n).0.reason == plan.reason,
        cancelled_first(plan, shards, n).0.plan_id == plan.plan_id,
    decreases n,
{
    if n > 0 {
        lemma_cancelling_spares_handoffs(plan, shards, n - 1, i);
        let before = cancelled_first(plan, shards, n - 1).0;
        if moves_shard(before.moves, shards[n - 1]) {
            let k = move_index(before.moves, shards[n - 1]);
            assert(is_move_of(before.moves, shards[n - 1], k));
        }
    }
}

proof fn lemma_preempted_updates(
    plans: Map<u128, PlanModel>,
    ids: Seq<u128>,
    incoming: PlanReason,
    n: int,
    at: int,
)
    requires
        n <= ids.len(),
        0 <= at < preempted_first(plans, ids, incoming, n).0.len(),
    ensures
        ({
            let update = preempted_first(plans, ids, incoming, n).0[at];
            &&& exists|k: int|
                0 <= k < ids.len() && update.expected == #[trigger] plans[ids[k]]
            &&& priority_of(update.expected.reason) > priority_of(incoming)
            &&& given_way(update.expected) == Ok::<PlanModel, RuntimeErrorModel>(update.plan)
        }),
    decreases n,
{
    if n > 0 {
        let (updates, fault) = preempted_first(plans, ids, incoming, n - 1);
        if at < updates.len() {
            lemma_preempted_updates(plans, ids, incoming, n - 1, at);
        } else {
            assert(preempted_first(plans, ids, incoming, n).0[at].expected == plans[ids[n - 1]]);
        }
    }
}

/// Something urgent takes precedence over what is less urgent only, and never over a move that is
/// in handoff: such a move is left as it is.
pub proof fn law_preemption_spares_handoffs(
    leader: LeaderModel,
    incoming: PlanReason,
    at: int,
    i: int,
)
    requires
        0 <= at < leader.preempted(incoming).0.len(),
        0 <= i < leader.preempted(incoming).0[at].expected.moves.len(),
        leader.preempted(incoming).0[at].expected.moves[i].progress == MoveProgress::Handoff,
    ensures
        ({
            let update = leader.preempted(incoming).0[at];
            &&& priority_of(update.expected.reason) > priority_of(incoming)
            &&& update.plan.moves.len() == update.expected.moves.len()
            &&& update.plan.moves[i] == update.expected.moves[i]
        }),
{
    let ids = ranked::<u128>(leader.plans.dom());
    lemma_preempted_updates(leader.plans, ids, incoming, ids.len() as int, at);
    let plan = leader.preempted(incoming).0[at].expected;
    let shards = pending_shards(plan);
    lemma_cancelling_spares_handoffs(plan, shards, shards.len() as int, i);
}

/// The closed ones of finitely many plans are as many as the plans that are closed.
proof fn lemma_closed_plans_finite(plans: Map<u128, PlanModel>)
    requires
        plans.dom().finite(),
    ensures
        closed_plans(plans).finite(),
{
    let named = plans.dom().map(
        |id: u128| ClosedPlan { base_version: plans[id].base_version, plan_id: id },
    );
    plans.dom().lemma_map_finite(
        |id: u128| ClosedPlan { base_version: plans[id].base_version, plan_id: id },
    );
    assert forall|key: ClosedPlanModel| closed_plans(plans).contains(key) implies named.contains(
        key,
    ) by {
        assert(plans.dom().contains(key.plan_id));
    }
    assert(closed_plans(plans).subset_of(named));
    vstd::set_lib::lemma_set_subset_finite(named, closed_plans(plans));
}

/// The history of closed plans is bounded: once the oldest are forgotten, no more are left than
/// are to be kept, and no open plan is among the forgotten.
pub proof fn law_plan_history_is_bounded(leader: LeaderModel)
    requires
        leader.plans.dom().finite(),
    ensures
        closed_plans(leader.plans.remove_keys(leader.forgettable().to_set())).len()
            <= leader.config.maximum_completed_plan_history,
        forall|i: int|
            0 <= i < leader.forgettable().len() ==> {
                let id = #[trigger] leader.forgettable()[i];
                leader.plans.contains_key(id) && !is_open(leader.plans[id].status)
            },
{
    lemma_closed_plans_finite(leader.plans);
    let closed = closed_plans(leader.plans);
    lemma_ranked_lists::<ClosedPlan>(closed);
    let list = ranked::<ClosedPlan>(closed);
    let kept = leader.config.maximum_completed_plan_history;
    let excess = if list.len() > kept {
        list.len() - kept
    } else {
        0
    };
    let forgotten = leader.forgettable();
    assert(forgotten.len() == excess);
    assert forall|i: int| 0 <= i < forgotten.len() implies {
        let id = #[trigger] forgotten[i];
        leader.plans.contains_key(id) && !is_open(leader.plans[id].status)
    } by {
        assert(list.subrange(0, excess)[i] == list[i]);
        assert(list.to_set().contains(list[i]));
    }
    let rest = list.subrange(excess, list.len() as int);
    let left = closed_plans(leader.plans.remove_keys(forgotten.to_set()));
    assert forall|key: ClosedPlanModel| left.contains(key) implies rest.to_set().contains(key) by {
        assert(closed.contains(key));
        assert(list.to_set().contains(key));
        let i = choose|i: int| 0 <= i < list.len() && list[i] == key;
        if i < excess {
            assert(list.subrange(0, excess)[i] == key);
            assert(forgotten[i] == key.plan_id);
            assert(forgotten.to_set().contains(key.plan_id));
        } else {
            assert(rest[i - excess] == key);
        }
    }
    vstd::seq_lib::seq_to_set_is_finite(rest);
    assert(left.subset_of(rest.to_set()));
    vstd::set_lib::lemma_len_subset(left, rest.to_set());
    rest.lemma_cardinality_of_set();
}

/// Adding one list of moves to another adds the handoffs up.
proof fn lemma_handoffs_add_up(
    front: Seq<PlannedMoveModel>,
    back: Seq<PlannedMoveModel>,
    filter: MoveFilter<Seq<char>>,
)
    ensures
        handoffs_passing(front + back, filter) == handoffs_passing(front, filter)
            + handoffs_passing(back, filter),
    decreases back.len(),
{
    if back.len() == 0 {
        assert(front + back =~= front);
    } else {
        lemma_handoffs_add_up(front, back.drop_last(), filter);
        assert((front + back).drop_last() =~= front + back.drop_last());
        assert((front + back).last() == back.last());
    }
}

/// Changing one move adds at most one handoff.
proof fn lemma_one_more_handoff(
    moves: Seq<PlannedMoveModel>,
    at: int,
    movement: PlannedMoveModel,
    filter: MoveFilter<Seq<char>>,
)
    requires
        0 <= at < moves.len(),
    ensures
        handoffs_passing(moves.update(at, movement), filter) <= handoffs_passing(moves, filter)
            + 1,
    decreases moves.len(),
{
    let changed = moves.update(at, movement);
    if at == moves.len() - 1 {
        assert(changed.drop_last() =~= moves.drop_last());
    } else {
        assert(changed.drop_last() =~= moves.drop_last().update(at, movement));
        lemma_one_more_handoff(moves.drop_last(), at, movement, filter);
    }
}

proof fn lemma_handoffs_after(
    plans: Map<u128, PlanModel>,
    ids: Seq<u128>,
    plan_id: u128,
    next: PlanModel,
    at: int,
    filter: MoveFilter<Seq<char>>,
    n: int,
)
    requires
        n <= ids.len(),
        ids.no_duplicates(),
        forall|i: int| 0 <= i < ids.len() ==> plans.contains_key(#[trigger] ids[i]),
        0 <= at < moves_of(plans[plan_id]).len(),
        moves_of(next) == moves_of(plans[plan_id]).update(at, moves_of(next)[at]),
    ensures
        handoffs_passing(moves_of_first(plans.insert(plan_id, next), ids, n), filter)
            <= handoffs_passing(moves_of_first(plans, ids, n), filter) + if ids.subrange(
            0,
            if n < 0 {
                0
            } else {
                n
            },
        ).contains(plan_id) {
            1int
        } else {
            0int
        },
    decreases n,
{
    if n > 0 {
        lemma_handoffs_after(plans, ids, plan_id, next, at, filter, n - 1);
        let changed = plans.insert(plan_id, next);
        let id = ids[n - 1];
        let longer = ids.subrange(0, n);
        let shorter = ids.subrange(0, n - 1);
        assert(longer =~= shorter.push(id));
        lemma_handoffs_add_up(moves_of_first(plans, ids, n - 1), moves_of(plans[id]), filter);
        lemma_handoffs_add_up(moves_of_first(changed, ids, n - 1), moves_of(changed[id]), filter);
        if id == plan_id {
            lemma_one_more_handoff(moves_of(plans[plan_id]), at, moves_of(next)[at], filter);
            assert(longer[n - 1] == plan_id);
            assert(!shorter.contains(plan_id)) by {
                if shorter.contains(plan_id) {
                    let k = choose|k: int| 0 <= k < shorter.len() && shorter[k] == plan_id;
                    assert(ids[k] == ids[n - 1]);
                }
            }
        } else {
            assert(changed[id] == plans[id]);
            if shorter.contains(plan_id) {
                let k = choose|k: int| 0 <= k < shorter.len() && shorter[k] == plan_id;
                assert(longer[k] == plan_id);
            }
        }
    }
}

/// No more slots are handed over at a time than the limits allow: a move that may be started
/// leaves at most so many handoffs under way in the cluster, of its entity type, from its source
/// and to its target.
pub proof fn law_handoffs_stay_within_the_limits(
    leader: LeaderModel,
    plan_id: u128,
    shard_id: ShardId,
    slot: SlotModel,
)
    requires
        leader.plans.dom().finite(),
        leader.can_start(plan_id, shard_id) == Ok::<bool, RuntimeErrorModel>(true),
        leader.beginning(plan_id, shard_id, Some(slot)) is Ok,
    ensures
        ({
            let plan = leader.plans[plan_id];
            let movement = plan.movement(shard_id);
            let next = leader.beginning(plan_id, shard_id, Some(slot))->Ok_0.plan;
            let moves = all_moves(leader.plans.insert(plan_id, next));
            let limits = leader.config.rebalance_limits;
            &&& handoffs_passing(moves, MoveFilter::Any) <= limits.concurrent_cluster
            &&& handoffs_passing(moves, MoveFilter::OfEntity(plan.entity_type))
                <= limits.concurrent_entity
            &&& handoffs_passing(moves, MoveFilter::FromSource(movement.source))
                <= limits.concurrent_source
            &&& handoffs_passing(moves, MoveFilter::ToTarget(movement.target))
                <= limits.concurrent_target
        }),
{
    let plan = leader.plans[plan_id];
    let next = leader.beginning(plan_id, shard_id, Some(slot))->Ok_0.plan;
    let k = move_index(plan.moves, shard_id);
    assert(is_move_of(plan.moves, shard_id, k));
    let begun = plan.begun(shard_id, slot.assignment_generation, slot.active_move).0;
    crate::plan::laws::lemma_index_kept(plan.moves, begun.moves, shard_id, k);
    assert(moves_of(next) =~= moves_of(plan).update(k, moves_of(next)[k]));
    let ids = ranked::<u128>(leader.plans.dom());
    lemma_ranked_lists::<u128>(leader.plans.dom());
    assert forall|i: int| 0 <= i < ids.len() implies leader.plans.contains_key(#[trigger] ids[i]) by {
        assert(ids.to_set().contains(ids[i]));
    }
    assert(leader.plans.insert(plan_id, next).dom() =~= leader.plans.dom());
    let n = ids.len() as int;
    let movement = plan.movement(shard_id);
    lemma_handoffs_after(leader.plans, ids, plan_id, next, k, MoveFilter::Any, n);
    lemma_handoffs_after(
        leader.plans,
        ids,
        plan_id,
        next,
        k,
        MoveFilter::OfEntity(plan.entity_type),
        n,
    );
    lemma_handoffs_after(
        leader.plans,
        ids,
        plan_id,
        next,
        k,
        MoveFilter::FromSource(movement.source),
        n,
    );
    lemma_handoffs_after(
        leader.plans,
        ids,
        plan_id,
        next,
        k,
        MoveFilter::ToTarget(movement.target),
        n,
    );
}

/// When authority is replaced, the leader lets go of the claim that it granted to the source exactly
/// where the handoff and the slot are known, the slot is not fenced yet, and no other than the
/// source holds a claim.
pub proof fn law_source_is_released_once_proven(
    leader: LeaderModel,
    key: SlotKeyModel,
    slot: Option<SlotModel>,
    old_claim: Option<ClaimModel>,
)
    ensures
        releases_source_claim(
            source_may_claim(slot),
            leader.replacement(key, slot, old_claim).fault,
        ) <==> {
            &&& leader.handoffs.contains_key(key)
            &&& slot is Some
            &&& slot->0.state != PlacementSlotState::Fenced
            &&& old_claim is Some ==> {
                &&& old_claim->0.owner == leader.handoffs[key].source
                &&& old_claim->0.assignment_generation == leader.handoffs[key].source_generation
            }
        },
{
}

/// Taking up a leadership never rolls a handoff back: a move that is in handoff stays in handoff,
/// or is completed because the slot has arrived at its target.
pub proof fn law_recovery_runs_forward(
    run: PlanRecoveryModel,
    movement: MoveModel,
    slot: Option<SlotModel>,
    style: CommitStyle,
    i: int,
)
    requires
        0 <= i < run.plan.moves.len(),
        run.plan.moves[i].progress == MoveProgress::Handoff,
    ensures
        ({
            let after = run.stepped(movement, slot, style).plan;
            &&& after.moves.len() == run.plan.moves.len()
            &&& after.moves[i].progress == MoveProgress::Handoff || (after.moves[i].progress
                == MoveProgress::Completed && slot is Some && slot->0.state
                == PlacementSlotState::Running && slot->0.owner == Some(movement.target))
        }),
{
    let shard_id = movement.shard_id;
    if moves_shard(run.plan.moves, shard_id) {
        let k = move_index(run.plan.moves, shard_id);
        assert(is_move_of(run.plan.moves, shard_id, k));
    }
}

/// Taking up a leadership cancels a pending move exactly when its slot is gone or no longer stands
/// as the move expects it.
pub proof fn law_recovery_cancels_what_is_stale(
    run: PlanRecoveryModel,
    shard_id: ShardId,
    slot: Option<SlotModel>,
    style: CommitStyle,
)
    requires
        run.fault is None,
        moves_shard(run.plan.moves, shard_id),
        run.plan.movement(shard_id).progress == MoveProgress::Pending,
        run.plan.movement(shard_id).shard_id == shard_id,
    ensures
        ({
            let movement = run.plan.movement(shard_id);
            let after = run.stepped(movement, slot, style);
            let k = move_index(run.plan.moves, shard_id);
            &&& after.fault is None
            &&& after.actions == run.actions
            &&& after.plan.moves[k].progress == if slot is Some && slot_matches(slot->0, movement) {
                MoveProgress::Pending
            } else {
                MoveProgress::Cancelled
            }
        }),
{
    let k = move_index(run.plan.moves, shard_id);
    assert(is_move_of(run.plan.moves, shard_id, k));
}

/// Taking up a leadership begins the handoff of a shard once: when a move has been begun again, the
/// slot that is then stored names its plan, and no later move, of this plan or another, finds the
/// shard as it expects it.
pub proof fn law_recovery_begins_a_shard_once(
    run: PlanRecoveryModel,
    movement: MoveModel,
    slot: SlotModel,
    later: MoveModel,
    style: CommitStyle,
)
    requires
        run.fault is None,
        movement.progress == MoveProgress::Handoff,
        slot_matches(slot, movement),
        run.stepped(movement, Some(slot), style).fault is None,
    ensures
        ({
            let after = run.stepped(movement, Some(slot), style);
            &&& after.slots == run.slots.insert(slot.key, after.slots[slot.key])
            &&& after.slots[slot.key].state == PlacementSlotState::BeginHandoff
            &&& after.slots[slot.key].active_move == Some(run.plan.plan_id)
            &&& !slot_matches(after.slots[slot.key], later)
        }),
{
}

/// Taking up a leadership rewrites no slot but that of the move at hand.
pub proof fn law_recovery_leaves_other_slots(
    run: PlanRecoveryModel,
    movement: MoveModel,
    slot: Option<SlotModel>,
    key: SlotKeyModel,
    style: CommitStyle,
)
    requires
        slot is None || slot->0.key != key,
    ensures
        ({
            let after = run.stepped(movement, slot, style);
            &&& after.slots.contains_key(key) == run.slots.contains_key(key)
            &&& run.slots.contains_key(key) ==> after.slots[key] == run.slots[key]
        }),
{
}

/// The latest release among the candidates is that of a candidate, and none has a later one.
proof fn lemma_latest_release(
    leader: LeaderModel,
    ids: Seq<NodeIncarnation>,
    kind: Seq<char>,
    config: SingletonModel,
    exclude: Option<NodeModel>,
    n: int,
)
    requires
        n <= ids.len(),
    ensures
        forall|i: int|
            0 <= i < n && leader.may_host(
                leader.sessions[#[trigger] ids[i]],
                kind,
                config,
                exclude,
            ) ==> {
                &&& leader.latest_release(ids, kind, config, exclude, n) is Some
                &&& leader.sessions[ids[i]].record.release_id <= leader.latest_release(
                    ids,
                    kind,
                    config,
                    exclude,
                    n,
                )->0
            },
        leader.latest_release(ids, kind, config, exclude, n) matches Some(release) ==> exists|i: int|
            0 <= i < n && leader.may_host(
                leader.sessions[#[trigger] ids[i]],
                kind,
                config,
                exclude,
            ) && leader.sessions[ids[i]].record.release_id == release,
    decreases n,
{
    if n > 0 {
        lemma_latest_release(leader, ids, kind, config, exclude, n - 1);
        let before = leader.latest_release(ids, kind, config, exclude, n - 1);
        let after = leader.latest_release(ids, kind, config, exclude, n);
        if after is Some {
            if after == before {
                let i = choose|i: int|
                    0 <= i < n - 1 && leader.may_host(
                        leader.sessions[#[trigger] ids[i]],
                        kind,
                        config,
                        exclude,
                    ) && leader.sessions[ids[i]].record.release_id == before->0;
                assert(leader.sessions[ids[i]].record.release_id == after->0);
            } else {
                assert(leader.sessions[ids[n - 1]].record.release_id == after->0);
            }
        }
    }
}

proof fn lemma_best_candidate(
    leader: LeaderModel,
    ids: Seq<NodeIncarnation>,
    kind: Seq<char>,
    config: SingletonModel,
    exclude: Option<NodeModel>,
    release: Option<u64>,
    n: int,
)
    requires
        n <= ids.len(),
    ensures
        forall|i: int|
            0 <= i < n && leader.may_host(
                leader.sessions[#[trigger] ids[i]],
                kind,
                config,
                exclude,
            ) && Some(leader.sessions[ids[i]].record.release_id) == release
                ==> leader.best_candidate(ids, kind, config, exclude, release, n) is Some,
        leader.best_candidate(ids, kind, config, exclude, release, n) matches Some(node)
            ==> exists|i: int|
            0 <= i < n && leader.may_host(
                leader.sessions[#[trigger] ids[i]],
                kind,
                config,
                exclude,
            ) && Some(leader.sessions[ids[i]].record.release_id) == release
                && leader.sessions[ids[i]].hello.node == node,
        leader.best_candidate(ids, kind, config, exclude, release, n) matches Some(node)
            ==> forall|i: int|
            0 <= i < n && leader.may_host(
                leader.sessions[#[trigger] ids[i]],
                kind,
                config,
                exclude,
            ) && Some(leader.sessions[ids[i]].record.release_id) == release ==> !ranks_before(
                kind,
                leader.sessions[ids[i]].hello.node,
                node,
            ),
    decreases n,
{
    if n > 0 {
        lemma_best_candidate(leader, ids, kind, config, exclude, release, n - 1);
        let before = leader.best_candidate(ids, kind, config, exclude, release, n - 1);
        let after = leader.best_candidate(ids, kind, config, exclude, release, n);
        if after is Some {
            if after == before {
                let i = choose|i: int|
                    0 <= i < n - 1 && leader.may_host(
                        leader.sessions[#[trigger] ids[i]],
                        kind,
                        config,
                        exclude,
                    ) && Some(leader.sessions[ids[i]].record.release_id) == release
                        && leader.sessions[ids[i]].hello.node == before->0;
                assert(leader.sessions[ids[i]].hello.node == after->0);
            } else {
                assert(leader.sessions[ids[n - 1]].hello.node == after->0);
            }
            assert forall|i: int|
                0 <= i < n && leader.may_host(
                    leader.sessions[#[trigger] ids[i]],
                    kind,
                    config,
                    exclude,
                ) && Some(leader.sessions[ids[i]].record.release_id)
                    == release implies !ranks_before(
                kind,
                leader.sessions[ids[i]].hello.node,
                after->0,
            ) by {
                let node = leader.sessions[ids[i]].hello.node;
                lemma_rank_irreflexive(kind, node);
                if i < n - 1 && ranks_before(kind, node, after->0) {
                    if after != before {
                        lemma_rank_transitive(kind, node, after->0, before->0);
                    }
                }
            }
        }
    }
}

proof fn lemma_rank_irreflexive(kind: Seq<char>, node: NodeModel)
    ensures
        !ranks_before(kind, node, node),
{
    NodeKey::lemma_irreflexive(node);
}

proof fn lemma_rank_transitive(kind: Seq<char>, a: NodeModel, b: NodeModel, c: NodeModel)
    requires
        ranks_before(kind, a, b),
        ranks_before(kind, b, c),
    ensures
        ranks_before(kind, a, c),
{
    let (x, y, z) = (
        placement_rank(kind, a),
        placement_rank(kind, b),
        placement_rank(kind, c),
    );
    if x != y && y != z {
        lemma_lex_transitive(x, y, z);
        lemma_lex_asymmetric(x, y);
    } else if x == y && y == z {
        NodeKey::lemma_transitive(a, b, c);
    }
}

/// A singleton is placed exactly when a connected member may host it, and then on a member that
/// may, of the latest release of all that may; of those of that release none is ranked before it.
pub proof fn law_singletons_go_to_the_latest_release(
    leader: LeaderModel,
    kind: Seq<char>,
    config: SingletonModel,
    exclude: Option<NodeModel>,
)
    requires
        leader.sessions.dom().finite(),
    ensures
        leader.singleton_target(kind, config, exclude) is Some <==> exists|id: NodeIncarnation| #[trigger]
            leader.sessions.contains_key(id) && leader.may_host(
                leader.sessions[id],
                kind,
                config,
                exclude,
            ),
        leader.singleton_target(kind, config, exclude) matches Some(node) ==> exists|
            id: NodeIncarnation,
        | #[trigger]
            leader.sessions.contains_key(id) && leader.sessions[id].hello.node == node
                && leader.may_host(leader.sessions[id], kind, config, exclude) && forall|
                other: NodeIncarnation,
            | #[trigger]
                leader.sessions.contains_key(other) && leader.may_host(
                    leader.sessions[other],
                    kind,
                    config,
                    exclude,
                ) ==> {
                    &&& leader.sessions[other].record.release_id
                        <= leader.sessions[id].record.release_id
                    &&& leader.sessions[other].record.release_id
                        == leader.sessions[id].record.release_id ==> !ranks_before(
                        kind,
                        leader.sessions[other].hello.node,
                        node,
                    )
                },
{
    lemma_ranked_lists::<NodeIncarnation>(leader.sessions.dom());
    let ids = ranked::<NodeIncarnation>(leader.sessions.dom());
    let n = ids.len() as int;
    let release = leader.latest_release(ids, kind, config, exclude, n);
    lemma_latest_release(leader, ids, kind, config, exclude, n);
    lemma_best_candidate(leader, ids, kind, config, exclude, release, n);
    assert forall|id: NodeIncarnation| #[trigger] leader.sessions.contains_key(id) implies exists|
        i: int,
    | 0 <= i < n && ids[i] == id by {
        assert(ids.to_set().contains(id));
    }
    assert forall|i: int| 0 <= i < n implies leader.sessions.contains_key(#[trigger] ids[i]) by {
        assert(ids.to_set().contains(ids[i]));
    }
    if exists|id: NodeIncarnation| #[trigger]
        leader.sessions.contains_key(id) && leader.may_host(
            leader.sessions[id],
            kind,
            config,
            exclude,
        ) {
        let id = choose|id: NodeIncarnation| #[trigger]
            leader.sessions.contains_key(id) && leader.may_host(
                leader.sessions[id],
                kind,
                config,
                exclude,
            );
        let i = choose|i: int| 0 <= i < n && ids[i] == id;
        assert(leader.may_host(leader.sessions[ids[i]], kind, config, exclude));
        assert(release is Some);
        let j = choose|j: int|
            0 <= j < n && leader.may_host(
                leader.sessions[#[trigger] ids[j]],
                kind,
                config,
                exclude,
            ) && leader.sessions[ids[j]].record.release_id == release->0;
        assert(Some(leader.sessions[ids[j]].record.release_id) == release);
    }
    if let Some(node) = leader.singleton_target(kind, config, exclude) {
        let i = choose|i: int|
            0 <= i < n && leader.may_host(
                leader.sessions[#[trigger] ids[i]],
                kind,
                config,
                exclude,
            ) && Some(leader.sessions[ids[i]].record.release_id) == release
                && leader.sessions[ids[i]].hello.node == node;
        let id = ids[i];
        assert(leader.sessions.contains_key(id));
        assert forall|other: NodeIncarnation| #[trigger]
            leader.sessions.contains_key(other) && leader.may_host(
                leader.sessions[other],
                kind,
                config,
                exclude,
            ) implies leader.sessions[other].record.release_id
            <= leader.sessions[id].record.release_id && (leader.sessions[other].record.release_id
            == leader.sessions[id].record.release_id ==> !ranks_before(
            kind,
            leader.sessions[other].hello.node,
            node,
        )) by {
            let j = choose|j: int| 0 <= j < n && ids[j] == other;
            assert(leader.may_host(leader.sessions[ids[j]], kind, config, exclude));
        }
    }
}

proof fn lemma_same_candidates(
    one: LeaderModel,
    other: LeaderModel,
    ids: Seq<NodeIncarnation>,
    kind: Seq<char>,
    config: SingletonModel,
    exclude: Option<NodeModel>,
    release: Option<u64>,
    n: int,
)
    requires
        one.sessions == other.sessions,
    ensures
        one.latest_release(ids, kind, config, exclude, n) == other.latest_release(
            ids,
            kind,
            config,
            exclude,
            n,
        ),
        one.best_candidate(ids, kind, config, exclude, release, n) == other.best_candidate(
            ids,
            kind,
            config,
            exclude,
            release,
            n,
        ),
    decreases n,
{
    if n > 0 {
        lemma_same_candidates(one, other, ids, kind, config, exclude, release, n - 1);
    }
}

/// Where a singleton goes depends on the sessions alone: a new leader with the same sessions
/// places it where the last one did.
pub proof fn law_leaders_place_singletons_alike(
    one: LeaderModel,
    other: LeaderModel,
    kind: Seq<char>,
    config: SingletonModel,
    exclude: Option<NodeModel>,
)
    requires
        one.sessions == other.sessions,
    ensures
        one.singleton_target(kind, config, exclude) == other.singleton_target(
            kind,
            config,
            exclude,
        ),
{
    let ids = ranked::<NodeIncarnation>(one.sessions.dom());
    let n = ids.len() as int;
    lemma_same_candidates(one, other, ids, kind, config, exclude, None, n);
    let release = one.latest_release(ids, kind, config, exclude, n);
    lemma_same_candidates(one, other, ids, kind, config, exclude, release, n);
}

/// A configuration that a leader has taken up never changes: whatever is declared later, it stays
/// as it is.
pub proof fn law_configurations_never_change(
    leader: LeaderModel,
    configs: Seq<EntityConfigModel>,
    n: int,
    entity_type: Seq<char>,
)
    requires
        n <= configs.len(),
        leader.entity_configs.contains_key(entity_type),
    ensures
        leader.adopting_entities(configs, n).0.entity_configs.contains_key(entity_type),
        leader.adopting_entities(configs, n).0.entity_configs[entity_type]
            == leader.entity_configs[entity_type],
    decreases n,
{
    if n > 0 {
        law_configurations_never_change(leader, configs, n - 1, entity_type);
    }
}

} // verus!
