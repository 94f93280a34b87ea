//! What each step of a handoff writes, stated over the slot, the plan and the handoff before it.
use vstd::prelude::*;

use crate::plan::step_laws::{
    is_sole_move, law_a_barrier_holds_what_was_installed, law_a_move_begins_once, lemma_sole_move,
};
use crate::plan::{
    is_move_of, moves_shard, MoveModel, MoveProgress, PlanError, PlanModel, PlanReason, PlanStatus,
};
use crate::runtime::claims::ResumeModel;
use crate::runtime::errors::RuntimeErrorModel;
use crate::runtime::handoffs::{DeltaRecipient, ReservationModel};
use crate::runtime::members::HelloModel;
use crate::runtime::planning::PlanUpdateModel;
use crate::runtime::registration::DomainUpdateModel;
use crate::runtime::state::LeaderModel;
use crate::sorted::{lemma_ranked_lists, ranked};
use crate::types::{
    AssignmentGeneration, ClaimModel, GrantSequence, NodeIncarnation, NodeModel,
    PlacementSlotState, Revision, ShardId, SlotKeyModel, SlotModel, VersionModel,
};

verus! {

/// Whether a version comes right after another.
pub open spec fn is_next(next: VersionModel, version: VersionModel) -> bool {
    &&& next.domain == version.domain
    &&& next.term == version.term
    &&& next.revision.0 == version.revision.0 + 1
}

/// Whether a member is to learn of a slot: of those of entities that it hosts or reaches, and of
/// singletons that it may host or uses.
pub open spec fn follows(hello: HelloModel, key: SlotKeyModel) -> bool {
    match key {
        SlotKeyModel::Shard { entity_type, .. } => hello.hosted_entity_types.contains(entity_type)
            || hello.proxied_entity_types.contains(entity_type),
        SlotKeyModel::Singleton { kind, .. } => hello.singleton_eligibility.contains(kind)
            || hello.used_singletons.contains(kind),
    }
}

/// A handoff waits for exactly the connected members that follow its slot, and a member is sent the
/// slots that it follows.
pub proof fn law_barriers_wait_for_those_that_follow(
    leader: LeaderModel,
    key: SlotKeyModel,
    id: NodeIncarnation,
    hello: HelloModel,
)
    ensures
        leader.audience(key).contains(id) <==> leader.sessions.contains_key(id) && follows(
            leader.sessions[id].hello,
            key,
        ),
        hello.sees(key) <==> follows(hello, key),
{
}

/// Whether a change of a slot that is sent out is sent to one connected member: over its connection,
/// and with the slot if the member follows it.
pub open spec fn is_sent_to(
    leader: LeaderModel,
    key: SlotKeyModel,
    recipient: DeltaRecipient<Seq<char>>,
    id: NodeIncarnation,
) -> bool {
    &&& leader.sessions.contains_key(id)
    &&& recipient.association == leader.sessions[id].association
    &&& recipient.shown == follows(leader.sessions[id].hello, key)
}

/// Whether a change of a slot is sent to some connected member.
pub open spec fn is_sent(
    leader: LeaderModel,
    key: SlotKeyModel,
    recipient: DeltaRecipient<Seq<char>>,
) -> bool {
    exists|id: NodeIncarnation| #[trigger] is_sent_to(leader, key, recipient, id)
}

/// A change of a slot is sent to every connected member, once, over its connection; the slot is
/// shown to those that follow it only, so that the others learn of the version alone.
pub proof fn law_every_member_learns_of_a_change(leader: LeaderModel, key: SlotKeyModel)
    requires
        leader.sessions.dom().finite(),
    ensures
        leader.recipients(key).len() == leader.sessions.dom().len(),
        forall|id: NodeIncarnation| #[trigger]
            leader.sessions.contains_key(id) ==> exists|i: int|
                0 <= i < leader.recipients(key).len() && #[trigger] is_sent_to(
                    leader,
                    key,
                    leader.recipients(key)[i],
                    id,
                ),
        forall|i: int|
            0 <= i < leader.recipients(key).len() ==> is_sent(
                leader,
                key,
                #[trigger] leader.recipients(key)[i],
            ),
{
    lemma_ranked_lists::<NodeIncarnation>(leader.sessions.dom());
    let ids = ranked::<NodeIncarnation>(leader.sessions.dom());
    assert forall|i: int| 0 <= i < ids.len() implies is_sent_to(
        leader,
        key,
        #[trigger] leader.recipients(key)[i],
        ids[i],
    ) by {
        assert(ids.to_set().contains(ids[i]));
        law_barriers_wait_for_those_that_follow(leader, key, ids[i], leader.sessions[ids[i]].hello);
    }
    assert forall|i: int| 0 <= i < leader.recipients(key).len() implies is_sent(
        leader,
        key,
        #[trigger] leader.recipients(key)[i],
    ) by {
        assert(is_sent_to(leader, key, leader.recipients(key)[i], ids[i]));
    }
    assert forall|id: NodeIncarnation| #[trigger]
        leader.sessions.contains_key(id) implies exists|i: int|
        0 <= i < leader.recipients(key).len() && #[trigger] is_sent_to(
            leader,
            key,
            leader.recipients(key)[i],
            id,
        ) by {
        assert(ids.to_set().contains(id));
        let i = choose|i: int| 0 <= i < ids.len() && ids[i] == id;
        assert(is_sent_to(leader, key, leader.recipients(key)[i], ids[i]));
    }
}

/// A move begins exactly when its plan is open, it is pending and without a barrier, and the slot is
/// stored, held by no move and under the generation that the move expects, as long as versions and
/// records can be counted on. Then the slot is bound for the target under the plan, at the next
/// version; the plan holds the move in handoff behind a barrier of that version; and both wait for
/// exactly the members that follow the slot.
pub proof fn law_a_move_binds_its_slot(
    leader: LeaderModel,
    plan_id: u128,
    shard_id: ShardId,
    at: int,
    slot: Option<SlotModel>,
)
    requires
        leader.plans.contains_key(plan_id),
        is_sole_move(leader.plans[plan_id].moves, shard_id, at),
    ensures
        ({
            let plan = leader.plans[plan_id];
            let movement = plan.moves[at];
            let key = SlotKeyModel::Shard {
                domain: plan.domain,
                entity_type: plan.entity_type,
                shard_id,
            };
            let result = leader.beginning(plan_id, shard_id, slot);
            &&& result is Ok <==> {
                &&& plan.status == PlanStatus::Planned || plan.status == PlanStatus::Running
                &&& movement.progress == MoveProgress::Pending
                &&& movement.barrier_version is None
                &&& slot is Some
                &&& slot->0.active_move is None
                &&& slot->0.assignment_generation == movement.expected_generation
                &&& leader.version.revision.0 < u64::MAX
                &&& plan.record_revision.0 < u64::MAX
            }
            &&& slot is None ==> result == Err::<ReservationModel, _>(
                RuntimeErrorModel::UnknownSlot,
            )
            &&& result matches Ok(reserved) ==> {
                &&& reserved.expected_plan == plan
                &&& reserved.expected_slot == slot->0
                &&& reserved.slot == (SlotModel {
                    target: Some(movement.target),
                    state: PlacementSlotState::BeginHandoff,
                    active_move: Some(plan_id),
                    barrier_sessions: reserved.slot.barrier_sessions,
                    version: reserved.slot.version,
                    ..slot->0
                })
                &&& is_next(reserved.slot.version, leader.version)
                &&& forall|id: NodeIncarnation| #[trigger]
                    reserved.slot.barrier_sessions.contains(id) <==> leader.sessions.contains_key(
                        id,
                    ) && follows(leader.sessions[id].hello, key)
                &&& reserved.plan.status == PlanStatus::Running
                &&& reserved.plan.record_revision.0 == plan.record_revision.0 + 1
                &&& reserved.plan.moves.len() == plan.moves.len()
                &&& reserved.plan.moves[at] == (MoveModel {
                    progress: MoveProgress::Handoff,
                    barrier_version: Some(reserved.slot.version),
                    barrier_sessions: reserved.slot.barrier_sessions,
                    ..movement
                })
                &&& forall|j: int|
                    0 <= j < plan.moves.len() && j != at ==> #[trigger] reserved.plan.moves[j]
                        == plan.moves[j]
            }
        }),
{
    let plan = leader.plans[plan_id];
    assert(crate::plan::is_move_of(plan.moves, shard_id, at));
    assert(crate::plan::moves_shard(plan.moves, shard_id));
    let k = crate::plan::move_index(plan.moves, shard_id);
    assert(crate::plan::is_move_of(plan.moves, shard_id, k));
    assert(k == at);
    if slot is Some {
        let (generation, active) = (slot->0.assignment_generation, slot->0.active_move);
        law_a_move_begins_once(plan, shard_id, at, generation, active);
        let (begun, refused) = plan.begun(shard_id, generation, active);
        if refused is None && leader.version.spec_next() is Some {
            assert(is_sole_move(begun.moves, shard_id, at)) by {
                assert forall|j: int| 0 <= j < begun.moves.len() && j != at implies (
                #[trigger] begun.moves[j]).shard_id != shard_id by {
                    assert(begun.moves[j] == plan.moves[j]);
                }
            }
            assert(begun.moves[at] == (MoveModel {
                progress: MoveProgress::Handoff,
                ..plan.moves[at]
            }));
            law_a_barrier_holds_what_was_installed(
                begun,
                shard_id,
                at,
                leader.version.spec_next()->0,
                leader.subscribers(plan.entity_type),
            );
        }
    }
}

/// The source of a handoff is asked to stop exactly when the slot is stored as bound for the target
/// under the plan of that handoff; then the slot is stopping, at the next version, and otherwise as
/// it was.
pub proof fn law_sources_are_asked_to_stop(
    leader: LeaderModel,
    key: SlotKeyModel,
    slot: Option<SlotModel>,
)
    ensures
        ({
            let result = leader.draining(key, slot);
            let known = leader.handoffs.contains_key(key);
            let bound = slot is Some && slot->0.state == PlacementSlotState::BeginHandoff
                && slot->0.active_move == Some(leader.handoffs[key].plan_id);
            &&& result is Ok <==> known && bound && leader.version.revision.0 < u64::MAX
            &&& !known ==> result == Err::<SlotModel, _>(RuntimeErrorModel::UnknownHandoff)
            &&& known && slot is None ==> result == Err::<SlotModel, _>(
                RuntimeErrorModel::UnknownSlot,
            )
            &&& known && slot is Some && !bound ==> result == Err::<SlotModel, _>(
                RuntimeErrorModel::StaleHandoff,
            )
            &&& result matches Ok(stopping) ==> stopping == (SlotModel {
                state: PlacementSlotState::Stopping,
                version: stopping.version,
                ..slot->0
            }) && is_next(stopping.version, leader.version)
        }),
{
}

/// A source that failed to stop is noted on a slot that is stopping, and on no other.
pub proof fn law_failed_stops_are_noted(leader: LeaderModel, slot: Option<SlotModel>)
    ensures
        ({
            let result = leader.stop_failed(slot);
            let stopping = slot is Some && slot->0.state == PlacementSlotState::Stopping;
            &&& result is Ok <==> stopping && leader.version.revision.0 < u64::MAX
            &&& slot is None ==> result == Err::<SlotModel, _>(RuntimeErrorModel::UnknownSlot)
            &&& slot is Some && !stopping ==> result == Err::<SlotModel, _>(
                RuntimeErrorModel::StaleHandoff,
            )
            &&& result matches Ok(failed) ==> failed == (SlotModel {
                state: PlacementSlotState::StopFailed,
                version: failed.version,
                ..slot->0
            }) && is_next(failed.version, leader.version)
        }),
{
}

/// Authority is replaced exactly when the handoff and the slot are known, no claim but that of the
/// source stands in the way of a slot that is not fenced, and the slot has stopped, failed to stop
/// or is fenced under the plan of the handoff, as long as versions can be counted on. A slot that
/// was not fenced is fenced first, at one version, and handed over at the next; one that was fenced
/// is handed over at the next version. The claim of the source is withdrawn unless the slot was
/// fenced already.
pub proof fn law_authority_is_replaced_once(
    leader: LeaderModel,
    key: SlotKeyModel,
    slot: Option<SlotModel>,
    claim: Option<ClaimModel>,
)
    ensures
        ({
            let handoff = leader.handoffs[key];
            let replaced = leader.replacement(key, slot, claim);
            let known = leader.handoffs.contains_key(key) && slot is Some;
            let fenced = slot is Some && slot->0.state == PlacementSlotState::Fenced;
            let proven = fenced || claim is None || (claim->0.owner == handoff.source
                && claim->0.assignment_generation == handoff.source_generation);
            let stopped = slot is Some && slot->0.active_move == Some(handoff.plan_id) && (
            slot->0.state == PlacementSlotState::Stopping || slot->0.state
                == PlacementSlotState::StopFailed || fenced);
            let needed: nat = if fenced {
                1
            } else {
                2
            };
            &&& replaced.fault is None <==> known && proven && stopped && leader.version.revision.0
                + needed <= u64::MAX
            &&& replaced.fault == Some(RuntimeErrorModel::UnknownHandoff)
                <==> !leader.handoffs.contains_key(key)
            &&& replaced.fault == Some(RuntimeErrorModel::UnknownSlot)
                <==> leader.handoffs.contains_key(key) && slot is None
            &&& replaced.fault == Some(RuntimeErrorModel::ClaimNotProven) <==> known && !proven
            &&& replaced.fault == Some(RuntimeErrorModel::StaleHandoff) <==> known && proven
                && !stopped
            &&& replaced.withdrawn == if known && proven && !fenced {
                claim
            } else {
                None
            }
            &&& replaced.fault is None ==> {
                let last = replaced.slots.last();
                &&& replaced.slots.len() == needed
                &&& last == (SlotModel {
                    owner: Some(handoff.target),
                    target: None,
                    assignment_generation: handoff.target_generation,
                    state: PlacementSlotState::Allocating,
                    version: last.version,
                    ..slot->0
                })
                &&& is_next(replaced.slots[0].version, leader.version)
                &&& !fenced ==> {
                    &&& replaced.slots[0] == (SlotModel {
                        state: PlacementSlotState::Fenced,
                        version: replaced.slots[0].version,
                        ..slot->0
                    })
                    &&& is_next(last.version, replaced.slots[0].version)
                }
            }
            &&& replaced.fault is Some && !stopped ==> replaced.slots.len() == 0
        }),
{
}

/// The target of a handoff is granted the first claim of its generation on the slot, in the term of
/// the leader and for as long as claims live.
pub proof fn law_targets_are_granted_their_claim(leader: LeaderModel, key: SlotKeyModel)
    ensures
        ({
            let claim = leader.target_claim(key);
            let handoff = leader.handoffs[key];
            &&& claim.slot == key
            &&& claim.owner == handoff.target
            &&& claim.assignment_generation == handoff.target_generation
            &&& claim.coordinator_term == leader.term
            &&& claim.grant_sequence == GrantSequence(1)
            &&& claim.ttl == leader.config.claim_ttl
            &&& key matches SlotKeyModel::Shard { domain, .. } ==> claim.domain == domain
            &&& key matches SlotKeyModel::Singleton { domain, .. } ==> claim.domain == domain
        }),
{
}

/// A slot runs on the target of its handoff exactly when it was handed to that target, under the
/// generation and the plan of the handoff; then no move holds it, no session is waited for, and it
/// is otherwise as it was.
pub proof fn law_targets_run_what_was_handed_to_them(
    leader: LeaderModel,
    key: SlotKeyModel,
    slot: Option<SlotModel>,
)
    ensures
        ({
            let handoff = leader.handoffs[key];
            let result = leader.activated(key, slot);
            let known = leader.handoffs.contains_key(key);
            let handed = slot is Some && slot->0.state == PlacementSlotState::Allocating
                && slot->0.owner == Some(handoff.target) && slot->0.assignment_generation
                == handoff.target_generation && slot->0.active_move == Some(handoff.plan_id);
            &&& result is Ok <==> known && handed && leader.version.revision.0 < u64::MAX
            &&& !known ==> result == Err::<SlotModel, _>(RuntimeErrorModel::UnknownHandoff)
            &&& known && slot is None ==> result == Err::<SlotModel, _>(
                RuntimeErrorModel::UnknownSlot,
            )
            &&& known && slot is Some && !handed ==> result == Err::<SlotModel, _>(
                RuntimeErrorModel::StaleHandoff,
            )
            &&& result matches Ok(active) ==> active == (SlotModel {
                state: PlacementSlotState::Running,
                active_move: None,
                barrier_sessions: Set::empty(),
                version: active.version,
                ..slot->0
            }) && is_next(active.version, leader.version)
        }),
{
}

/// A slot that is placed for the first time runs exactly once its owner is ready under the
/// generation that it was placed with, while no move holds it.
pub proof fn law_first_owners_run_what_was_placed_there(
    leader: LeaderModel,
    owner: NodeModel,
    generation: AssignmentGeneration,
    slot: Option<SlotModel>,
)
    ensures
        ({
            let result = leader.first_ready(owner, generation, slot);
            let placed = slot is Some && slot->0.state == PlacementSlotState::Allocating
                && slot->0.owner == Some(owner) && slot->0.assignment_generation == generation
                && slot->0.active_move is None;
            &&& result is Ok <==> placed && leader.version.revision.0 < u64::MAX
            &&& slot is None ==> result == Err::<SlotModel, _>(RuntimeErrorModel::UnknownSlot)
            &&& slot is Some && !placed ==> result == Err::<SlotModel, _>(
                RuntimeErrorModel::StaleHandoff,
            )
            &&& result matches Ok(running) ==> running == (SlotModel {
                state: PlacementSlotState::Running,
                version: running.version,
                ..slot->0
            }) && is_next(running.version, leader.version)
        }),
{
}

/// A move has arrived exactly when it was in handoff: the plan is stored anew over what it was, with
/// that move completed and every other as it was.
pub proof fn law_arrivals_complete_one_move(
    leader: LeaderModel,
    plan_id: u128,
    shard_id: ShardId,
    at: int,
)
    requires
        leader.plans.contains_key(plan_id),
        is_sole_move(leader.plans[plan_id].moves, shard_id, at),
    ensures
        ({
            let plan = leader.plans[plan_id];
            let result = leader.arrival(plan_id, shard_id);
            let moving = plan.moves[at].progress == MoveProgress::Handoff;
            &&& result is Ok <==> moving && plan.record_revision.0 < u64::MAX
            &&& !moving ==> result == Err::<PlanUpdateModel, _>(
                RuntimeErrorModel::Plan(PlanError::IllegalProgress),
            )
            &&& result matches Ok(update) ==> {
                &&& update.expected == plan
                &&& update.plan.record_revision.0 == plan.record_revision.0 + 1
                &&& update.plan.moves == plan.moves.update(
                    at,
                    MoveModel { progress: MoveProgress::Completed, ..plan.moves[at] },
                )
            }
        }),
{
    crate::plan::step_laws::law_moves_end_as_they_stand(leader.plans[plan_id], shard_id, at);
}

/// A source is taken for gone, once no claim of it is stored, only where its move recovers from a
/// failure, or where it owned a singleton and is not connected.
pub proof fn law_sources_are_gone_only_when_lost(leader: LeaderModel, key: SlotKeyModel)
    ensures
        leader.source_may_be_gone(key) <==> {
            let handoff = leader.handoffs[key];
            ||| leader.plans.contains_key(handoff.plan_id) && leader.plans[handoff.plan_id].reason
                == PlanReason::Recovery
            ||| key is Singleton && !leader.sessions.contains_key(handoff.source.incarnation)
        },
        forall|node: NodeModel| #[trigger]
            leader.is_connected(node) <==> leader.sessions.contains_key(node.incarnation)
                && leader.sessions[node.incarnation].hello.node == node,
{
}

/// Nothing is begun, completed, cancelled or resumed that is not known: neither of a plan that is not
/// kept, nor of a shard that its plan does not move, nor of a slot that is not being handed over.
pub proof fn law_what_is_unknown_is_refused(
    leader: LeaderModel,
    plan_id: u128,
    shard_id: ShardId,
    slot: Option<SlotModel>,
    key: SlotKeyModel,
    node: NodeModel,
    claim: Option<ClaimModel>,
)
    ensures
        ({
            let moves = leader.plans[plan_id].moves;
            let known = leader.plans.contains_key(plan_id);
            let moved = exists|i: int| 0 <= i < moves.len() && (#[trigger] moves[i]).shard_id == shard_id;
            let begun = leader.beginning(plan_id, shard_id, slot);
            let arrived = leader.arrival(plan_id, shard_id);
            let cancelled = leader.cancellation(plan_id, shard_id);
            &&& !known ==> {
                &&& begun == Err::<ReservationModel, _>(RuntimeErrorModel::UnknownPlan)
                &&& arrived == Err::<PlanUpdateModel, _>(RuntimeErrorModel::UnknownPlan)
                &&& cancelled == Err::<PlanUpdateModel, _>(RuntimeErrorModel::UnknownPlan)
            }
            &&& known && !moved ==> {
                &&& begun == Err::<ReservationModel, _>(RuntimeErrorModel::UnknownSlot)
                &&& arrived == Err::<PlanUpdateModel, _>(
                    RuntimeErrorModel::Plan(PlanError::UnknownShard),
                )
                &&& cancelled == Err::<PlanUpdateModel, _>(
                    RuntimeErrorModel::Plan(PlanError::UnknownShard),
                )
            }
        }),
        !leader.handoffs.contains_key(key) ==> leader.resumption(key, node, slot, claim) == Err::<
            ResumeModel,
            _,
        >(RuntimeErrorModel::UnknownHandoff),
{
    let moves = leader.plans[plan_id].moves;
    if moves_shard(moves, shard_id) {
        let i = choose|i: int| is_move_of(moves, shard_id, i);
        assert(moves[i].shard_id == shard_id);
    }
}

/// Why a move of a plan that is known does not begin, complete or end: first that the plan is closed
/// or the slot is held by a move, then that the move is not pending or expects another generation,
/// then that versions are used up, then that a barrier stands, and last that records are.
pub proof fn law_moves_do_not_begin_for_a_reason(
    leader: LeaderModel,
    plan_id: u128,
    shard_id: ShardId,
    at: int,
    slot: SlotModel,
)
    requires
        leader.plans.contains_key(plan_id),
        is_sole_move(leader.plans[plan_id].moves, shard_id, at),
    ensures
        ({
            let plan = leader.plans[plan_id];
            let movement = plan.moves[at];
            let begun = leader.beginning(plan_id, shard_id, Some(slot));
            let conflict = (plan.status != PlanStatus::Planned && plan.status
                != PlanStatus::Running) || slot.active_move is Some;
            let stale = movement.progress != MoveProgress::Pending || movement.expected_generation
                != slot.assignment_generation;
            let exhausted = RuntimeErrorModel::RevisionExhausted;
            &&& conflict ==> begun == Err::<ReservationModel, _>(
                RuntimeErrorModel::Plan(PlanError::MoveConflict),
            )
            &&& !conflict && stale ==> begun == Err::<ReservationModel, _>(
                RuntimeErrorModel::Plan(PlanError::StaleGeneration),
            )
            &&& !conflict && !stale && leader.version.revision.0 == u64::MAX ==> begun == Err::<
                ReservationModel,
                _,
            >(exhausted)
            &&& !conflict && !stale && leader.version.revision.0 < u64::MAX
                && movement.barrier_version is Some ==> begun == Err::<ReservationModel, _>(
                RuntimeErrorModel::Plan(PlanError::IllegalProgress),
            )
            &&& !conflict && !stale && leader.version.revision.0 < u64::MAX
                && movement.barrier_version is None && plan.record_revision.0 == u64::MAX
                ==> begun == Err::<ReservationModel, _>(exhausted)
            &&& movement.progress == MoveProgress::Handoff && plan.record_revision.0 == u64::MAX
                ==> leader.arrival(plan_id, shard_id) == Err::<PlanUpdateModel, _>(exhausted)
            &&& movement.progress == MoveProgress::Pending && plan.record_revision.0 == u64::MAX
                ==> leader.cancellation(plan_id, shard_id) == Err::<PlanUpdateModel, _>(exhausted)
        }),
{
    let plan = leader.plans[plan_id];
    let begun = plan.begun(shard_id, slot.assignment_generation, slot.active_move).0;
    lemma_sole_move(plan.moves, shard_id, at);
    assert(is_sole_move(begun.moves, shard_id, at));
    lemma_sole_move(begun.moves, shard_id, at);
    assert(leader.version.spec_next() is None <==> leader.version.revision.0 == u64::MAX);
}

/// Whatever a leader would write to a slot or to a member of its domain, one that has used up its
/// versions refuses for that reason.
pub proof fn law_used_up_versions_are_told(
    leader: LeaderModel,
    key: SlotKeyModel,
    slot: Option<SlotModel>,
    claim: Option<ClaimModel>,
    owner: NodeModel,
    generation: AssignmentGeneration,
    incarnation: NodeIncarnation,
    hello: HelloModel,
)
    ensures
        ({
            let spent = LeaderModel {
                version: VersionModel { revision: Revision(u64::MAX), ..leader.version },
                ..leader
            };
            let exhausted = RuntimeErrorModel::RevisionExhausted;
            &&& leader.draining(key, slot) is Ok ==> spent.draining(key, slot) == Err::<
                SlotModel,
                _,
            >(exhausted)
            &&& leader.stop_failed(slot) is Ok ==> spent.stop_failed(slot) == Err::<SlotModel, _>(
                exhausted,
            )
            &&& leader.activated(key, slot) is Ok ==> spent.activated(key, slot) == Err::<
                SlotModel,
                _,
            >(exhausted)
            &&& leader.first_ready(owner, generation, slot) is Ok ==> spent.first_ready(
                owner,
                generation,
                slot,
            ) == Err::<SlotModel, _>(exhausted)
            &&& leader.replacement(key, slot, claim).slots.len() > 0 ==> {
                let refused = spent.replacement(key, slot, claim);
                &&& refused.fault == Some(exhausted)
                &&& refused.slots.len() == 0
                &&& refused.withdrawn == leader.replacement(key, slot, claim).withdrawn
            }
            &&& leader.replacement(key, slot, claim).slots.len() > 0 && leader.replacement(
                key,
                slot,
                claim,
            ).fault is Some ==> {
                &&& leader.replacement(key, slot, claim).fault == Some(exhausted)
                &&& leader.version.revision.0 == u64::MAX - 1
            }
            &&& leader.hello_update(incarnation, hello) is Ok ==> spent.hello_update(
                incarnation,
                hello,
            ) == Err::<DomainUpdateModel, _>(exhausted)
        }),
{
}

} // verus!
