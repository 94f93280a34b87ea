//! What taking up a leadership makes of the moves and handoffs that it finds.
use vstd::prelude::*;

use crate::plan::step_laws::{is_sole_move, law_moves_end_as_they_stand};
use crate::plan::{MoveModel, MoveProgress, PlanModel};
use crate::runtime::errors::RuntimeErrorModel;
use crate::runtime::handoff_laws::is_next;
use crate::runtime::handoffs::ReservationModel;
use crate::runtime::planning::PlanUpdateModel;
use crate::runtime::recovery::{
    plan_recovery, singleton_seed, ActionModel, CommitStyle, PlanRecoveryModel, RecoveryModel,
    SeedModel, SlotUpdateModel,
};
use crate::runtime::state::LeaderModel;
use crate::sorted::{lemma_ranked_lists, ranked};
use crate::types::{
    AssignmentGeneration, NodeIncarnation, PlacementSlotKey, PlacementSlotState, ShardId,
    SlotKeyModel, SlotModel, VersionModel,
};

verus! {

/// Whether a slot stands as a move expects to find it: it runs on the source, under the generation
/// that the move knows, and no move holds it.
pub open spec fn stands_for(slot: Option<SlotModel>, movement: MoveModel) -> bool {
    &&& slot is Some
    &&& slot->0.owner == Some(movement.source)
    &&& slot->0.assignment_generation == movement.expected_generation
    &&& slot->0.state == PlacementSlotState::Running
    &&& slot->0.active_move is None
}

/// Whether a slot runs on the target of a move.
pub open spec fn runs_on_target(slot: Option<SlotModel>, movement: MoveModel) -> bool {
    &&& slot is Some
    &&& slot->0.state == PlacementSlotState::Running
    &&& slot->0.owner == Some(movement.target)
}

/// Whether a slot has arrived at the target of a move, for good.
pub open spec fn has_landed(slot: Option<SlotModel>, movement: MoveModel) -> bool {
    &&& runs_on_target(slot, movement)
    &&& slot->0.assignment_generation.0 == movement.expected_generation.0 + 1
    &&& slot->0.active_move is None
}

/// Moves that are settled stay so, and so does everything once recovery has failed.
pub proof fn law_recovery_leaves_what_is_settled(
    run: PlanRecoveryModel,
    movement: MoveModel,
    slot: Option<SlotModel>,
    style: CommitStyle,
)
    requires
        run.fault is Some || movement.progress == MoveProgress::Completed || movement.progress
            == MoveProgress::Cancelled || (movement.progress == MoveProgress::Handoff && slot
            is None) || (movement.progress == MoveProgress::Pending && stands_for(slot, movement)),
    ensures
        run.stepped(movement, slot, style) == run,
{
}

/// A pending move whose slot does not stand as it expects is cancelled, and nothing is written for
/// it; a move in handoff whose slot has arrived is completed.
pub proof fn law_recovery_ends_moves(
    run: PlanRecoveryModel,
    movement: MoveModel,
    slot: Option<SlotModel>,
    style: CommitStyle,
    at: int,
)
    requires
        run.fault is None,
        is_sole_move(run.plan.moves, movement.shard_id, at),
        run.plan.moves[at] == movement,
        (movement.progress == MoveProgress::Pending && !stands_for(slot, movement)) || (
        movement.progress == MoveProgress::Handoff && has_landed(slot, movement)),
    ensures
        ({
            let after = run.stepped(movement, slot, style);
            &&& after.fault is None
            &&& after.changed
            &&& after.plan.moves == run.plan.moves.update(
                at,
                MoveModel {
                    progress: if movement.progress == MoveProgress::Pending {
                        MoveProgress::Cancelled
                    } else {
                        MoveProgress::Completed
                    },
                    ..movement
                },
            )
            &&& after.plan.plan_id == run.plan.plan_id
            &&& after.plan.record_revision == run.plan.record_revision
            &&& after.actions == run.actions
            &&& after.slots == run.slots
            &&& after.version == run.version
        }),
{
    law_moves_end_as_they_stand(run.plan, movement.shard_id, at);
}

/// Whether an action takes up the handoff of a move, with the slot and the barrier that it shows.
pub open spec fn takes_up(
    action: ActionModel,
    plan_id: u128,
    movement: MoveModel,
    slot: SlotModel,
) -> bool {
    &&& action matches ActionModel::ResumeHandoff(seed)
    &&& seed.slot == slot
    &&& seed.plan_id == plan_id
    &&& seed.source == movement.source
    &&& seed.target == movement.target
    &&& seed.source_generation == movement.expected_generation
    &&& seed.barrier_version == slot.version
    &&& seed.barrier_sessions == slot.barrier_sessions
}

/// A handoff that the slot shows is taken up as the slot stands, and nothing is written; one that
/// runs on its target under a generation that cannot be counted further ends recovery.
pub proof fn law_recovery_takes_up_handoffs(
    run: PlanRecoveryModel,
    movement: MoveModel,
    slot: Option<SlotModel>,
    style: CommitStyle,
)
    requires
        run.fault is None,
        movement.progress == MoveProgress::Handoff,
        slot is Some,
        !stands_for(slot, movement),
        !has_landed(slot, movement),
    ensures
        ({
            let after = run.stepped(movement, slot, style);
            let exhausted = runs_on_target(slot, movement) && movement.expected_generation.0
                == u64::MAX;
            &&& exhausted ==> after.fault == Some(RuntimeErrorModel::RevisionExhausted)
                && after.actions == run.actions
            &&& !exhausted ==> {
                &&& after.fault is None
                &&& after.actions.len() == run.actions.len() + 1
                &&& after.actions.drop_last() == run.actions
                &&& takes_up(after.actions.last(), run.plan.plan_id, movement, slot->0)
                &&& after.changed == run.changed
            }
            &&& after.plan == run.plan
            &&& after.slots == run.slots
            &&& after.version == run.version
        }),
{
    assert(run.stepped(movement, slot, style).fault is None ==> run.stepped(
        movement,
        slot,
        style,
    ).actions.drop_last() =~= run.actions);
}

/// A handoff that the slot does not show yet is begun again at the next version: the slot is bound
/// for the target under the plan, behind the barrier of the move, the plan knows that version, and
/// the handoff is taken up from the slot that is written. Joint leaders write plan and slot
/// together, the others the slot first.
pub proof fn law_recovery_begins_again(
    run: PlanRecoveryModel,
    movement: MoveModel,
    slot: Option<SlotModel>,
    style: CommitStyle,
    at: int,
)
    requires
        run.fault is None,
        is_sole_move(run.plan.moves, movement.shard_id, at),
        run.plan.moves[at] == movement,
        movement.progress == MoveProgress::Handoff,
        stands_for(slot, movement),
        movement.source != movement.target,
    ensures
        ({
            let after = run.stepped(movement, slot, style);
            let countable = run.version.revision.0 < u64::MAX && (style == CommitStyle::Joint
                ==> run.plan.record_revision.0 < u64::MAX);
            &&& after.fault is None <==> countable
            &&& !countable ==> after.fault == Some(RuntimeErrorModel::RevisionExhausted)
                && after.actions == run.actions && after.slots == run.slots
            &&& countable ==> {
                let written = after.slots[slot->0.key];
                &&& is_next(after.version, run.version)
                &&& written == (SlotModel {
                    target: Some(movement.target),
                    state: PlacementSlotState::BeginHandoff,
                    active_move: Some(run.plan.plan_id),
                    barrier_sessions: movement.barrier_sessions,
                    version: after.version,
                    ..slot->0
                })
                &&& after.slots == run.slots.insert(slot->0.key, written)
                &&& after.plan.moves == run.plan.moves.update(
                    at,
                    MoveModel { barrier_version: Some(after.version), ..movement },
                )
                &&& after.actions.len() == run.actions.len() + 2
                &&& after.actions.subrange(0, run.actions.len() as int) == run.actions
                &&& takes_up(after.actions.last(), run.plan.plan_id, movement, written)
                &&& style == CommitStyle::Separate ==> {
                    &&& after.changed
                    &&& after.plan.record_revision == run.plan.record_revision
                    &&& after.actions[run.actions.len() as int] == ActionModel::PutSlot(
                        SlotUpdateModel { expected: slot->0, slot: written },
                    )
                }
                &&& style == CommitStyle::Joint ==> {
                    &&& after.changed == run.changed
                    &&& after.plan.record_revision.0 == run.plan.record_revision.0 + 1
                    &&& after.actions[run.actions.len() as int] == ActionModel::ReserveMove(
                        ReservationModel {
                            expected_plan: run.plan,
                            plan: after.plan,
                            expected_slot: slot->0,
                            slot: written,
                        },
                    )
                }
            }
        }),
{
    let after = run.stepped(movement, slot, style);
    assert(crate::plan::is_move_of(run.plan.moves, movement.shard_id, at));
    assert(crate::plan::moves_shard(run.plan.moves, movement.shard_id));
    let k = crate::plan::move_index(run.plan.moves, movement.shard_id);
    assert(crate::plan::is_move_of(run.plan.moves, movement.shard_id, k));
    assert(k == at);
    if after.fault is None {
        assert(after.actions.subrange(0, run.actions.len() as int) =~= run.actions);
    }
}

/// A singleton under way is taken up as its slot shows it: from its owner to its target; or, if it
/// was handed over already, from the generation before, on the owner that it has now. A slot without
/// an owner or a target, or that was handed over in its first generation, makes no sense.
pub proof fn law_singletons_are_taken_up_as_they_stand(slot: SlotModel)
    ensures
        ({
            let handed = slot.state == PlacementSlotState::Allocating;
            let seed = singleton_seed(slot);
            &&& seed is Some <==> {
                &&& slot.active_move is Some
                &&& slot.owner is Some
                &&& handed ==> slot.assignment_generation.0 > 1
                &&& !handed ==> slot.target is Some
            }
            &&& seed is Some ==> {
                &&& seed->0.slot == slot
                &&& Some(seed->0.plan_id) == slot.active_move
                &&& Some(seed->0.source) == slot.owner
                &&& handed ==> Some(seed->0.target) == slot.owner
                    && seed->0.source_generation.0 + 1 == slot.assignment_generation.0
                &&& !handed ==> Some(seed->0.target) == slot.target && seed->0.source_generation
                    == slot.assignment_generation
                &&& seed->0.barrier_version == slot.version
                &&& seed->0.barrier_sessions == slot.barrier_sessions
            }
        }),
{
}

/// Whether some action takes up the handoff of a slot.
pub open spec fn is_taken_up(actions: Seq<ActionModel>, slot: SlotModel) -> bool {
    exists|i: int|
        0 <= i < actions.len() && (#[trigger] actions[i]) is ResumeHandoff
            && actions[i]->ResumeHandoff_0.slot == slot
}

/// Whether a slot is of a singleton under way whose handoff is not known.
pub open spec fn is_forgotten(
    handoffs: Set<SlotKeyModel>,
    key: SlotKeyModel,
    slot: SlotModel,
) -> bool {
    key is Singleton && slot.active_move is Some && !handoffs.contains(key)
}

proof fn lemma_with_singletons(
    recovery: RecoveryModel,
    handoffs: Set<SlotKeyModel>,
    keys: Seq<SlotKeyModel>,
    n: int,
)
    requires
        0 <= n <= keys.len(),
        recovery.fault is None,
    ensures
        ({
            let after = recovery.with_singletons(handoffs, keys, n);
            &&& after.slots == recovery.slots
            &&& after.plans == recovery.plans
            &&& after.version == recovery.version
            &&& after.fault is None ==> forall|i: int|
                0 <= i < n && is_forgotten(handoffs, #[trigger] keys[i], recovery.slots[keys[i]])
                    ==> is_taken_up(after.actions, recovery.slots[keys[i]])
            &&& after.fault is Some ==> after.fault == Some(RuntimeErrorModel::StaleHandoff)
            &&& after.actions.len() >= recovery.actions.len()
            &&& after.actions.subrange(0, recovery.actions.len() as int) == recovery.actions
            &&& forall|j: int|
                recovery.actions.len() <= j < after.actions.len() ==> is_resumption(
                    handoffs,
                    recovery.slots,
                    keys,
                    #[trigger] after.actions[j],
                )
        }),
    decreases n,
{
    if n > 0 {
        lemma_with_singletons(recovery, handoffs, keys, n - 1);
        let before = recovery.with_singletons(handoffs, keys, n - 1);
        let after = recovery.with_singletons(handoffs, keys, n);
        let slot = recovery.slots[keys[n - 1]];
        law_singletons_are_taken_up_as_they_stand(slot);
        assert(after.actions.subrange(0, recovery.actions.len() as int)
            =~= before.actions.subrange(0, recovery.actions.len() as int));
        if after.actions.len() > before.actions.len() {
            assert(keys.contains(keys[n - 1]));
        }
        assert forall|j: int|
            recovery.actions.len() <= j < after.actions.len() implies is_resumption(
            handoffs,
            recovery.slots,
            keys,
            #[trigger] after.actions[j],
        ) by {
            if j < before.actions.len() {
                assert(after.actions[j] == before.actions[j]);
            }
        }
        if after.fault is None {
            assert forall|i: int|
                0 <= i < n && is_forgotten(
                    handoffs,
                    #[trigger] keys[i],
                    recovery.slots[keys[i]],
                ) implies is_taken_up(after.actions, recovery.slots[keys[i]]) by {
                if i < n - 1 {
                    let j = choose|j: int|
                        0 <= j < before.actions.len() && (#[trigger] before.actions[j])
                            is ResumeHandoff && before.actions[j]->ResumeHandoff_0.slot
                            == recovery.slots[keys[i]];
                    assert(after.actions[j] == before.actions[j]);
                } else {
                    assert(after.actions[before.actions.len() as int]->ResumeHandoff_0.slot == slot);
                }
            }
        }
    } else {
        assert(recovery.actions.subrange(0, recovery.actions.len() as int) =~= recovery.actions);
    }
}

/// Whether an action takes up a forgotten singleton.
pub open spec fn is_resumption(
    handoffs: Set<SlotKeyModel>,
    slots: Map<SlotKeyModel, SlotModel>,
    keys: Seq<SlotKeyModel>,
    action: ActionModel,
) -> bool {
    &&& action is ResumeHandoff
    &&& exists|key: SlotKeyModel| #[trigger]
        keys.contains(key) && is_forgotten(handoffs, key, slots[key])
            && action->ResumeHandoff_0.slot == slots[key]
}

/// When recovery succeeds, every singleton under way whose handoff is not known is taken up.
pub proof fn law_recovery_forgets_no_singleton(
    leader: LeaderModel,
    slots: Map<SlotKeyModel, SlotModel>,
    style: CommitStyle,
    key: SlotKeyModel,
)
    requires
        leader.recovered(slots, style).fault is None,
        leader.recovered(slots, style).slots.contains_key(key),
        leader.recovered(slots, style).slots.dom().finite(),
        is_forgotten(leader.handoffs.dom(), key, leader.recovered(slots, style).slots[key]),
    ensures
        is_taken_up(
            leader.recovered(slots, style).actions,
            leader.recovered(slots, style).slots[key],
        ),
{
    let ids = ranked::<u128>(leader.plans.dom());
    let planned = RecoveryModel {
        version: leader.version,
        plans: leader.plans,
        slots,
        actions: Seq::empty(),
        fault: None,
    }.with_plans(ids, style, ids.len() as int);
    let keys = ranked::<PlacementSlotKey>(planned.slots.dom());
    if planned.fault is Some {
        lemma_faulted_singletons(planned, leader.handoffs.dom(), keys, keys.len() as int);
    } else {
        lemma_with_singletons(planned, leader.handoffs.dom(), keys, keys.len() as int);
        lemma_ranked_lists::<PlacementSlotKey>(planned.slots.dom());
        assert(keys.to_set().contains(key));
        let i = choose|i: int| 0 <= i < keys.len() && keys[i] == key;
        assert(is_forgotten(leader.handoffs.dom(), keys[i], planned.slots[keys[i]]));
    }
}

proof fn lemma_faulted_singletons(
    recovery: RecoveryModel,
    handoffs: Set<SlotKeyModel>,
    keys: Seq<SlotKeyModel>,
    n: int,
)
    requires
        recovery.fault is Some,
    ensures
        recovery.with_singletons(handoffs, keys, n) == recovery,
    decreases n,
{
    if n > 0 {
        lemma_faulted_singletons(recovery, handoffs, keys, n - 1);
    }
}

/// One plan is gone through from what the plans before it left, move by move and in their order. If
/// that changed it, it is stored anew over what it was, as the next record of it, and all that was
/// written for its moves comes before.
pub proof fn law_changed_plans_are_stored_last(
    recovery: RecoveryModel,
    plan_id: u128,
    style: CommitStyle,
)
    ensures
        ({
            let plan = recovery.plans[plan_id];
            let run = plan_recovery(recovery.version, plan, recovery.slots).stepped_first(
                plan.moves,
                style,
                plan.moves.len() as int,
            );
            let after = recovery.with_plan(plan_id, style);
            let stored = run.fault is None && run.changed;
            let countable = run.plan.record_revision.0 < u64::MAX;
            &&& recovery.fault is Some ==> after == recovery
            &&& recovery.fault is None ==> {
                &&& after.version == run.version
                &&& after.slots == run.slots
                &&& after.fault is None <==> run.fault is None && (stored ==> countable)
                &&& run.fault is Some ==> after.fault == run.fault
                &&& stored && countable ==> {
                    let written = after.plans[plan_id];
                    &&& after.plans == recovery.plans.insert(plan_id, written)
                    &&& written == (PlanModel {
                        record_revision: written.record_revision,
                        ..run.plan
                    })
                    &&& written.record_revision.0 == run.plan.record_revision.0 + 1
                    &&& after.actions == (recovery.actions + run.actions).push(
                        ActionModel::UpdatePlan(
                            PlanUpdateModel { expected: run.plan, plan: written },
                        ),
                    )
                }
                &&& !stored ==> after.plans == recovery.plans && after.actions == recovery.actions
                    + run.actions
            }
        }),
{
}

/// Moves are gone through one by one, each from the slot of its shard as those before it left it.
pub proof fn law_moves_are_taken_in_turn(
    run: PlanRecoveryModel,
    moves: Seq<MoveModel>,
    style: CommitStyle,
    n: int,
)
    requires
        0 < n <= moves.len(),
    ensures
        run.stepped_first(moves, style, 0) == run,
        ({
            let before = run.stepped_first(moves, style, n - 1);
            let key = SlotKeyModel::Shard {
                domain: run.plan.domain,
                entity_type: run.plan.entity_type,
                shard_id: moves[n - 1].shard_id,
            };
            &&& before.slots.contains_key(key) ==> run.stepped_first(moves, style, n)
                == before.stepped(moves[n - 1], Some(before.slots[key]), style)
            &&& !before.slots.contains_key(key) ==> run.stepped_first(moves, style, n)
                == before.stepped(moves[n - 1], None, style)
        }),
{
}

/// The recovery of a plan begins with what is stored, with nothing changed and nothing done.
pub proof fn law_recovery_begins_with_what_is_stored(
    version: VersionModel,
    plan: PlanModel,
    slots: Map<SlotKeyModel, SlotModel>,
)
    ensures
        ({
            let run = plan_recovery(version, plan, slots);
            &&& run.version == version
            &&& run.plan == plan
            &&& run.slots == slots
            &&& !run.changed
            &&& run.actions.len() == 0
            &&& run.fault is None
        }),
{
}

/// Where there are no plans and no singleton is under way, there is nothing to recover.
pub proof fn law_a_settled_cluster_needs_no_recovery(
    leader: LeaderModel,
    slots: Map<SlotKeyModel, SlotModel>,
    style: CommitStyle,
)
    requires
        slots.dom().finite(),
        leader.plans == Map::<u128, PlanModel>::empty(),
        forall|key: SlotKeyModel| #[trigger]
            slots.contains_key(key) ==> slots[key].active_move is None,
    ensures
        ({
            let recovery = leader.recovered(slots, style);
            &&& recovery.version == leader.version
            &&& recovery.plans == leader.plans
            &&& recovery.slots == slots
            &&& recovery.actions.len() == 0
            &&& recovery.fault is None
        }),
{
    let ids = ranked::<u128>(leader.plans.dom());
    lemma_ranked_lists::<u128>(leader.plans.dom());
    if ids.len() > 0 {
        assert(ids.to_set().contains(ids[0]));
    }
    let keys = ranked::<PlacementSlotKey>(slots.dom());
    lemma_ranked_lists::<PlacementSlotKey>(slots.dom());
    let start = RecoveryModel {
        version: leader.version,
        plans: leader.plans,
        slots,
        actions: Seq::empty(),
        fault: None,
    };
    assert forall|i: int| 0 <= i < keys.len() implies slots[#[trigger] keys[i]].active_move
        is None by {
        assert(keys.to_set().contains(keys[i]));
        assert(slots.contains_key(keys[i]));
    }
    lemma_nothing_under_way(start, leader.handoffs.dom(), keys, keys.len() as int);
}

proof fn lemma_nothing_under_way(
    recovery: RecoveryModel,
    handoffs: Set<SlotKeyModel>,
    keys: Seq<SlotKeyModel>,
    n: int,
)
    requires
        0 <= n <= keys.len(),
        forall|i: int|
            0 <= i < keys.len() ==> recovery.slots[#[trigger] keys[i]].active_move is None,
    ensures
        recovery.with_singletons(handoffs, keys, n) == recovery,
    decreases n,
{
    if n > 0 {
        lemma_nothing_under_way(recovery, handoffs, keys, n - 1);
        assert(recovery.slots[keys[n - 1]].active_move is None);
    }
}

} // verus!
