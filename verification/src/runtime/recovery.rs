//! What a new leader makes of the plans and slots that it finds.
use vstd::prelude::*;

use crate::keymap::{option_view, seq_view, Key};
use crate::plan::{
    lemma_filter_step, moves_shard, MoveModel, MoveProgress, PlanModel, RebalanceMove,
    RebalancePlan,
};
use crate::runtime::errors::{CoordinatorRuntimeError, RuntimeErrorModel};
use crate::runtime::handoffs::{
    enter_handoff, entering, is_owner, MoveReservation, ReservationModel,
};
use crate::runtime::planning::{
    revise, revised, slot_matches, slot_still_matches, PlanUpdate, PlanUpdateModel,
};
use crate::runtime::state::{LeaderModel, CoordinatorLeader};
use crate::sessions::SessionSet;
use crate::sorted::{lemma_ranked, ranked, SortedMap};
use crate::types::{
    AssignmentGeneration, NodeIncarnation, NodeKey, NodeModel, PlacementSlot, PlacementSlotKey,
    PlacementSlotState, PlacementVersion, ShardId, SlotKeyModel, SlotModel, VersionModel,
};

verus! {

/// Whether a plan and the slot of its move are written together or one after the other.
#[derive(Debug, Clone, Copy, PartialEq, Eq, Structural)]
pub enum CommitStyle {
    Joint,
    Separate,
}

/// A slot that is to be written over what is expected.
#[derive(Debug)]
pub struct SlotUpdate {
    pub expected: PlacementSlot,
    pub slot: PlacementSlot,
}

#[verifier::ext_equal]
pub struct SlotUpdateModel {
    pub expected: SlotModel,
    pub slot: SlotModel,
}

impl View for SlotUpdate {
    type V = SlotUpdateModel;

    open spec fn view(&self) -> SlotUpdateModel {
        SlotUpdateModel { expected: self.expected@, slot: self.slot@ }
    }
}

/// A handoff that is to be taken up where it was left.
#[derive(Debug)]
pub struct HandoffSeed {
    pub slot: PlacementSlot,
    pub plan_id: u128,
    pub source: NodeKey,
    pub target: NodeKey,
    pub source_generation: AssignmentGeneration,
    pub barrier_version: PlacementVersion,
    pub barrier_sessions: SessionSet,
}

#[verifier::ext_equal]
pub struct SeedModel {
    pub slot: SlotModel,
    pub plan_id: u128,
    pub source: NodeModel,
    pub target: NodeModel,
    pub source_generation: AssignmentGeneration,
    pub barrier_version: VersionModel,
    pub barrier_sessions: Set<NodeIncarnation>,
}

impl View for HandoffSeed {
    type V = SeedModel;

    open spec fn view(&self) -> SeedModel {
        SeedModel {
            slot: self.slot@,
            plan_id: self.plan_id,
            source: self.source@,
            target: self.target@,
            source_generation: self.source_generation,
            barrier_version: self.barrier_version@,
            barrier_sessions: self.barrier_sessions@,
        }
    }
}

/// One thing that recovery does.
#[derive(Debug)]
pub enum RecoveryAction {
    ReserveMove(MoveReservation),
    PutSlot(SlotUpdate),
    UpdatePlan(PlanUpdate),
    ResumeHandoff(HandoffSeed),
}

pub enum ActionModel {
    ReserveMove(ReservationModel),
    PutSlot(SlotUpdateModel),
    UpdatePlan(PlanUpdateModel),
    ResumeHandoff(SeedModel),
}

impl View for RecoveryAction {
    type V = ActionModel;

    open spec fn view(&self) -> ActionModel {
        match self {
            RecoveryAction::ReserveMove(reservation) => ActionModel::ReserveMove(reservation@),
            RecoveryAction::PutSlot(update) => ActionModel::PutSlot(update@),
            RecoveryAction::UpdatePlan(update) => ActionModel::UpdatePlan(update@),
            RecoveryAction::ResumeHandoff(seed) => ActionModel::ResumeHandoff(seed@),
        }
    }
}

/// How far the recovery of one plan has come.
struct PlanRecovery {
    version: PlacementVersion,
    plan: RebalancePlan,
    changed: bool,
    slots: SortedMap<PlacementSlotKey, PlacementSlot>,
    actions: Vec<RecoveryAction>,
    fault: Option<CoordinatorRuntimeError>,
}

/// How far the recovery of one plan has come: the version, the plan and whether it changed, the
/// slots as they are then stored, what was done, and why it stopped, if it did.
#[verifier::ext_equal]
pub struct PlanRecoveryModel {
    pub version: VersionModel,
    pub plan: PlanModel,
    pub changed: bool,
    pub slots: Map<SlotKeyModel, SlotModel>,
    pub actions: Seq<ActionModel>,
    pub fault: Option<RuntimeErrorModel>,
}

impl View for PlanRecovery {
    type V = PlanRecoveryModel;

    closed spec fn view(&self) -> PlanRecoveryModel {
        PlanRecoveryModel {
            version: self.version@,
            plan: self.plan@,
            changed: self.changed,
            slots: self.slots@,
            actions: seq_view(self.actions@),
            fault: option_view(self.fault),
        }
    }
}

impl PlanRecoveryModel {
    pub open spec fn failed(self, fault: RuntimeErrorModel) -> PlanRecoveryModel {
        PlanRecoveryModel { fault: Some(fault), ..self }
    }

    pub open spec fn cancelled(self, shard_id: ShardId) -> PlanRecoveryModel {
        let (plan, fault) = self.plan.cancelled(shard_id);
        if fault is Some {
            self.failed(RuntimeErrorModel::Plan(fault->0))
        } else {
            PlanRecoveryModel { plan, changed: true, ..self }
        }
    }

    pub open spec fn completed(self, shard_id: ShardId) -> PlanRecoveryModel {
        let (plan, fault) = self.plan.completed(shard_id);
        if fault is Some {
            self.failed(RuntimeErrorModel::Plan(fault->0))
        } else {
            PlanRecoveryModel { plan, changed: true, ..self }
        }
    }

    /// A handoff that the slot already shows is taken up.
    pub open spec fn resumed(
        self,
        movement: MoveModel,
        slot: SlotModel,
        version: VersionModel,
        sessions: Set<NodeIncarnation>,
    ) -> PlanRecoveryModel {
        PlanRecoveryModel {
            actions: self.actions.push(
                ActionModel::ResumeHandoff(
                    SeedModel {
                        slot,
                        plan_id: self.plan.plan_id,
                        source: movement.source,
                        target: movement.target,
                        source_generation: movement.expected_generation,
                        barrier_version: version,
                        barrier_sessions: sessions,
                    },
                ),
            ),
            ..self
        }
    }

    /// The plan with another barrier version for a shard.
    pub open spec fn rebarred(self, shard_id: ShardId, version: VersionModel) -> PlanModel {
        if moves_shard(self.plan.moves, shard_id) {
            self.plan.with_move(
                shard_id,
                MoveModel {
                    barrier_version: Some(version),
                    ..self.plan.movement(shard_id)
                },
            )
        } else {
            self.plan
        }
    }

    /// A handoff that the slot does not show yet is begun again. The slot that is written is what
    /// later moves find.
    pub open spec fn rebegun(
        self,
        movement: MoveModel,
        slot: SlotModel,
        style: CommitStyle,
    ) -> PlanRecoveryModel {
        match self.version.spec_next() {
            None => self.failed(RuntimeErrorModel::RevisionExhausted),
            Some(version) => {
                let plan = self.rebarred(movement.shard_id, version);
                let entered = entering(
                    slot,
                    movement.target,
                    self.plan.plan_id,
                    movement.barrier_sessions,
                    version,
                );
                let begun = match style {
                    CommitStyle::Separate => PlanRecoveryModel {
                        plan,
                        changed: true,
                        slots: self.slots.insert(entered.key, entered),
                        actions: self.actions.push(
                            ActionModel::PutSlot(
                                SlotUpdateModel { expected: slot, slot: entered },
                            ),
                        ),
                        version,
                        ..self
                    },
                    CommitStyle::Joint => match revised(plan) {
                        Err(error) => self.failed(error),
                        Ok(next) => PlanRecoveryModel {
                            plan: next,
                            slots: self.slots.insert(entered.key, entered),
                            actions: self.actions.push(
                                ActionModel::ReserveMove(
                                    ReservationModel {
                                        expected_plan: self.plan,
                                        plan: next,
                                        expected_slot: slot,
                                        slot: entered,
                                    },
                                ),
                            ),
                            version,
                            ..self
                        },
                    },
                };
                if begun.fault is Some {
                    begun
                } else {
                    begun.resumed(movement, entered, version, movement.barrier_sessions)
                }
            },
        }
    }

    /// What one move comes to, given its slot.
    pub open spec fn stepped(
        self,
        movement: MoveModel,
        slot: Option<SlotModel>,
        style: CommitStyle,
    ) -> PlanRecoveryModel {
        if self.fault is Some {
            self
        } else {
            match (movement.progress, slot) {
                (MoveProgress::Pending, None) => self.cancelled(movement.shard_id),
                (MoveProgress::Pending, Some(slot)) => if slot_matches(slot, movement) {
                    self
                } else {
                    self.cancelled(movement.shard_id)
                },
                (MoveProgress::Handoff, Some(slot)) => {
                    let landed = slot.state == PlacementSlotState::Running && slot.owner == Some(
                        movement.target,
                    );
                    let next = movement.expected_generation.spec_next();
                    if landed && next is None {
                        self.failed(RuntimeErrorModel::RevisionExhausted)
                    } else if landed && slot.assignment_generation == next->0 && slot.active_move
                        is None {
                        self.completed(movement.shard_id)
                    } else if slot_matches(slot, movement) {
                        self.rebegun(movement, slot, style)
                    } else {
                        self.resumed(movement, slot, slot.version, slot.barrier_sessions)
                    }
                },
                _ => self,
            }
        }
    }

    /// What the first `n` of some moves come to, each by its slot as the moves before it leave it.
    pub open spec fn stepped_first(
        self,
        moves: Seq<MoveModel>,
        style: CommitStyle,
        n: int,
    ) -> PlanRecoveryModel
        decreases n,
    {
        if n <= 0 {
            self
        } else {
            let before = self.stepped_first(moves, style, n - 1);
            let key = SlotKeyModel::Shard {
                domain: self.plan.domain,
                entity_type: self.plan.entity_type,
                shard_id: moves[n - 1].shard_id,
            };
            before.stepped(
                moves[n - 1],
                if before.slots.contains_key(key) {
                    Some(before.slots[key])
                } else {
                    None
                },
                style,
            )
        }
    }
}

impl PlanRecovery {
    fn fail(&mut self, fault: CoordinatorRuntimeError)
        ensures
            final(self)@ == old(self)@.failed(fault@),
    {
        self.fault = Some(fault);
    }

    fn cancel(&mut self, shard_id: ShardId)
        ensures
            final(self)@ == old(self)@.cancelled(shard_id),
    {
        match self.plan.cancel_pending_move(shard_id) {
            Ok(()) => {
                self.changed = true;
            },
            Err(error) => {
                self.fail(CoordinatorRuntimeError::Plan(error));
            },
        }
        assert(self@ =~= old(self)@.cancelled(shard_id));
    }

    fn complete(&mut self, shard_id: ShardId)
        ensures
            final(self)@ == old(self)@.completed(shard_id),
    {
        match self.plan.complete_move(shard_id) {
            Ok(()) => {
                self.changed = true;
            },
            Err(error) => {
                self.fail(CoordinatorRuntimeError::Plan(error));
            },
        }
        assert(self@ =~= old(self)@.completed(shard_id));
    }

    fn push_action(&mut self, action: RecoveryAction)
        ensures
            final(self)@ == (PlanRecoveryModel {
                actions: old(self)@.actions.push(action@),
                ..old(self)@
            }),
    {
        self.actions.push(action);
        assert(seq_view(self.actions@) =~= old(self)@.actions.push(action@));
    }

    fn resume(
        &mut self,
        movement: &RebalanceMove,
        slot: &PlacementSlot,
        version: &PlacementVersion,
        sessions: &SessionSet,
    )
        ensures
            final(self)@ == old(self)@.resumed(movement@, slot@, version@, sessions@),
    {
        let seed = HandoffSeed {
            slot: slot.copy_slot(),
            plan_id: self.plan.plan_id,
            source: movement.source.copy(),
            target: movement.target.copy(),
            source_generation: movement.expected_generation,
            barrier_version: version.copy(),
            barrier_sessions: sessions.copy(),
        };
        self.push_action(RecoveryAction::ResumeHandoff(seed));
    }

    fn rebar(&self, shard_id: ShardId, version: &PlacementVersion) -> (plan: RebalancePlan)
        ensures
            plan@ == self@.rebarred(shard_id, version@),
    {
        let mut plan = self.plan.copy_plan();
        match plan.find_move(shard_id) {
            Some(at) => {
                assert(plan@.moves[at as int] == plan.moves@[at as int]@);
                let mut movement = plan.moves[at].copy_move();
                movement.barrier_version = Some(version.copy());
                plan.set_move(at, movement);
            },
            None => {},
        }
        assert(plan@ =~= self@.rebarred(shard_id, version@));
        plan
    }

    fn begin_again(&mut self, movement: &RebalanceMove, slot: &PlacementSlot, style: CommitStyle)
        requires
            old(self)@.fault is None,
        ensures
            final(self)@ == old(self)@.rebegun(movement@, slot@, style),
    {
        let version = match self.version.next_revision() {
            None => {
                self.fail(CoordinatorRuntimeError::RevisionExhausted);
                return;
            },
            Some(version) => version,
        };
        let plan = self.rebar(movement.shard_id, &version);
        let entered = enter_handoff(
            slot,
            &movement.target,
            self.plan.plan_id,
            &movement.barrier_sessions,
            &version,
        );
        match style {
            CommitStyle::Separate => {
                self.plan = plan;
                self.changed = true;
                self.version = version.copy();
                self.slots.insert(entered.key.copy(), entered.copy_slot());
                self.push_action(
                    RecoveryAction::PutSlot(
                        SlotUpdate { expected: slot.copy_slot(), slot: entered.copy_slot() },
                    ),
                );
            },
            CommitStyle::Joint => {
                let expected_plan = self.plan.copy_plan();
                match revise(plan) {
                    Err(error) => {
                        self.fail(error);
                        return;
                    },
                    Ok(next) => {
                        self.plan = next.copy_plan();
                        self.version = version.copy();
                        self.slots.insert(entered.key.copy(), entered.copy_slot());
                        self.push_action(
                            RecoveryAction::ReserveMove(
                                MoveReservation {
                                    expected_plan,
                                    plan: next,
                                    expected_slot: slot.copy_slot(),
                                    slot: entered.copy_slot(),
                                },
                            ),
                        );
                    },
                }
            },
        }
        self.resume(movement, &entered, &version, &movement.barrier_sessions);
    }

    fn step(&mut self, movement: &RebalanceMove, slot: &Option<PlacementSlot>, style: CommitStyle)
        requires
            old(self)@.fault is None,
        ensures
            final(self)@ == old(self)@.stepped(movement@, option_view(*slot), style),
    {
        match movement.progress {
            MoveProgress::Pending => match slot {
                None => {
                    self.cancel(movement.shard_id);
                },
                Some(slot) => {
                    if !slot_still_matches(slot, movement) {
                        self.cancel(movement.shard_id);
                    }
                },
            },
            MoveProgress::Handoff => match slot {
                None => {},
                Some(slot) => {
                    let landed = slot.state == PlacementSlotState::Running && is_owner(
                        slot,
                        &movement.target,
                    );
                    if landed {
                        match movement.expected_generation.next() {
                            None => {
                                self.fail(CoordinatorRuntimeError::RevisionExhausted);
                                return;
                            },
                            Some(next) => {
                                if slot.assignment_generation == next && slot.active_move.is_none() {
                                    self.complete(movement.shard_id);
                                    return;
                                }
                            },
                        }
                    }
                    if slot_still_matches(slot, movement) {
                        self.begin_again(movement, slot, style);
                    } else {
                        self.resume(movement, slot, &slot.version, &slot.barrier_sessions);
                    }
                },
            },
            _ => {},
        }
    }
}

/// What recovery has come to over several plans: the version, the plans and slots as they are then
/// stored, what was done, and why it stopped, if it did.
#[verifier::ext_equal]
pub struct RecoveryModel {
    pub version: VersionModel,
    pub plans: Map<u128, PlanModel>,
    pub slots: Map<SlotKeyModel, SlotModel>,
    pub actions: Seq<ActionModel>,
    pub fault: Option<RuntimeErrorModel>,
}

/// The recovery of one plan from its beginning.
pub open spec fn plan_recovery(
    version: VersionModel,
    plan: PlanModel,
    slots: Map<SlotKeyModel, SlotModel>,
) -> PlanRecoveryModel {
    PlanRecoveryModel { version, plan, changed: false, slots, actions: Seq::empty(), fault: None }
}

impl RecoveryModel {
    /// Recovery once one more plan is gone through.
    pub open spec fn with_plan(self, plan_id: u128, style: CommitStyle) -> RecoveryModel {
        let plan = self.plans[plan_id];
        let run = plan_recovery(self.version, plan, self.slots).stepped_first(
            plan.moves,
            style,
            plan.moves.len() as int,
        );
        let after = RecoveryModel {
            version: run.version,
            slots: run.slots,
            actions: self.actions + run.actions,
            fault: run.fault,
            ..self
        };
        if self.fault is Some {
            self
        } else if run.fault is Some || !run.changed {
            after
        } else {
            match revised(run.plan) {
                Err(error) => RecoveryModel { fault: Some(error), ..after },
                Ok(next) => RecoveryModel {
                    plans: after.plans.insert(plan_id, next),
                    actions: after.actions.push(
                        ActionModel::UpdatePlan(
                            PlanUpdateModel { expected: run.plan, plan: next },
                        ),
                    ),
                    ..after
                },
            }
        }
    }

    /// Recovery once the first `n` plans are gone through.
    pub open spec fn with_plans(self, ids: Seq<u128>, style: CommitStyle, n: int) -> RecoveryModel
        decreases n,
    {
        if n <= 0 {
            self
        } else {
            self.with_plans(ids, style, n - 1).with_plan(ids[n - 1], style)
        }
    }

    /// Recovery once one more slot of a singleton is looked at.
    pub open spec fn with_singleton(
        self,
        handoffs: Set<SlotKeyModel>,
        key: SlotKeyModel,
        slot: SlotModel,
    ) -> RecoveryModel {
        if self.fault is Some || !(key is Singleton) || slot.active_move is None
            || handoffs.contains(key) {
            self
        } else {
            match singleton_seed(slot) {
                None => RecoveryModel { fault: Some(RuntimeErrorModel::StaleHandoff), ..self },
                Some(seed) => RecoveryModel {
                    actions: self.actions.push(ActionModel::ResumeHandoff(seed)),
                    ..self
                },
            }
        }
    }

    /// Recovery once the first `n` slots are looked at.
    pub open spec fn with_singletons(
        self,
        handoffs: Set<SlotKeyModel>,
        keys: Seq<SlotKeyModel>,
        n: int,
    ) -> RecoveryModel
        decreases n,
    {
        if n <= 0 {
            self
        } else {
            self.with_singletons(handoffs, keys, n - 1).with_singleton(
                handoffs,
                keys[n - 1],
                self.slots[keys[n - 1]],
            )
        }
    }
}

/// The handoff of a singleton, as its slot shows it; nothing if the slot makes no sense.
pub open spec fn singleton_seed(slot: SlotModel) -> Option<SeedModel> {
    match (slot.active_move, slot.owner) {
        (Some(plan_id), Some(owner)) => if slot.state == PlacementSlotState::Allocating {
            if slot.assignment_generation.0 <= 1 {
                None
            } else {
                Some(
                    SeedModel {
                        slot,
                        plan_id,
                        source: owner,
                        target: owner,
                        source_generation: AssignmentGeneration(
                            (slot.assignment_generation.0 - 1) as u64,
                        ),
                        barrier_version: slot.version,
                        barrier_sessions: slot.barrier_sessions,
                    },
                )
            }
        } else {
            match slot.target {
                None => None,
                Some(target) => Some(
                    SeedModel {
                        slot,
                        plan_id,
                        source: owner,
                        target,
                        source_generation: slot.assignment_generation,
                        barrier_version: slot.version,
                        barrier_sessions: slot.barrier_sessions,
                    },
                ),
            }
        },
        _ => None,
    }
}

fn seed_singleton(slot: &PlacementSlot) -> (seed: Option<HandoffSeed>)
    ensures
        option_view(seed) == singleton_seed(slot@),
{
    let plan_id = match slot.active_move {
        Some(plan_id) => plan_id,
        None => {
            return None;
        },
    };
    let owner = match &slot.owner {
        Some(owner) => owner,
        None => {
            return None;
        },
    };
    if slot.state == PlacementSlotState::Allocating {
        if slot.assignment_generation.0 <= 1 {
            return None;
        }
        Some(
            HandoffSeed {
                slot: slot.copy_slot(),
                plan_id,
                source: owner.copy(),
                target: owner.copy(),
                source_generation: AssignmentGeneration(slot.assignment_generation.0 - 1),
                barrier_version: slot.version.copy(),
                barrier_sessions: slot.barrier_sessions.copy(),
            },
        )
    } else {
        match &slot.target {
            None => None,
            Some(target) => Some(
                HandoffSeed {
                    slot: slot.copy_slot(),
                    plan_id,
                    source: owner.copy(),
                    target: target.copy(),
                    source_generation: slot.assignment_generation,
                    barrier_version: slot.version.copy(),
                    barrier_sessions: slot.barrier_sessions.copy(),
                },
            ),
        }
    }
}

impl LeaderModel {
    /// What recovery comes to, given the slots as they are stored.
    pub open spec fn recovered(
        self,
        slots: Map<SlotKeyModel, SlotModel>,
        style: CommitStyle,
    ) -> RecoveryModel {
        let ids = ranked::<u128>(self.plans.dom());
        let planned = RecoveryModel {
            version: self.version,
            plans: self.plans,
            slots,
            actions: Seq::empty(),
            fault: None,
        }.with_plans(ids, style, ids.len() as int);
        let keys = ranked::<PlacementSlotKey>(planned.slots.dom());
        planned.with_singletons(self.handoffs.dom(), keys, keys.len() as int)
    }
}

proof fn lemma_steps_stop(
    run: PlanRecoveryModel,
    moves: Seq<MoveModel>,
    style: CommitStyle,
    at: int,
    n: int,
)
    requires
        at <= n,
        run.stepped_first(moves, style, at).fault is Some,
    ensures
        run.stepped_first(moves, style, n) == run.stepped_first(moves, style, at),
    decreases n - at,
{
    if at < n {
        lemma_steps_stop(run, moves, style, at, n - 1);
    }
}

proof fn lemma_plans_stop(
    run: RecoveryModel,
    ids: Seq<u128>,
    style: CommitStyle,
    at: int,
    n: int,
)
    requires
        at <= n,
        run.with_plans(ids, style, at).fault is Some,
    ensures
        run.with_plans(ids, style, n) == run.with_plans(ids, style, at),
    decreases n - at,
{
    if at < n {
        lemma_plans_stop(run, ids, style, at, n - 1);
    }
}

proof fn lemma_singletons_stop(
    run: RecoveryModel,
    handoffs: Set<SlotKeyModel>,
    keys: Seq<SlotKeyModel>,
    at: int,
    n: int,
)
    requires
        at <= n,
        run.with_singletons(handoffs, keys, at).fault is Some,
    ensures
        run.with_singletons(handoffs, keys, n) == run.with_singletons(handoffs, keys, at),
    decreases n - at,
{
    if at < n {
        lemma_singletons_stop(run, handoffs, keys, at, n - 1);
    }
}

fn recover_plan(
    version: PlacementVersion,
    plan: &RebalancePlan,
    slots: SortedMap<PlacementSlotKey, PlacementSlot>,
    style: CommitStyle,
) -> (run: PlanRecovery)
    ensures
        run@ == plan_recovery(version@, plan@, slots@).stepped_first(
            plan@.moves,
            style,
            plan@.moves.len() as int,
        ),
{
    let ghost first = plan_recovery(version@, plan@, slots@);
    let mut run = PlanRecovery {
        version,
        plan: plan.copy_plan(),
        changed: false,
        slots,
        actions: Vec::new(),
        fault: None,
    };
    assert(run@ =~= first);
    let mut i: usize = 0;
    while i < plan.moves.len()
        invariant
            i <= plan.moves.len(),
            first == plan_recovery(version@, plan@, slots@),
            run@ == first.stepped_first(plan@.moves, style, i as int),
            run@.fault is None,
        decreases plan.moves.len() - i,
    {
        let movement = &plan.moves[i];
        assert(plan@.moves[i as int] == movement@);
        let key = PlacementSlotKey::Shard {
            domain: plan.domain.copy(),
            entity_type: plan.entity_type.copy(),
            shard_id: movement.shard_id,
        };
        let slot = match run.slots.get(&key) {
            Some(slot) => Some(slot.copy_slot()),
            None => None,
        };
        run.step(movement, &slot, style);
        i = i + 1;
        if run.fault.is_some() {
            proof {
                lemma_steps_stop(
                    first,
                    plan@.moves,
                    style,
                    i as int,
                    plan@.moves.len() as int,
                );
            }
            return run;
        }
    }
    run
}

fn append_actions(actions: &mut Vec<RecoveryAction>, more: Vec<RecoveryAction>)
    ensures
        seq_view(final(actions)@) == seq_view(old(actions)@) + seq_view(more@),
{
    let ghost added = seq_view(more@);
    let mut more = more;
    actions.append(&mut more);
    assert(seq_view(actions@) =~= seq_view(old(actions)@) + added);
}

impl CoordinatorLeader {
    /// Goes through one plan.
    fn recover_one(
        &mut self,
        plan_id: u128,
        slots: &mut SortedMap<PlacementSlotKey, PlacementSlot>,
        style: CommitStyle,
        actions: &mut Vec<RecoveryAction>,
    ) -> (fault: Option<CoordinatorRuntimeError>)
        requires
            old(self)@.plans.contains_key(plan_id),
        ensures
            ({
                let after = RecoveryModel {
                    version: old(self)@.version,
                    plans: old(self)@.plans,
                    slots: old(slots)@,
                    actions: seq_view(old(actions)@),
                    fault: None,
                }.with_plan(plan_id, style);
                &&& option_view(fault) == after.fault
                &&& final(slots)@ == after.slots
                &&& seq_view(final(actions)@) == after.actions
                &&& final(self)@ == (LeaderModel {
                    version: after.version,
                    plans: after.plans,
                    ..old(self)@
                })
            }),
    {
        let ghost after = RecoveryModel {
            version: self@.version,
            plans: self@.plans,
            slots: slots@,
            actions: seq_view(actions@),
            fault: None,
        }.with_plan(plan_id, style);
        let mut stored: SortedMap<PlacementSlotKey, PlacementSlot> = SortedMap::new();
        std::mem::swap(&mut stored, slots);
        let run = match self.plans.get(&plan_id) {
            Some(plan) => recover_plan(self.version.copy(), plan, stored, style),
            None => {
                return None;
            },
        };
        let PlanRecovery { version, plan: next, changed, slots: left, actions: more, fault } = run;
        append_actions(actions, more);
        *slots = left;
        self.version = version;
        if fault.is_some() {
            assert(self@ =~= (LeaderModel {
                version: after.version,
                plans: after.plans,
                ..old(self)@
            }));
            return fault;
        }
        if changed {
            let expected = next.copy_plan();
            match revise(next) {
                Err(error) => {
                    return Some(error);
                },
                Ok(next) => {
                    let ghost earlier = seq_view(actions@);
                    let update = PlanUpdate { expected, plan: next.copy_plan() };
                    let action = RecoveryAction::UpdatePlan(update);
                    actions.push(action);
                    assert(seq_view(actions@) =~= earlier.push(action@));
                    self.plans.insert(plan_id, next);
                },
            }
        }
        assert(self@ =~= (LeaderModel {
            version: after.version,
            plans: after.plans,
            ..old(self)@
        }));
        None
    }

    /// Looks at the slots of singletons.
    fn recover_singletons(
        &self,
        slots: &SortedMap<PlacementSlotKey, PlacementSlot>,
        actions: &mut Vec<RecoveryAction>,
    ) -> (fault: Option<CoordinatorRuntimeError>)
        ensures
            ({
                let keys = ranked::<PlacementSlotKey>(slots@.dom());
                let after = RecoveryModel {
                    version: self@.version,
                    plans: self@.plans,
                    slots: slots@,
                    actions: seq_view(old(actions)@),
                    fault: None,
                }.with_singletons(self@.handoffs.dom(), keys, keys.len() as int);
                &&& option_view(fault) == after.fault
                &&& seq_view(final(actions)@) == after.actions
                &&& after.version == self@.version
                &&& after.plans == self@.plans
            }),
    {
        let ghost begin = RecoveryModel {
            version: self@.version,
            plans: self@.plans,
            slots: slots@,
            actions: seq_view(actions@),
            fault: None,
        };
        let ghost keys = ranked::<PlacementSlotKey>(slots@.dom());
        let ghost handoffs = self@.handoffs.dom();
        let count = slots.len();
        let mut k: usize = 0;
        while k < count
            invariant
                k <= count,
                count == keys.len(),
                keys == ranked::<PlacementSlotKey>(slots@.dom()),
                handoffs == self@.handoffs.dom(),
                begin == (RecoveryModel {
                    version: self@.version,
                    plans: self@.plans,
                    slots: slots@,
                    actions: seq_view(old(actions)@),
                    fault: None,
                }),
                begin.with_singletons(handoffs, keys, k as int) == (RecoveryModel {
                    actions: seq_view(actions@),
                    ..begin
                }),
            decreases count - k,
        {
            let (key, slot) = slots.entry_at(k);
            let singleton = match key {
                PlacementSlotKey::Singleton { .. } => true,
                _ => false,
            };
            k = k + 1;
            if singleton && slot.active_move.is_some() && !self.handoffs.contains_key(key) {
                match seed_singleton(slot) {
                    None => {
                        proof {
                            lemma_singletons_stop(begin, handoffs, keys, k as int, count as int);
                        }
                        return Some(CoordinatorRuntimeError::StaleHandoff);
                    },
                    Some(seed) => {
                        let ghost earlier = seq_view(actions@);
                        let action = RecoveryAction::ResumeHandoff(seed);
                        actions.push(action);
                        assert(seq_view(actions@) =~= earlier.push(action@));
                    },
                }
            }
        }
        None
    }

    /// Goes through the plans and slots that are stored: what is to be done, in order, and why it
    /// stops, if it does. Each move goes by its slot as the moves before it leave it.
    pub fn recover_persisted_plans(
        &mut self,
        slots: SortedMap<PlacementSlotKey, PlacementSlot>,
        style: CommitStyle,
    ) -> (recovery: (Vec<RecoveryAction>, Option<CoordinatorRuntimeError>))
        ensures
            ({
                let recovered = old(self)@.recovered(slots@, style);
                &&& seq_view(recovery.0@) == recovered.actions
                &&& option_view(recovery.1) == recovered.fault
                &&& final(self)@ == (LeaderModel {
                    version: recovered.version,
                    plans: recovered.plans,
                    ..old(self)@
                })
            }),
    {
        let ghost begin = RecoveryModel {
            version: self@.version,
            plans: self@.plans,
            slots: slots@,
            actions: Seq::empty(),
            fault: None,
        };
        let ids = self.plans.keys();
        let count: usize = self.plans.len();
        let ghost list = ranked::<u128>(self.plans@.dom());
        let mut stored = slots;
        let mut actions: Vec<RecoveryAction> = Vec::new();
        assert(seq_view(actions@) =~= Seq::<ActionModel>::empty());
        let mut i: usize = 0;
        while i < count
            invariant
                i <= count,
                count == ids.len(),
                seq_view(ids@) == list,
                begin.plans.dom() == list.to_set(),
                begin == (RecoveryModel {
                    version: old(self)@.version,
                    plans: old(self)@.plans,
                    slots: slots@,
                    actions: Seq::empty(),
                    fault: None,
                }),
                list == ranked::<u128>(old(self)@.plans.dom()),
                begin.with_plans(list, style, i as int) == (RecoveryModel {
                    version: self@.version,
                    plans: self@.plans,
                    slots: stored@,
                    actions: seq_view(actions@),
                    fault: None,
                }),
                self@ == (LeaderModel {
                    version: self@.version,
                    plans: self@.plans,
                    ..old(self)@
                }),
            decreases count - i,
        {
            let plan_id = ids[i];
            proof {
                assert(seq_view(ids@)[i as int] == plan_id);
                lemma_plans_dom(begin, list, style, i as int);
                assert(list.to_set().contains(list[i as int]));
            }
            let fault = self.recover_one(plan_id, &mut stored, style, &mut actions);
            i = i + 1;
            if fault.is_some() {
                proof {
                    lemma_plans_stop(begin, list, style, i as int, list.len() as int);
                    let stopped = begin.with_plans(list, style, list.len() as int);
                    let keys = ranked::<PlacementSlotKey>(stopped.slots.dom());
                    lemma_singletons_stop(
                        stopped,
                        old(self)@.handoffs.dom(),
                        keys,
                        0,
                        keys.len() as int,
                    );
                }
                return (actions, fault);
            }
        }
        let fault = self.recover_singletons(&stored, &mut actions);
        (actions, fault)
    }

    /// The sessions that a handoff waits for and that are gone, in ascending order.
    pub fn departed_sessions(&self, key: &PlacementSlotKey, live: &SessionSet) -> (result: Result<
        Vec<NodeIncarnation>,
        CoordinatorRuntimeError,
    >)
        ensures
            match result {
                Ok(departed) => self@.handoffs.contains_key(key@) && departed@ == ranked::<
                    NodeIncarnation,
                >(self@.handoffs[key@].required_sessions).filter(
                    |session: NodeIncarnation| !live@.contains(session),
                ),
                Err(error) => !self@.handoffs.contains_key(key@) && error@
                    == RuntimeErrorModel::UnknownHandoff,
            },
    {
        let handoff = match self.handoffs.get(key) {
            Some(handoff) => handoff,
            None => {
                return Err(CoordinatorRuntimeError::UnknownHandoff);
            },
        };
        let required = handoff.required_sessions.to_vec();
        let ghost gone = |session: NodeIncarnation| !live@.contains(session);
        proof {
            assert(crate::sorted::ascending::<NodeIncarnation>(required@));
            lemma_ranked::<NodeIncarnation>(required@);
        }
        let mut departed: Vec<NodeIncarnation> = Vec::new();
        let mut i: usize = 0;
        assert(required@.subrange(0, 0).filter(gone) =~= Seq::<NodeIncarnation>::empty()) by {
            reveal(Seq::filter);
        }
        while i < required.len()
            invariant
                i <= required.len(),
                gone == (|session: NodeIncarnation| !live@.contains(session)),
                departed@ == required@.subrange(0, i as int).filter(gone),
            decreases required.len() - i,
        {
            proof {
                lemma_filter_step(required@, gone, i as int);
            }
            if !live.contains(required[i]) {
                departed.push(required[i]);
            }
            i = i + 1;
        }
        assert(required@.subrange(0, i as int) =~= required@);
        Ok(departed)
    }
}

/// Recovery neither drops nor invents plans.
proof fn lemma_plans_dom(
    run: RecoveryModel,
    ids: Seq<u128>,
    style: CommitStyle,
    n: int,
)
    requires
        0 <= n <= ids.len(),
        run.plans.dom() == ids.to_set(),
    ensures
        run.with_plans(ids, style, n).plans.dom() == ids.to_set(),
    decreases n,
{
    if n > 0 {
        lemma_plans_dom(run, ids, style, n - 1);
        assert(ids.to_set().contains(ids[n - 1]));
        assert(run.with_plans(ids, style, n).plans.dom() =~= ids.to_set());
    }
}

} // verus!
