//! The steps of a handoff: what is written to the slot, and who is told.
use vstd::prelude::*;

use crate::keymap::{option_view, seq_view, Key};
use crate::plan::{moves_shard, PlanModel, PlanReason, RebalancePlan};
use crate::runtime::errors::{outcome, runtime_fault, CoordinatorRuntimeError, RuntimeErrorModel};
use crate::runtime::handoff::{
    ClaimLease, ClaimLeaseModel, Handoff, HandoffEffect, HandoffEvent, HandoffEventModel,
    HandoffModel,
};
use crate::runtime::members::{AssociationKey, MemberSession};
use crate::runtime::planning::{revise, revised, PlanUpdate, PlanUpdateModel};
use crate::runtime::state::{LeaderModel, CoordinatorLeader};
use crate::sessions::SessionSet;
use crate::sorted::ranked;
use crate::time::MonotonicTime;
use crate::types::{
    AssignmentGeneration, ClaimGrant, ClaimModel, GrantSequence, NodeIncarnation, NodeKey,
    NodeModel, PlacementSlot, PlacementSlotKey, PlacementSlotState, PlacementVersion, ShardId,
    SlotKeyModel, SlotModel, VersionModel,
};

verus! {

impl LeaderModel {
    /// The sessions that must learn of a handoff of a shard.
    pub open spec fn subscribers(self, entity_type: Seq<char>) -> Set<NodeIncarnation> {
        Set::new(
            |session: NodeIncarnation|
                self.sessions.contains_key(session) && self.sessions[session].hello.subscribes(
                    entity_type,
                ),
        )
    }

    /// The sessions that must learn of a handoff of a singleton.
    pub open spec fn concerned(self, kind: Seq<char>) -> Set<NodeIncarnation> {
        Set::new(
            |session: NodeIncarnation|
                self.sessions.contains_key(session) && self.sessions[session].hello.concerns(kind),
        )
    }

    /// The sessions that are to see a slot.
    pub open spec fn audience(self, key: SlotKeyModel) -> Set<NodeIncarnation> {
        match key {
            SlotKeyModel::Shard { entity_type, .. } => self.subscribers(entity_type),
            SlotKeyModel::Singleton { kind, .. } => self.concerned(kind),
        }
    }

    /// Whether the member that a node names is connected.
    pub open spec fn is_connected(self, node: NodeModel) -> bool {
        self.sessions.contains_key(node.incarnation)
            && self.sessions[node.incarnation].hello.node == node
    }
}

/// A slot that enters a handoff.
pub open spec fn entering(
    slot: SlotModel,
    target: NodeModel,
    plan_id: u128,
    sessions: Set<NodeIncarnation>,
    version: VersionModel,
) -> SlotModel {
    SlotModel {
        target: Some(target),
        state: PlacementSlotState::BeginHandoff,
        active_move: Some(plan_id),
        barrier_sessions: sessions,
        version,
        ..slot
    }
}

pub fn enter_handoff(
    slot: &PlacementSlot,
    target: &NodeKey,
    plan_id: u128,
    sessions: &SessionSet,
    version: &PlacementVersion,
) -> (entered: PlacementSlot)
    ensures
        entered@ == entering(slot@, target@, plan_id, sessions@, version@),
{
    let mut entered = slot.copy_slot();
    entered.target = Some(target.copy());
    entered.state = PlacementSlotState::BeginHandoff;
    entered.active_move = Some(plan_id);
    entered.barrier_sessions = sessions.copy();
    entered.version = version.copy();
    entered
}

/// A move that is to be reserved: the plan and the slot, before and after.
#[derive(Debug)]
pub struct MoveReservation {
    pub expected_plan: RebalancePlan,
    pub plan: RebalancePlan,
    pub expected_slot: PlacementSlot,
    pub slot: PlacementSlot,
}

#[verifier::ext_equal]
pub struct ReservationModel {
    pub expected_plan: PlanModel,
    pub plan: PlanModel,
    pub expected_slot: SlotModel,
    pub slot: SlotModel,
}

impl View for MoveReservation {
    type V = ReservationModel;

    open spec fn view(&self) -> ReservationModel {
        ReservationModel {
            expected_plan: self.expected_plan@,
            plan: self.plan@,
            expected_slot: self.expected_slot@,
            slot: self.slot@,
        }
    }
}

impl LeaderModel {
    /// What beginning a move writes, or why it is refused.
    pub open spec fn beginning(
        self,
        plan_id: u128,
        shard_id: ShardId,
        slot: Option<SlotModel>,
    ) -> Result<ReservationModel, RuntimeErrorModel> {
        let plan = self.plans[plan_id];
        let movement = plan.movement(shard_id);
        if !self.plans.contains_key(plan_id) {
            Err(RuntimeErrorModel::UnknownPlan)
        } else if !moves_shard(plan.moves, shard_id) || slot is None {
            Err(RuntimeErrorModel::UnknownSlot)
        } else {
            let slot = slot->0;
            let (begun, refused) = plan.begun(
                shard_id,
                slot.assignment_generation,
                slot.active_move,
            );
            let version = self.version.spec_next();
            let sessions = self.subscribers(plan.entity_type);
            let (barred, rejected) = begun.barred(shard_id, version->0, sessions);
            if refused is Some {
                Err(RuntimeErrorModel::Plan(refused->0))
            } else if version is None {
                Err(RuntimeErrorModel::RevisionExhausted)
            } else if rejected is Some {
                Err(RuntimeErrorModel::Plan(rejected->0))
            } else {
                match revised(barred) {
                    Ok(next) => Ok(
                        ReservationModel {
                            expected_plan: plan,
                            plan: next,
                            expected_slot: slot,
                            slot: entering(slot, movement.target, plan_id, sessions, version->0),
                        },
                    ),
                    Err(error) => Err(error),
                }
            }
        }
    }

    /// The slot once its source is asked to stop, or why it is not asked.
    pub open spec fn draining(self, key: SlotKeyModel, slot: Option<SlotModel>) -> Result<
        SlotModel,
        RuntimeErrorModel,
    > {
        if !self.handoffs.contains_key(key) {
            Err(RuntimeErrorModel::UnknownHandoff)
        } else {
            match slot {
                None => Err(RuntimeErrorModel::UnknownSlot),
                Some(slot) => if slot.active_move != Some(self.handoffs[key].plan_id) || slot.state
                    != PlacementSlotState::BeginHandoff {
                    Err(RuntimeErrorModel::StaleHandoff)
                } else {
                    match self.version.spec_next() {
                        None => Err(RuntimeErrorModel::RevisionExhausted),
                        Some(version) => Ok(
                            SlotModel { state: PlacementSlotState::Stopping, version, ..slot },
                        ),
                    }
                },
            }
        }
    }

    /// Whether the source of a handoff may be found to be gone: the move recovers from a failure,
    /// or the owner of a singleton is not connected.
    pub open spec fn source_may_be_gone(self, key: SlotKeyModel) -> bool {
        let handoff = self.handoffs[key];
        ||| self.plans.contains_key(handoff.plan_id) && self.plans[handoff.plan_id].reason
            == PlanReason::Recovery
        ||| key is Singleton && !self.sessions.contains_key(handoff.source.incarnation)
    }

    /// The slot once its source failed to stop.
    pub open spec fn stop_failed(self, slot: Option<SlotModel>) -> Result<
        SlotModel,
        RuntimeErrorModel,
    > {
        match slot {
            None => Err(RuntimeErrorModel::UnknownSlot),
            Some(slot) => if slot.state != PlacementSlotState::Stopping {
                Err(RuntimeErrorModel::StaleHandoff)
            } else {
                match self.version.spec_next() {
                    None => Err(RuntimeErrorModel::RevisionExhausted),
                    Some(version) => Ok(
                        SlotModel { state: PlacementSlotState::StopFailed, version, ..slot },
                    ),
                }
            },
        }
    }

    /// The slot once the target of its handoff is ready.
    pub open spec fn activated(self, key: SlotKeyModel, slot: Option<SlotModel>) -> Result<
        SlotModel,
        RuntimeErrorModel,
    > {
        let handoff = self.handoffs[key];
        if !self.handoffs.contains_key(key) {
            Err(RuntimeErrorModel::UnknownHandoff)
        } else {
            match slot {
                None => Err(RuntimeErrorModel::UnknownSlot),
                Some(slot) => if slot.state != PlacementSlotState::Allocating || slot.owner != Some(
                    handoff.target,
                ) || slot.assignment_generation != handoff.target_generation || slot.active_move
                    != Some(handoff.plan_id) {
                    Err(RuntimeErrorModel::StaleHandoff)
                } else {
                    match self.version.spec_next() {
                        None => Err(RuntimeErrorModel::RevisionExhausted),
                        Some(version) => Ok(
                            SlotModel {
                                state: PlacementSlotState::Running,
                                active_move: None,
                                barrier_sessions: Set::empty(),
                                version,
                                ..slot
                            },
                        ),
                    }
                },
            }
        }
    }

    /// The plan once a move of it has arrived.
    pub open spec fn arrival(self, plan_id: u128, shard_id: ShardId) -> Result<
        PlanUpdateModel,
        RuntimeErrorModel,
    > {
        let plan = self.plans[plan_id];
        let (completed, fault) = plan.completed(shard_id);
        if !self.plans.contains_key(plan_id) {
            Err(RuntimeErrorModel::UnknownPlan)
        } else if fault is Some {
            Err(RuntimeErrorModel::Plan(fault->0))
        } else {
            match revised(completed) {
                Ok(next) => Ok(PlanUpdateModel { expected: plan, plan: next }),
                Err(error) => Err(error),
            }
        }
    }

    /// The slot once its first owner is ready.
    pub open spec fn first_ready(
        self,
        owner: NodeModel,
        generation: AssignmentGeneration,
        slot: Option<SlotModel>,
    ) -> Result<SlotModel, RuntimeErrorModel> {
        match slot {
            None => Err(RuntimeErrorModel::UnknownSlot),
            Some(slot) => if slot.state != PlacementSlotState::Allocating || slot.owner != Some(
                owner,
            ) || slot.assignment_generation != generation || slot.active_move is Some {
                Err(RuntimeErrorModel::StaleHandoff)
            } else {
                match self.version.spec_next() {
                    None => Err(RuntimeErrorModel::RevisionExhausted),
                    Some(version) => Ok(
                        SlotModel { state: PlacementSlotState::Running, version, ..slot },
                    ),
                }
            },
        }
    }
}

/// What replacing the authority over a slot writes: the claim that is withdrawn, the slots in
/// order, and why it stops there, if it does.
#[derive(Debug)]
pub struct AuthorityReplacement {
    pub withdrawn: Option<ClaimGrant>,
    pub slots: Vec<PlacementSlot>,
    pub fault: Option<CoordinatorRuntimeError>,
}

#[verifier::ext_equal]
pub struct ReplacementModel {
    pub withdrawn: Option<ClaimModel>,
    pub slots: Seq<SlotModel>,
    pub fault: Option<RuntimeErrorModel>,
}

impl View for AuthorityReplacement {
    type V = ReplacementModel;

    open spec fn view(&self) -> ReplacementModel {
        ReplacementModel {
            withdrawn: option_view(self.withdrawn),
            slots: seq_view(self.slots@),
            fault: option_view(self.fault),
        }
    }
}

pub open spec fn refused_replacement(fault: RuntimeErrorModel) -> ReplacementModel {
    ReplacementModel { withdrawn: None, slots: Seq::empty(), fault: Some(fault) }
}

/// Whether the source of a slot may still hold a claim: until the slot is fenced.
pub open spec fn source_may_claim(slot: Option<SlotModel>) -> bool {
    slot is Some && slot->0.state != PlacementSlotState::Fenced
}

/// Whether the leader lets go of the claim that it granted to the source, given whether the source
/// may still hold one and why the replacement stopped, if it did: unless it stopped before the
/// source was proven to be the one that claims.
pub open spec fn releases_source_claim(
    may_claim: bool,
    fault: Option<RuntimeErrorModel>,
) -> bool {
    may_claim && !(fault matches Some(RuntimeErrorModel::UnknownHandoff)) && !(fault matches Some(
        RuntimeErrorModel::UnknownSlot,
    )) && !(fault matches Some(RuntimeErrorModel::ClaimNotProven))
}

/// A slot that is handed to the target of its handoff.
pub open spec fn handed_over(slot: SlotModel, handoff: HandoffModel, version: VersionModel) -> SlotModel {
    SlotModel {
        owner: Some(handoff.target),
        target: None,
        assignment_generation: handoff.target_generation,
        state: PlacementSlotState::Allocating,
        version,
        ..slot
    }
}

impl LeaderModel {
    /// What replacing the authority over a slot writes.
    ///
    /// Unless the slot is fenced already, an old claim must be that of the source; it is withdrawn
    /// before anything else. Then the slot is fenced, and handed to the target.
    pub open spec fn replacement(
        self,
        key: SlotKeyModel,
        slot: Option<SlotModel>,
        old_claim: Option<ClaimModel>,
    ) -> ReplacementModel {
        let handoff = self.handoffs[key];
        if !self.handoffs.contains_key(key) {
            refused_replacement(RuntimeErrorModel::UnknownHandoff)
        } else if slot is None {
            refused_replacement(RuntimeErrorModel::UnknownSlot)
        } else {
            let slot = slot->0;
            let fenced = slot.state == PlacementSlotState::Fenced;
            let withdrawn = if fenced {
                None
            } else {
                old_claim
            };
            let stopped = slot.state == PlacementSlotState::Stopping || slot.state
                == PlacementSlotState::StopFailed || fenced;
            let first = self.version.spec_next();
            if withdrawn is Some && (withdrawn->0.owner != handoff.source
                || withdrawn->0.assignment_generation != handoff.source_generation) {
                refused_replacement(RuntimeErrorModel::ClaimNotProven)
            } else if !stopped || slot.active_move != Some(handoff.plan_id) {
                ReplacementModel {
                    withdrawn,
                    ..refused_replacement(RuntimeErrorModel::StaleHandoff)
                }
            } else if first is None {
                ReplacementModel {
                    withdrawn,
                    ..refused_replacement(RuntimeErrorModel::RevisionExhausted)
                }
            } else if fenced {
                ReplacementModel {
                    withdrawn,
                    slots: seq![handed_over(slot, handoff, first->0)],
                    fault: None,
                }
            } else {
                let shut = SlotModel {
                    state: PlacementSlotState::Fenced,
                    version: first->0,
                    ..slot
                };
                match first->0.spec_next() {
                    None => ReplacementModel {
                        withdrawn,
                        slots: seq![shut],
                        fault: Some(RuntimeErrorModel::RevisionExhausted),
                    },
                    Some(second) => ReplacementModel {
                        withdrawn,
                        slots: seq![shut, handed_over(shut, handoff, second)],
                        fault: None,
                    },
                }
            }
        }
    }

    /// The claim that the target of a handoff is granted.
    pub open spec fn target_claim(self, key: SlotKeyModel) -> ClaimModel {
        ClaimGrant {
            domain: key.spec_domain(),
            slot: key,
            owner: self.handoffs[key].target,
            coordinator_term: self.term,
            assignment_generation: self.handoffs[key].target_generation,
            grant_sequence: GrantSequence(1),
            ttl: self.config.claim_ttl,
        }
    }
}

/// Who a change of a slot is sent to, and whether the slot is shown.
#[derive(Debug)]
pub struct DeltaRecipient<S = String> {
    pub association: AssociationKey<S>,
    pub shown: bool,
}

impl View for DeltaRecipient {
    type V = DeltaRecipient<Seq<char>>;

    open spec fn view(&self) -> DeltaRecipient<Seq<char>> {
        DeltaRecipient { association: self.association@, shown: self.shown }
    }
}

impl LeaderModel {
    /// Who a change of a slot is sent to: every session, in order, shown only to its audience.
    pub open spec fn recipients(self, key: SlotKeyModel) -> Seq<DeltaRecipient<Seq<char>>> {
        ranked::<NodeIncarnation>(self.sessions.dom()).map_values(
            |session: NodeIncarnation|
                DeltaRecipient {
                    association: self.sessions[session].association,
                    shown: self.audience(key).contains(session),
                },
        )
    }
}

impl CoordinatorLeader {
    /// The sessions that must learn of a handoff of a slot.
    pub fn slot_audience(&self, key: &PlacementSlotKey) -> (sessions: SessionSet)
        ensures
            sessions@ == self@.audience(key@),
    {
        let len = self.sessions.len();
        let ghost ids = ranked::<NodeIncarnation>(self.sessions@.dom());
        let mut sessions = SessionSet::new();
        let mut i: usize = 0;
        while i < len
            invariant
                i <= len,
                len == ids.len(),
                ids == ranked::<NodeIncarnation>(self.sessions@.dom()),
                forall|s: NodeIncarnation| #[trigger]
                    sessions@.contains(s) <==> self@.audience(key@).contains(s) && ids.subrange(
                        0,
                        i as int,
                    ).contains(s),
            decreases len - i,
        {
            let (incarnation, session) = self.sessions.entry_at(i);
            let shown = session_sees(session, key);
            proof {
                let shorter = ids.subrange(0, i as int);
                let longer = ids.subrange(0, i + 1);
                assert(longer =~= shorter.push(ids[i as int]));
                crate::sorted::lemma_push_to_set(shorter, ids[i as int]);
                assert forall|s: NodeIncarnation| longer.contains(s) <==> shorter.contains(s) || s
                    == ids[i as int] by {
                    assert(longer.to_set().contains(s) == longer.contains(s));
                    assert(shorter.to_set().contains(s) == shorter.contains(s));
                }
            }
            if shown {
                let _ = sessions.insert(*incarnation);
            }
            i = i + 1;
        }
        proof {
            assert(ids.subrange(0, i as int) =~= ids);
            assert forall|s: NodeIncarnation| sessions@.contains(s) <==> self@.audience(
                key@,
            ).contains(s) by {
                if self@.audience(key@).contains(s) {
                    assert(ids.to_set().contains(s));
                }
            }
            assert(sessions@ =~= self@.audience(key@));
        }
        sessions
    }

    /// Who a change of a slot is sent to.
    pub fn publish_slot_delta(&self, key: &PlacementSlotKey) -> (recipients: Vec<DeltaRecipient>)
        ensures
            seq_view(recipients@) == self@.recipients(key@),
    {
        let len = self.sessions.len();
        let ghost ids = ranked::<NodeIncarnation>(self.sessions@.dom());
        let mut recipients: Vec<DeltaRecipient> = Vec::new();
        let mut i: usize = 0;
        while i < len
            invariant
                i <= len,
                len == ids.len(),
                ids == ranked::<NodeIncarnation>(self.sessions@.dom()),
                recipients.len() == i,
                forall|j: int|
                    0 <= j < i ==> (#[trigger] recipients@[j])@ == self@.recipients(key@)[j],
            decreases len - i,
        {
            let (_, session) = self.sessions.entry_at(i);
            recipients.push(
                DeltaRecipient {
                    association: session.association.copy(),
                    shown: session_sees(session, key),
                },
            );
            i = i + 1;
        }
        assert(seq_view(recipients@) =~= self@.recipients(key@));
        recipients
    }

    /// What beginning a move writes.
    pub fn begin_move(
        &self,
        plan_id: u128,
        shard_id: ShardId,
        slot: Option<PlacementSlot>,
    ) -> (result: Result<MoveReservation, CoordinatorRuntimeError>)
        ensures
            outcome(result) == self@.beginning(plan_id, shard_id, option_view(slot)),
    {
        let expected = match self.plans.get(&plan_id) {
            Some(plan) => plan,
            None => {
                return Err(CoordinatorRuntimeError::UnknownPlan);
            },
        };
        let at = match expected.find_move(shard_id) {
            Some(at) => at,
            None => {
                return Err(CoordinatorRuntimeError::UnknownSlot);
            },
        };
        assert(expected@.moves[at as int] == expected.moves@[at as int]@);
        let target = expected.moves[at].target.copy();
        let slot = match slot {
            Some(slot) => slot,
            None => {
                return Err(CoordinatorRuntimeError::UnknownSlot);
            },
        };
        let mut plan = expected.copy_plan();
        match plan.begin_move(shard_id, slot.assignment_generation, slot.active_move) {
            Ok(()) => {},
            Err(error) => {
                return Err(CoordinatorRuntimeError::Plan(error));
            },
        }
        let version = match self.next_version() {
            Ok(version) => version,
            Err(error) => {
                return Err(error);
            },
        };
        let key = PlacementSlotKey::Shard {
            domain: expected.domain.copy(),
            entity_type: expected.entity_type.copy(),
            shard_id,
        };
        let sessions = self.slot_audience(&key);
        match plan.install_barrier(shard_id, version.copy(), sessions.copy()) {
            Ok(()) => {},
            Err(error) => {
                return Err(CoordinatorRuntimeError::Plan(error));
            },
        }
        match revise(plan) {
            Ok(plan) => {
                let entered = enter_handoff(&slot, &target, plan_id, &sessions, &version);
                Ok(
                    MoveReservation {
                        expected_plan: expected.copy_plan(),
                        plan,
                        expected_slot: slot,
                        slot: entered,
                    },
                )
            },
            Err(error) => Err(error),
        }
    }

    /// Takes note of a handoff that has begun.
    pub fn install_handoff(&mut self, key: PlacementSlotKey, handoff: Handoff)
        ensures
            final(self)@ == (LeaderModel {
                handoffs: old(self)@.handoffs.insert(key@, handoff@),
                ..old(self)@
            }),
    {
        self.handoffs.insert(key, handoff);
    }

    /// Takes note of the version of a commit.
    pub fn note_version(&mut self, version: PlacementVersion)
        ensures
            final(self)@ == (LeaderModel { version: version@, ..old(self)@ }),
    {
        self.version = version;
    }

    /// The slot once its source is asked to stop.
    pub fn drain_source(&self, key: &PlacementSlotKey, slot: Option<PlacementSlot>) -> (result:
        Result<PlacementSlot, CoordinatorRuntimeError>)
        ensures
            outcome(result) == self@.draining(key@, option_view(slot)),
    {
        let handoff = match self.handoffs.get(key) {
            Some(handoff) => handoff,
            None => {
                return Err(CoordinatorRuntimeError::UnknownHandoff);
            },
        };
        let slot = match slot {
            Some(slot) => slot,
            None => {
                return Err(CoordinatorRuntimeError::UnknownSlot);
            },
        };
        if !is_move(slot.active_move, handoff.plan_id) || slot.state
            != PlacementSlotState::BeginHandoff {
            return Err(CoordinatorRuntimeError::StaleHandoff);
        }
        self.advance(slot, PlacementSlotState::Stopping)
    }

    /// A slot in another state, at the next version.
    fn advance(&self, slot: PlacementSlot, state: PlacementSlotState) -> (result: Result<
        PlacementSlot,
        CoordinatorRuntimeError,
    >)
        ensures
            outcome(result) == match self@.version.spec_next() {
                None => Err(RuntimeErrorModel::RevisionExhausted),
                Some(version) => Ok(SlotModel { state, version, ..slot@ }),
            },
    {
        let version = match self.next_version() {
            Ok(version) => version,
            Err(error) => {
                return Err(error);
            },
        };
        let ghost before = slot@;
        let ghost next = version@;
        let mut slot = slot;
        slot.state = state;
        slot.version = version;
        assert(slot@ =~= (SlotModel { state, version: next, ..before }));
        Ok(slot)
    }

    /// Where the source of a handoff is told to stop, if it is connected.
    pub fn drain_recipient(&self, key: &PlacementSlotKey) -> (recipient: Option<AssociationKey>)
        ensures
            option_view(recipient) == if self@.handoffs.contains_key(key@) && self@.is_connected(
                self@.handoffs[key@].source,
            ) {
                Some(self@.sessions[self@.handoffs[key@].source.incarnation].association)
            } else {
                None
            },
    {
        match self.handoffs.get(key) {
            Some(handoff) => self.association_of(&handoff.source),
            None => None,
        }
    }

    /// The connection to a member, if it is connected under that very identity.
    pub fn association_of(&self, node: &NodeKey) -> (association: Option<AssociationKey>)
        ensures
            option_view(association) == if self@.is_connected(node@) {
                Some(self@.sessions[node@.incarnation].association)
            } else {
                None
            },
    {
        match self.sessions.get(&node.incarnation) {
            Some(session) => if session.hello.node.same(node) {
                Some(session.association.copy())
            } else {
                None
            },
            None => None,
        }
    }

    /// What to tell a handoff whose source holds no claim any more, if that may be concluded.
    pub fn conclude_source_gone(
        &self,
        key: &PlacementSlotKey,
        claim: &Option<ClaimGrant>,
    ) -> (event: Option<HandoffEvent>)
        ensures
            option_view(event) == if self@.handoffs.contains_key(key@) && self@.source_may_be_gone(
                key@,
            ) && claim is None {
                Some(
                    HandoffEventModel::SourceAuthorityInvalid {
                        source: self@.handoffs[key@].source,
                        generation: self@.handoffs[key@].source_generation,
                    },
                )
            } else {
                None
            },
    {
        let handoff = match self.handoffs.get(key) {
            Some(handoff) => handoff,
            None => {
                return None;
            },
        };
        let recovering = match self.plans.get(&handoff.plan_id) {
            Some(plan) => plan.reason == PlanReason::Recovery,
            None => false,
        };
        let singleton = match key {
            PlacementSlotKey::Singleton { .. } => true,
            _ => false,
        };
        if (recovering || (singleton && !self.sessions.contains_key(&handoff.source.incarnation)))
            && claim.is_none() {
            Some(
                HandoffEvent::SourceAuthorityInvalid {
                    source: handoff.source.copy(),
                    generation: handoff.source_generation,
                },
            )
        } else {
            None
        }
    }

    /// The slot once its source failed to stop.
    pub fn record_stop_failed(&self, slot: Option<PlacementSlot>) -> (result: Result<
        PlacementSlot,
        CoordinatorRuntimeError,
    >)
        ensures
            outcome(result) == self@.stop_failed(option_view(slot)),
    {
        match slot {
            None => Err(CoordinatorRuntimeError::UnknownSlot),
            Some(slot) => if slot.state != PlacementSlotState::Stopping {
                Err(CoordinatorRuntimeError::StaleHandoff)
            } else {
                self.advance(slot, PlacementSlotState::StopFailed)
            },
        }
    }

    /// What replacing the authority over a slot writes.
    pub fn replace_authority(
        &self,
        key: &PlacementSlotKey,
        slot: Option<PlacementSlot>,
        old_claim: Option<ClaimGrant>,
    ) -> (replacement: AuthorityReplacement)
        ensures
            replacement@ == self@.replacement(key@, option_view(slot), option_view(old_claim)),
    {
        let ghost wanted = self@.replacement(key@, option_view(slot), option_view(old_claim));
        let handoff = match self.handoffs.get(key) {
            Some(handoff) => handoff,
            None => {
                return refuse_replacement(None, CoordinatorRuntimeError::UnknownHandoff);
            },
        };
        let slot = match slot {
            Some(slot) => slot,
            None => {
                return refuse_replacement(None, CoordinatorRuntimeError::UnknownSlot);
            },
        };
        let fenced = slot.state == PlacementSlotState::Fenced;
        let withdrawn = if fenced {
            None
        } else {
            old_claim
        };
        match &withdrawn {
            Some(claim) => {
                if !claim.owner.same(&handoff.source) || claim.assignment_generation
                    != handoff.source_generation {
                    return refuse_replacement(None, CoordinatorRuntimeError::ClaimNotProven);
                }
            },
            None => {},
        }
        let stopped = slot.state == PlacementSlotState::Stopping || slot.state
            == PlacementSlotState::StopFailed || fenced;
        if !stopped || !is_move(slot.active_move, handoff.plan_id) {
            return refuse_replacement(withdrawn, CoordinatorRuntimeError::StaleHandoff);
        }
        let first = match self.next_version() {
            Ok(version) => version,
            Err(error) => {
                return refuse_replacement(withdrawn, error);
            },
        };
        let mut slots: Vec<PlacementSlot> = Vec::new();
        if fenced {
            let handed = hand_over(&slot, handoff, first);
            slots.push(handed);
            assert(seq_view(slots@) =~= seq![handed@]);
            return AuthorityReplacement { withdrawn, slots, fault: None };
        }
        let second = first.next_revision();
        let mut shut = slot.copy_slot();
        shut.state = PlacementSlotState::Fenced;
        shut.version = first;
        match second {
            None => {
                slots.push(shut);
                assert(seq_view(slots@) =~= seq![shut@]);
                AuthorityReplacement {
                    withdrawn,
                    slots,
                    fault: Some(CoordinatorRuntimeError::RevisionExhausted),
                }
            },
            Some(second) => {
                let handed = hand_over(&shut, handoff, second);
                slots.push(shut);
                slots.push(handed);
                assert(seq_view(slots@) =~= seq![shut@, handed@]);
                AuthorityReplacement { withdrawn, slots, fault: None }
            },
        }
    }

    /// The claim that the target of a handoff is granted.
    pub fn grant_target_claim(&self, key: &PlacementSlotKey) -> (result: Result<
        ClaimGrant,
        CoordinatorRuntimeError,
    >)
        ensures
            outcome(result) == if self@.handoffs.contains_key(key@) {
                Ok(self@.target_claim(key@))
            } else {
                Err(RuntimeErrorModel::UnknownHandoff)
            },
    {
        match self.handoffs.get(key) {
            Some(handoff) => Ok(
                ClaimGrant {
                    domain: key.domain().copy(),
                    slot: key.copy(),
                    owner: handoff.target.copy(),
                    coordinator_term: self.term,
                    assignment_generation: handoff.target_generation,
                    grant_sequence: GrantSequence(1),
                    ttl: self.config.claim_ttl,
                },
            ),
            None => Err(CoordinatorRuntimeError::UnknownHandoff),
        }
    }

    /// Takes note of a claim and its lease, and says where it is sent.
    pub fn install_claim(&mut self, grant: ClaimGrant, lease_id: i64) -> (result: Result<
        AssociationKey,
        CoordinatorRuntimeError,
    >)
        ensures
            final(self)@ == (LeaderModel {
                claims: old(self)@.claims.insert(
                    grant@.slot,
                    ClaimLeaseModel { lease_id, grant: grant@ },
                ),
                ..old(self)@
            }),
            outcome(result) == if old(self)@.is_connected(grant@.owner) {
                Ok(old(self)@.sessions[grant@.owner.incarnation].association)
            } else {
                Err(RuntimeErrorModel::UnknownSession)
            },
    {
        let recipient = self.association_of(&grant.owner);
        let key = grant.slot.copy();
        let claim = ClaimLease { lease_id, grant };
        self.claims.insert(key, claim);
        match recipient {
            Some(association) => Ok(association),
            None => Err(CoordinatorRuntimeError::UnknownSession),
        }
    }

    /// Withdraws a claim that was granted, and says by which lease it lived.
    pub fn withdraw_claim(&mut self, key: &PlacementSlotKey) -> (lease_id: Option<i64>)
        ensures
            final(self)@ == (LeaderModel {
                claims: old(self)@.claims.remove(key@),
                ..old(self)@
            }),
            lease_id == if old(self)@.claims.contains_key(key@) {
                Some(old(self)@.claims[key@].lease_id)
            } else {
                None
            },
    {
        match self.claims.take(key) {
            Some(claim) => Some(claim.lease_id),
            None => None,
        }
    }

    /// The slot once the target of its handoff is ready.
    pub fn publish_active(&self, key: &PlacementSlotKey, slot: Option<PlacementSlot>) -> (result:
        Result<PlacementSlot, CoordinatorRuntimeError>)
        ensures
            outcome(result) == self@.activated(key@, option_view(slot)),
    {
        let handoff = match self.handoffs.get(key) {
            Some(handoff) => handoff,
            None => {
                return Err(CoordinatorRuntimeError::UnknownHandoff);
            },
        };
        let slot = match slot {
            Some(slot) => slot,
            None => {
                return Err(CoordinatorRuntimeError::UnknownSlot);
            },
        };
        if slot.state != PlacementSlotState::Allocating || !is_owner(&slot, &handoff.target)
            || slot.assignment_generation != handoff.target_generation || !is_move(
            slot.active_move,
            handoff.plan_id,
        ) {
            return Err(CoordinatorRuntimeError::StaleHandoff);
        }
        let ghost before = slot@;
        match self.advance(slot, PlacementSlotState::Running) {
            Ok(mut active) => {
                active.active_move = None;
                active.barrier_sessions = SessionSet::new();
                Ok(active)
            },
            Err(error) => Err(error),
        }
    }

    /// Takes note that a handoff is over.
    pub fn finish_handoff(
        &mut self,
        key: &PlacementSlotKey,
        version: PlacementVersion,
        now: MonotonicTime,
    )
        ensures
            final(self)@ == (LeaderModel {
                version: version@,
                slot_assigned_at: old(self)@.slot_assigned_at.insert(key@, now),
                handoffs: old(self)@.handoffs.remove(key@),
                ..old(self)@
            }),
    {
        self.version = version;
        self.slot_assigned_at.insert(key.copy(), now);
        let _ = self.handoffs.remove(key);
    }

    /// The plan once a move of it has arrived, at its next record revision.
    pub fn complete_plan_move(&self, plan_id: u128, shard_id: ShardId) -> (result: Result<
        PlanUpdate,
        CoordinatorRuntimeError,
    >)
        ensures
            outcome(result) == self@.arrival(plan_id, shard_id),
    {
        let plan = match self.plans.get(&plan_id) {
            Some(plan) => plan,
            None => {
                return Err(CoordinatorRuntimeError::UnknownPlan);
            },
        };
        let mut next = plan.copy_plan();
        match next.complete_move(shard_id) {
            Ok(()) => {},
            Err(error) => {
                return Err(CoordinatorRuntimeError::Plan(error));
            },
        }
        match revise(next) {
            Ok(next) => Ok(PlanUpdate { expected: plan.copy_plan(), plan: next }),
            Err(error) => Err(error),
        }
    }

    /// The slot once its first owner is ready.
    pub fn complete_initial_ready(
        &self,
        owner: &NodeKey,
        generation: AssignmentGeneration,
        slot: Option<PlacementSlot>,
    ) -> (result: Result<PlacementSlot, CoordinatorRuntimeError>)
        ensures
            outcome(result) == self@.first_ready(owner@, generation, option_view(slot)),
    {
        match slot {
            None => Err(CoordinatorRuntimeError::UnknownSlot),
            Some(slot) => if slot.state != PlacementSlotState::Allocating || !is_owner(&slot, owner)
                || slot.assignment_generation != generation || slot.active_move.is_some() {
                Err(CoordinatorRuntimeError::StaleHandoff)
            } else {
                self.advance(slot, PlacementSlotState::Running)
            },
        }
    }

    /// Takes note that a slot runs.
    pub fn note_running(
        &mut self,
        key: &PlacementSlotKey,
        version: PlacementVersion,
        now: MonotonicTime,
    )
        ensures
            final(self)@ == (LeaderModel {
                version: version@,
                slot_assigned_at: old(self)@.slot_assigned_at.insert(key@, now),
                ..old(self)@
            }),
    {
        self.version = version;
        self.slot_assigned_at.insert(key.copy(), now);
    }
}

fn is_move(active: Option<u128>, plan_id: u128) -> (is: bool)
    ensures
        is == (active == Some(plan_id)),
{
    match active {
        Some(id) => id == plan_id,
        None => false,
    }
}

pub fn is_owner(slot: &PlacementSlot, node: &NodeKey) -> (is: bool)
    ensures
        is == (slot@.owner == Some(node@)),
{
    match &slot.owner {
        Some(owner) => owner.same(node),
        None => false,
    }
}

/// Whether the source of a slot may still hold a claim.
pub fn may_source_claim(slot: &Option<PlacementSlot>) -> (may_claim: bool)
    ensures
        may_claim == source_may_claim(option_view(*slot)),
{
    match slot {
        Some(slot) => slot.state != PlacementSlotState::Fenced,
        None => false,
    }
}

/// Whether the leader lets go of the claim that it granted to the source.
pub fn must_release_source_claim(
    may_claim: bool,
    fault: &Option<CoordinatorRuntimeError>,
) -> (releases: bool)
    ensures
        releases == releases_source_claim(may_claim, option_view(*fault)),
{
    match fault {
        Some(CoordinatorRuntimeError::UnknownHandoff) => false,
        Some(CoordinatorRuntimeError::UnknownSlot) => false,
        Some(CoordinatorRuntimeError::ClaimNotProven) => false,
        _ => may_claim,
    }
}

fn refuse_replacement(
    withdrawn: Option<ClaimGrant>,
    fault: CoordinatorRuntimeError,
) -> (refused: AuthorityReplacement)
    ensures
        refused@ == (ReplacementModel {
            withdrawn: option_view(withdrawn),
            ..refused_replacement(fault@)
        }),
{
    let refused = AuthorityReplacement { withdrawn, slots: Vec::new(), fault: Some(fault) };
    assert(seq_view(refused.slots@) =~= Seq::<SlotModel>::empty());
    refused
}

fn hand_over(slot: &PlacementSlot, handoff: &Handoff, version: PlacementVersion) -> (handed:
    PlacementSlot)
    ensures
        handed@ == handed_over(slot@, handoff@, version@),
{
    let mut handed = slot.copy_slot();
    handed.owner = Some(handoff.target.copy());
    handed.target = None;
    handed.assignment_generation = handoff.target_generation;
    handed.state = PlacementSlotState::Allocating;
    handed.version = version;
    handed
}

/// Whether a session is to see a slot.
pub fn session_sees(session: &MemberSession, key: &PlacementSlotKey) -> (sees: bool)
    ensures
        sees == match key@ {
            SlotKeyModel::Shard { entity_type, .. } => session@.hello.subscribes(entity_type),
            SlotKeyModel::Singleton { kind, .. } => session@.hello.concerns(kind),
        },
{
    match key {
        PlacementSlotKey::Shard { entity_type, .. } => session.hello.subscribes_to(entity_type),
        PlacementSlotKey::Singleton { kind, .. } => session.hello.concerns(kind),
    }
}

/// What a handoff comes to when something happens to it: how it stands then and what the leader
/// is to do, in order, or why it cannot happen.
pub enum HandoffTransition<H = Handoff, E = Vec<HandoffEffect>, S = String> {
    Moves { next: H, effects: E },
    Rejected(S),
}

impl CoordinatorLeader {
    /// Takes the transition of a handoff in: only a handoff that is under way has one, and a
    /// rejected one leaves everything as it is.
    pub fn transition_handoff(&mut self, key: &PlacementSlotKey, transition: HandoffTransition) -> (
        result: Result<Vec<HandoffEffect>, CoordinatorRuntimeError>)
        ensures
            if !old(self)@.handoffs.contains_key(key@) {
                &&& final(self)@ == old(self)@
                &&& runtime_fault(result) == Some(RuntimeErrorModel::UnknownHandoff)
            } else {
                match transition {
                    HandoffTransition::Moves { next, effects } => {
                        &&& final(self)@ == (LeaderModel {
                            handoffs: old(self)@.handoffs.insert(key@, next@),
                            ..old(self)@
                        })
                        &&& result matches Ok(listed) && listed@ == effects@
                    },
                    HandoffTransition::Rejected(cause) => {
                        &&& final(self)@ == old(self)@
                        &&& runtime_fault(result) == Some(RuntimeErrorModel::Handoff(cause@))
                    },
                }
            },
    {
        if !self.handoffs.contains_key(key) {
            return Err(CoordinatorRuntimeError::UnknownHandoff);
        }
        match transition {
            HandoffTransition::Moves { next, effects } => {
                self.handoffs.insert(key.copy(), next);
                Ok(effects)
            },
            HandoffTransition::Rejected(cause) => Err(CoordinatorRuntimeError::Handoff(cause)),
        }
    }
}

} // verus!
