//! Admitting, ordering and starting the moves of plans.
use vstd::prelude::*;

use crate::keymap::{option_view, seq_view, Key};
use crate::order::Order;
use crate::plan::{
    lemma_filter_step, moves_shard, MoveModel, MoveProgress, PlanError, PlanModel, PlanReason,
    PlanStatus, ProposalModel, RebalancePlan, RebalanceProposal,
};
use crate::runtime::errors::{
    outcome, runtime_fault, CoordinatorRuntimeError, RuntimeErrorModel,
};
use crate::runtime::moves::{
    all_moves, count_handoffs, handoffs_passing, list_moves, sum_weight_toward, weight_toward,
    weights_can_be_counted, weights_fit, MoveFilter,
};
use crate::runtime::state::{LeaderModel, CoordinatorLeader};
use crate::sorted::{ranked, Ranked, SortedSet};
use crate::types::{
    version_later, EntityType, NodeModel, PlacementSlot, PlacementSlotState, PlacementVersion,
    ShardId, SlotModel, VersionModel,
};

verus! {

/// How urgent a reason is; the smaller, the more urgent.
pub open spec fn priority_of(reason: PlanReason) -> u8 {
    match reason {
        PlanReason::Recovery => 0,
        PlanReason::Drain => 1,
        PlanReason::Manual => 2,
        PlanReason::Automatic => 3,
    }
}

pub fn plan_priority(reason: &PlanReason) -> (priority: u8)
    ensures
        priority == priority_of(*reason),
{
    match reason {
        PlanReason::Recovery => 0,
        PlanReason::Drain => 1,
        PlanReason::Manual => 2,
        PlanReason::Automatic => 3,
    }
}

/// A number, or the largest one.
pub open spec fn saturated(value: nat) -> u64 {
    if value <= u64::MAX {
        value as u64
    } else {
        u64::MAX
    }
}

/// The weight that the first `n` moves of a plan bring to a node.
pub open spec fn plan_weight(moves: Seq<MoveModel>, node: NodeModel, n: int) -> nat
    decreases n,
{
    if n <= 0 {
        0
    } else {
        plan_weight(moves, node, n - 1) + if moves[n - 1].target == node {
            moves[n - 1].estimated_weight as nat
        } else {
            0
        }
    }
}

/// Whether a slot is still as a move expects it.
pub open spec fn slot_matches(slot: SlotModel, movement: MoveModel) -> bool {
    &&& slot.owner == Some(movement.source)
    &&& slot.assignment_generation == movement.expected_generation
    &&& slot.state == PlacementSlotState::Running
    &&& slot.active_move is None
}

pub fn slot_still_matches(
    slot: &PlacementSlot,
    movement: &crate::plan::RebalanceMove,
) -> (matches: bool)
    ensures
        matches == slot_matches(slot@, movement@),
{
    let owned = match &slot.owner {
        Some(owner) => owner.same(&movement.source),
        None => false,
    };
    owned && slot.assignment_generation == movement.expected_generation && slot.state
        == PlacementSlotState::Running && slot.active_move.is_none()
}

/// Whether a plan is neither completed, cancelled nor failed.
pub open spec fn is_open(status: PlanStatus) -> bool {
    status == PlanStatus::Planned || status == PlanStatus::Running
}

impl LeaderModel {
    /// Whether a move may be started now.
    pub open spec fn can_start(self, plan_id: u128, shard_id: ShardId) -> Result<
        bool,
        RuntimeErrorModel,
    > {
        let plan = self.plans[plan_id];
        let movement = plan.movement(shard_id);
        let moves = all_moves(self.plans);
        let limits = self.config.rebalance_limits;
        if !self.plans.contains_key(plan_id) {
            Err(RuntimeErrorModel::UnknownPlan)
        } else if !moves_shard(plan.moves, shard_id) {
            Err(RuntimeErrorModel::UnknownSlot)
        } else {
            Ok(
                handoffs_passing(moves, MoveFilter::Any) < limits.concurrent_cluster
                    && handoffs_passing(moves, MoveFilter::OfEntity(plan.entity_type))
                    < limits.concurrent_entity && handoffs_passing(
                    moves,
                    MoveFilter::FromSource(movement.source),
                ) < limits.concurrent_source && handoffs_passing(
                    moves,
                    MoveFilter::ToTarget(movement.target),
                ) < limits.concurrent_target,
            )
        }
    }

    /// Whether a node is connected, up, and hosts the entities of a type.
    pub open spec fn hosts(self, node: NodeModel, entity_type: Seq<char>) -> bool {
        &&& self.sessions.contains_key(node.incarnation)
        &&& self.sessions[node.incarnation].up()
        &&& self.sessions[node.incarnation].hello.node == node
        &&& self.sessions[node.incarnation].hello.hosted_entity_types.contains(entity_type)
    }

    /// What is reserved on the target of a move once the moves up to it are counted.
    pub open spec fn reserved_with(self, plan: PlanModel, at: int) -> u64 {
        saturated(
            weight_toward(all_moves(self.plans), plan.moves[at].target) + plan_weight(
                plan.moves,
                plan.moves[at].target,
                at + 1,
            ),
        )
    }

    /// Why a move of a plan no longer holds against its slot, if it does not.
    pub open spec fn move_rejection(
        self,
        plan: PlanModel,
        at: int,
        slot: Option<SlotModel>,
    ) -> Option<RuntimeErrorModel> {
        let movement = plan.moves[at];
        match slot {
            None => Some(RuntimeErrorModel::UnknownSlot),
            Some(slot) => if version_later(slot.version, plan.base_version) || !slot_matches(
                slot,
                movement,
            ) {
                Some(RuntimeErrorModel::StaleProposal)
            } else if !self.hosts(movement.target, plan.entity_type) {
                Some(RuntimeErrorModel::IneligibleTarget)
            } else if self.reserved_with(plan, at)
                > self.sessions[movement.target.incarnation].hello.capacity_units {
                Some(RuntimeErrorModel::ConcurrencyLimit)
            } else {
                None
            },
        }
    }

    /// The first rejection among the first `n` moves of a plan.
    pub open spec fn first_rejection(
        self,
        plan: PlanModel,
        slots: Seq<Option<SlotModel>>,
        n: int,
    ) -> Option<RuntimeErrorModel>
        decreases n,
    {
        if n <= 0 {
            None
        } else if self.first_rejection(plan, slots, n - 1) is Some {
            self.first_rejection(plan, slots, n - 1)
        } else {
            self.move_rejection(plan, n - 1, slots[n - 1])
        }
    }

    /// Whether an automatic plan for an entity type is still open.
    pub open spec fn has_automatic_plan(self, entity_type: Seq<char>) -> bool {
        exists|id: u128| #[trigger]
            self.plans.contains_key(id) && self.plans[id].entity_type == entity_type
                && self.plans[id].reason == PlanReason::Automatic && is_open(self.plans[id].status)
    }

    /// Why no plan is made of a proposal, if none is.
    pub open spec fn proposal_rejection(
        self,
        proposal: ProposalModel,
        entity_type: Seq<char>,
    ) -> Option<RuntimeErrorModel> {
        if proposal.base_version != self.version || proposal.moves.len()
            > self.config.rebalance_limits.moves_per_round {
            Some(RuntimeErrorModel::StaleProposal)
        } else if proposal.fault(entity_type, self.config.maximum_plan_moves) is Some {
            Some(
                RuntimeErrorModel::Plan(
                    proposal.fault(entity_type, self.config.maximum_plan_moves)->0,
                ),
            )
        } else if proposal.trigger.reason() == PlanReason::Automatic && self.has_automatic_plan(
            entity_type,
        ) {
            Some(RuntimeErrorModel::PlanConflict)
        } else {
            None
        }
    }
}

/// The shards of a plan whose moves are pending.
pub open spec fn pending_shards(plan: PlanModel) -> Seq<ShardId> {
    plan.moves.filter(|movement: MoveModel| movement.progress == MoveProgress::Pending).map_values(
        |movement: MoveModel| movement.shard_id,
    )
}

/// A plan once the moves of the first `n` of some shards are cancelled, and the first fault.
pub open spec fn cancelled_first(plan: PlanModel, shards: Seq<ShardId>, n: int) -> (
    PlanModel,
    Option<PlanError>,
)
    decreases n,
{
    if n <= 0 {
        (plan, None)
    } else {
        let (before, fault) = cancelled_first(plan, shards, n - 1);
        if fault is Some {
            (before, fault)
        } else {
            before.cancelled(shards[n - 1])
        }
    }
}

/// A plan at its next record revision.
pub open spec fn revised(plan: PlanModel) -> Result<PlanModel, RuntimeErrorModel> {
    match plan.record_revision.spec_next() {
        Some(record_revision) => Ok(PlanModel { record_revision, ..plan }),
        None => Err(RuntimeErrorModel::RevisionExhausted),
    }
}

/// A plan whose pending moves give way to something more urgent.
pub open spec fn given_way(plan: PlanModel) -> Result<PlanModel, RuntimeErrorModel> {
    let shards = pending_shards(plan);
    let (cancelled, fault) = cancelled_first(plan, shards, shards.len() as int);
    match fault {
        Some(error) => Err(RuntimeErrorModel::Plan(error)),
        None => revised(cancelled),
    }
}

pub fn list_pending_shards(plan: &RebalancePlan) -> (shards: Vec<ShardId>)
    ensures
        shards@ == pending_shards(plan@),
{
    let ghost pending = |movement: MoveModel| movement.progress == MoveProgress::Pending;
    let ghost shard_of = |movement: MoveModel| movement.shard_id;
    let mut shards: Vec<ShardId> = Vec::new();
    let mut i: usize = 0;
    assert(plan@.moves.subrange(0, 0).filter(pending) =~= Seq::<MoveModel>::empty()) by {
        reveal(Seq::filter);
    }
    while i < plan.moves.len()
        invariant
            i <= plan.moves.len(),
            pending == (|movement: MoveModel| movement.progress == MoveProgress::Pending),
            shard_of == (|movement: MoveModel| movement.shard_id),
            shards@ =~= plan@.moves.subrange(0, i as int).filter(pending).map_values(shard_of),
        decreases plan.moves.len() - i,
    {
        proof {
            assert(plan@.moves[i as int] == plan.moves@[i as int]@);
            lemma_filter_step(plan@.moves, pending, i as int);
        }
        if plan.moves[i].progress == MoveProgress::Pending {
            shards.push(plan.moves[i].shard_id);
        }
        i = i + 1;
    }
    assert(plan@.moves.subrange(0, i as int) =~= plan@.moves);
    shards
}

/// Moves a plan on to its next record revision.
pub fn revise(plan: RebalancePlan) -> (result: Result<RebalancePlan, CoordinatorRuntimeError>)
    ensures
        outcome(result) == revised(plan@),
{
    let mut plan = plan;
    let ghost before = plan@;
    match plan.record_revision.next() {
        Some(revision) => {
            plan.record_revision = revision;
            assert(plan@ =~= (PlanModel { record_revision: revision, ..before }));
            Ok(plan)
        },
        None => Err(CoordinatorRuntimeError::RevisionExhausted),
    }
}

/// Cancels what is pending of a plan.
pub fn give_way(plan: &RebalancePlan) -> (result: Result<RebalancePlan, CoordinatorRuntimeError>)
    ensures
        outcome(result) == given_way(plan@),
{
    let shards = list_pending_shards(plan);
    let mut next = plan.copy_plan();
    let mut i: usize = 0;
    while i < shards.len()
        invariant
            i <= shards.len(),
            shards@ == pending_shards(plan@),
            cancelled_first(plan@, shards@, i as int) == (next@, None::<PlanError>),
        decreases shards.len() - i,
    {
        match next.cancel_pending_move(shards[i]) {
            Ok(()) => {},
            Err(error) => {
                proof {
                    lemma_cancel_fault(plan@, shards@, i + 1, shards@.len() as int);
                }
                return Err(CoordinatorRuntimeError::Plan(error));
            },
        }
        i = i + 1;
    }
    revise(next)
}

proof fn lemma_cancel_fault(plan: PlanModel, shards: Seq<ShardId>, at: int, n: int)
    requires
        at <= n,
        cancelled_first(plan, shards, at).1 is Some,
    ensures
        cancelled_first(plan, shards, n) == cancelled_first(plan, shards, at),
    decreases n,
{
    if at < n {
        lemma_cancel_fault(plan, shards, at, n - 1);
    }
}

/// A change of a plan that is to be stored: what is expected, and what replaces it.
#[derive(Debug)]
pub struct PlanUpdate {
    pub expected: RebalancePlan,
    pub plan: RebalancePlan,
}

#[verifier::ext_equal]
pub struct PlanUpdateModel {
    pub expected: PlanModel,
    pub plan: PlanModel,
}

impl View for PlanUpdate {
    type V = PlanUpdateModel;

    open spec fn view(&self) -> PlanUpdateModel {
        PlanUpdateModel { expected: self.expected@, plan: self.plan@ }
    }
}

/// What some plans change to so that a reason can have its way: the changes of the first `n`, up
/// to the first fault.
pub open spec fn preempted_first(
    plans: Map<u128, PlanModel>,
    ids: Seq<u128>,
    incoming: PlanReason,
    n: int,
) -> (Seq<PlanUpdateModel>, Option<RuntimeErrorModel>)
    decreases n,
{
    if n <= 0 {
        (Seq::empty(), None)
    } else {
        let (updates, fault) = preempted_first(plans, ids, incoming, n - 1);
        let plan = plans[ids[n - 1]];
        if fault is Some || priority_of(plan.reason) <= priority_of(incoming) || pending_shards(
            plan,
        ).len() == 0 {
            (updates, fault)
        } else {
            match given_way(plan) {
                Ok(next) => (updates.push(PlanUpdateModel { expected: plan, plan: next }), None),
                Err(error) => (updates, Some(error)),
            }
        }
    }
}

impl LeaderModel {
    /// What all plans change to so that a reason can have its way.
    pub open spec fn preempted(self, incoming: PlanReason) -> (
        Seq<PlanUpdateModel>,
        Option<RuntimeErrorModel>,
    ) {
        let ids = ranked::<u128>(self.plans.dom());
        preempted_first(self.plans, ids, incoming, ids.len() as int)
    }
}

/// A closed plan in the order in which closed plans are forgotten.
#[derive(Debug, PartialEq, Eq)]
pub struct ClosedPlan<S = String> {
    pub base_version: PlacementVersion<S>,
    pub plan_id: u128,
}

pub type ClosedPlanModel = ClosedPlan<Seq<char>>;

impl View for ClosedPlan {
    type V = ClosedPlanModel;

    open spec fn view(&self) -> ClosedPlanModel {
        ClosedPlan { base_version: self.base_version@, plan_id: self.plan_id }
    }
}

impl Key for ClosedPlan {
    fn same(&self, other: &Self) -> (same: bool) {
        self.base_version.same(&other.base_version) && self.plan_id == other.plan_id
    }

    fn copy(&self) -> (copy: Self) {
        ClosedPlan { base_version: self.base_version.copy(), plan_id: self.plan_id }
    }
}

impl Ranked for ClosedPlan {
    open spec fn less(left: ClosedPlanModel, right: ClosedPlanModel) -> bool {
        if left.base_version != right.base_version {
            version_later(right.base_version, left.base_version)
        } else {
            left.plan_id < right.plan_id
        }
    }

    proof fn lemma_irreflexive(key: ClosedPlanModel) {
    }

    proof fn lemma_transitive(a: ClosedPlanModel, b: ClosedPlanModel, c: ClosedPlanModel) {
        lemma_version_order(a.base_version, b.base_version, c.base_version);
    }

    proof fn lemma_total(a: ClosedPlanModel, b: ClosedPlanModel) {
        crate::order::lemma_text_total(a.base_version.domain, b.base_version.domain);
    }

    fn compare(&self, other: &Self) -> (order: Order) {
        if self.base_version.same(&other.base_version) {
            return self.plan_id.compare(&other.plan_id);
        }
        proof {
            Self::lemma_total(self@, other@);
        }
        if other.base_version.is_later_than(&self.base_version) {
            Order::Less
        } else {
            Order::Greater
        }
    }
}

proof fn lemma_version_order(a: VersionModel, b: VersionModel, c: VersionModel)
    ensures
        version_later(b, a) && version_later(c, b) ==> version_later(c, a),
        !(version_later(a, b) && version_later(b, a)),
{
    crate::order::lemma_text_irreflexive(a.domain);
    if crate::order::text_less(a.domain, b.domain) && crate::order::text_less(b.domain, c.domain) {
        crate::order::lemma_text_transitive(a.domain, b.domain, c.domain);
    }
    if crate::order::text_less(a.domain, b.domain) && crate::order::text_less(b.domain, a.domain) {
        crate::order::lemma_text_transitive(a.domain, b.domain, a.domain);
    }
}

/// The closed ones of some plans.
pub open spec fn closed_plans(plans: Map<u128, PlanModel>) -> Set<ClosedPlanModel> {
    Set::new(
        |key: ClosedPlanModel|
            plans.contains_key(key.plan_id) && !is_open(plans[key.plan_id].status)
                && plans[key.plan_id].base_version == key.base_version,
    )
}

impl LeaderModel {
    /// The closed plans that are to be forgotten, oldest first.
    pub open spec fn forgettable(self) -> Seq<u128> {
        let closed = ranked::<ClosedPlan>(closed_plans(self.plans));
        let kept = self.config.maximum_completed_plan_history;
        let excess = if closed.len() > kept {
            closed.len() - kept
        } else {
            0
        };
        closed.subrange(0, excess).map_values(|key: ClosedPlanModel| key.plan_id)
    }
}

impl CoordinatorLeader {
    pub fn can_start_move(&self, plan_id: u128, shard_id: ShardId) -> (result: Result<
        bool,
        CoordinatorRuntimeError,
    >)
        ensures
            outcome(result) == self@.can_start(plan_id, shard_id),
    {
        let plan = match self.plans.get(&plan_id) {
            Some(plan) => plan,
            None => {
                return Err(CoordinatorRuntimeError::UnknownPlan);
            },
        };
        let at = match plan.find_move(shard_id) {
            Some(at) => at,
            None => {
                return Err(CoordinatorRuntimeError::UnknownSlot);
            },
        };
        let movement = &plan.moves[at];
        assert(plan@.moves[at as int] == movement@);
        let limits = self.config.rebalance_limits;
        let moves = list_moves(&self.plans);
        Ok(
            count_handoffs(&moves, &MoveFilter::Any) < limits.concurrent_cluster && count_handoffs(
                &moves,
                &MoveFilter::OfEntity(plan.entity_type.copy()),
            ) < limits.concurrent_entity && count_handoffs(
                &moves,
                &MoveFilter::FromSource(movement.source.copy()),
            ) < limits.concurrent_source && count_handoffs(
                &moves,
                &MoveFilter::ToTarget(movement.target.copy()),
            ) < limits.concurrent_target,
        )
    }

    /// Whether the weight that planned moves bring to each node can be counted.
    pub fn reserved_weights_fit(&self) -> (fit: bool)
        ensures
            fit == weights_fit(all_moves(self@.plans)),
    {
        weights_can_be_counted(&list_moves(&self.plans))
    }

    /// Holds one move of a plan against its slot as it is now.
    pub fn revalidate_move(
        &self,
        plan: &RebalancePlan,
        at: usize,
        slot: &Option<PlacementSlot>,
    ) -> (result: Result<(), CoordinatorRuntimeError>)
        requires
            at < plan@.moves.len(),
            weights_fit(all_moves(self@.plans)),
        ensures
            runtime_fault(result) == self@.move_rejection(plan@, at as int, option_view(*slot)),
    {
        let movement = &plan.moves[at];
        assert(plan@.moves[at as int] == movement@);
        let slot = match slot {
            None => {
                return Err(CoordinatorRuntimeError::UnknownSlot);
            },
            Some(slot) => slot,
        };
        if slot.version.is_later_than(&plan.base_version) || !slot_still_matches(slot, movement) {
            return Err(CoordinatorRuntimeError::StaleProposal);
        }
        let session = match self.sessions.get(&movement.target.incarnation) {
            None => {
                return Err(CoordinatorRuntimeError::IneligibleTarget);
            },
            Some(session) => session,
        };
        if !(session.placement_up() && session.hello.node.same(&movement.target)
            && session.hello.hosted_entity_types.contains(&plan.entity_type)) {
            return Err(CoordinatorRuntimeError::IneligibleTarget);
        }
        let moves = list_moves(&self.plans);
        let base = sum_weight_toward(&moves, &movement.target);
        let mut reservation: u64 = base;
        let mut i: usize = 0;
        while i <= at
            invariant
                i <= at + 1,
                at < plan.moves.len(),
                movement@ == plan@.moves[at as int],
                reservation == saturated(
                    base as nat + plan_weight(plan@.moves, movement@.target, i as int),
                ),
            decreases at + 1 - i,
        {
            assert(plan@.moves[i as int] == plan.moves@[i as int]@);
            if plan.moves[i].target.same(&movement.target) {
                reservation = reservation.saturating_add(plan.moves[i].estimated_weight);
            }
            i = i + 1;
        }
        if reservation > session.hello.capacity_units {
            return Err(CoordinatorRuntimeError::ConcurrencyLimit);
        }
        Ok(())
    }

    /// Holds a plan against the slots of its moves as they are now.
    pub fn revalidate_plan(&self, plan: &RebalancePlan, slots: &Vec<Option<PlacementSlot>>) -> (result:
        Result<(), CoordinatorRuntimeError>)
        requires
            slots@.len() == plan@.moves.len(),
            weights_fit(all_moves(self@.plans)),
        ensures
            runtime_fault(result) == self@.first_rejection(
                plan@,
                slots@.map_values(|slot: Option<PlacementSlot>| option_view(slot)),
                plan@.moves.len() as int,
            ),
    {
        let ghost views = slots@.map_values(|slot: Option<PlacementSlot>| option_view(slot));
        let mut i: usize = 0;
        while i < plan.moves.len()
            invariant
                i <= plan.moves.len(),
                slots@.len() == plan@.moves.len(),
                weights_fit(all_moves(self@.plans)),
                views == slots@.map_values(|slot: Option<PlacementSlot>| option_view(slot)),
                self@.first_rejection(plan@, views, i as int) is None,
            decreases plan.moves.len() - i,
        {
            match self.revalidate_move(plan, i, &slots[i]) {
                Ok(()) => {},
                Err(error) => {
                    proof {
                        lemma_first_rejection(self@, plan@, views, i + 1, plan@.moves.len() as int);
                    }
                    return Err(error);
                },
            }
            i = i + 1;
        }
        Ok(())
    }

    fn has_automatic_plan(&self, entity_type: &EntityType) -> (found: bool)
        ensures
            found == self@.has_automatic_plan(entity_type@),
    {
        let len = self.plans.len();
        let ghost ids = ranked::<u128>(self.plans@.dom());
        let mut i: usize = 0;
        while i < len
            invariant
                i <= len,
                len == ids.len(),
                ids == ranked::<u128>(self.plans@.dom()),
                forall|j: int|
                    0 <= j < i ==> !(self@.plans[#[trigger] ids[j]].entity_type == entity_type@
                        && self@.plans[ids[j]].reason == PlanReason::Automatic && is_open(
                        self@.plans[ids[j]].status,
                    )),
            decreases len - i,
        {
            let (_, plan) = self.plans.entry_at(i);
            let open = match plan.status {
                PlanStatus::Planned => true,
                PlanStatus::Running => true,
                _ => false,
            };
            if plan.entity_type.same(entity_type) && plan.reason == PlanReason::Automatic && open {
                assert(self@.plans.contains_key(ids[i as int]));
                return true;
            }
            i = i + 1;
        }
        proof {
            assert forall|id: u128| #[trigger] self@.plans.contains_key(id) implies !(
            self@.plans[id].entity_type == entity_type@ && self@.plans[id].reason
                == PlanReason::Automatic && is_open(self@.plans[id].status)) by {
                assert(ids.to_set().contains(id));
                let j = choose|j: int| 0 <= j < ids.len() && ids[j] == id;
                assert(self@.plans[ids[j]] == self@.plans[id]);
            }
        }
        false
    }

    /// Makes a plan of a proposal under a given identity, unless it is stale or conflicts.
    pub fn admit_proposal_as(
        &self,
        plan_id: u128,
        proposal: RebalanceProposal,
        entity_type: &EntityType,
    ) -> (result: Result<RebalancePlan, CoordinatorRuntimeError>)
        ensures
            match result {
                Ok(plan) => self@.proposal_rejection(proposal@, entity_type@) is None && plan@
                    == proposal@.planned(plan_id, entity_type@, self@.term),
                Err(error) => self@.proposal_rejection(proposal@, entity_type@) == Some(error@),
            },
    {
        if !proposal.base_version.same(&self.version) || proposal.moves.len()
            > self.config.rebalance_limits.moves_per_round {
            return Err(CoordinatorRuntimeError::StaleProposal);
        }
        let plan = match RebalancePlan::from_proposal_as(
            plan_id,
            proposal,
            entity_type.copy(),
            self.term,
            self.config.maximum_plan_moves,
        ) {
            Ok(plan) => plan,
            Err(error) => {
                return Err(CoordinatorRuntimeError::Plan(error));
            },
        };
        if plan.reason == PlanReason::Automatic && self.has_automatic_plan(entity_type) {
            return Err(CoordinatorRuntimeError::PlanConflict);
        }
        Ok(plan)
    }

    /// Makes a plan of a proposal under a fresh identity, unless it is stale or conflicts.
    pub fn submit_rebalance(&self, proposal: RebalanceProposal, entity_type: &EntityType) -> (result:
        Result<RebalancePlan, CoordinatorRuntimeError>)
        ensures
            match result {
                Ok(plan) => self@.proposal_rejection(proposal@, entity_type@) is None && plan@
                    == proposal@.planned(plan.plan_id, entity_type@, self@.term),
                Err(error) => self@.proposal_rejection(proposal@, entity_type@) == Some(error@),
            },
    {
        self.admit_proposal_as(crate::hashing::fresh_id(), proposal, entity_type)
    }

    /// The plans that give way to an incoming one, each with what replaces it, up to the first
    /// that cannot.
    pub fn preempt_lower_priority(&self, incoming: &PlanReason) -> (preempted: (
        Vec<PlanUpdate>,
        Option<CoordinatorRuntimeError>,
    ))
        ensures
            (seq_view(preempted.0@), option_view(preempted.1)) == self@.preempted(*incoming),
    {
        let len = self.plans.len();
        let ghost ids = ranked::<u128>(self.plans@.dom());
        let mut updates: Vec<PlanUpdate> = Vec::new();
        let mut i: usize = 0;
        assert(seq_view(updates@) =~= Seq::<PlanUpdateModel>::empty());
        while i < len
            invariant
                i <= len,
                len == ids.len(),
                ids == ranked::<u128>(self.plans@.dom()),
                preempted_first(self@.plans, ids, *incoming, i as int) == (
                    seq_view(updates@),
                    None::<RuntimeErrorModel>,
                ),
            decreases len - i,
        {
            let (_, plan) = self.plans.entry_at(i);
            if plan_priority(&plan.reason) > plan_priority(incoming) {
                let pending = list_pending_shards(plan);
                if pending.len() > 0 {
                    match give_way(plan) {
                        Ok(next) => {
                            let ghost before = seq_view(updates@);
                            let update = PlanUpdate { expected: plan.copy_plan(), plan: next };
                            updates.push(update);
                            assert(seq_view(updates@) =~= before.push(update@));
                        },
                        Err(error) => {
                            proof {
                                lemma_preempted_fault(
                                    self@.plans,
                                    ids,
                                    *incoming,
                                    i + 1,
                                    ids.len() as int,
                                );
                            }
                            return (updates, Some(error));
                        },
                    }
                }
            }
            i = i + 1;
        }
        (updates, None)
    }

    /// The closed plans beyond those that are kept, oldest first.
    pub fn compact_plan_history(&self) -> (forgotten: Vec<u128>)
        ensures
            forgotten@ == self@.forgettable(),
    {
        let len = self.plans.len();
        let ghost ids = ranked::<u128>(self.plans@.dom());
        let mut closed: SortedSet<ClosedPlan> = SortedSet::new();
        let mut i: usize = 0;
        while i < len
            invariant
                i <= len,
                len == ids.len(),
                ids == ranked::<u128>(self.plans@.dom()),
                ids.no_duplicates(),
                forall|key: ClosedPlanModel| #[trigger]
                    closed@.contains(key) <==> closed_plans(self@.plans).contains(key)
                        && ids.subrange(0, i as int).contains(key.plan_id),
            decreases len - i,
        {
            let (id, plan) = self.plans.entry_at(i);
            let open = match plan.status {
                PlanStatus::Planned => true,
                PlanStatus::Running => true,
                _ => false,
            };
            let ghost before = closed@;
            proof {
                let shorter = ids.subrange(0, i as int);
                let longer = ids.subrange(0, i + 1);
                assert(longer =~= shorter.push(ids[i as int]));
                assert forall|x: u128| longer.contains(x) <==> shorter.contains(x) || x
                    == ids[i as int] by {
                    crate::sorted::lemma_push_to_set(shorter, ids[i as int]);
                    assert(longer.to_set().contains(x) == longer.contains(x));
                    assert(shorter.to_set().contains(x) == shorter.contains(x));
                }
            }
            if !open {
                let _ = closed.insert(
                    ClosedPlan { base_version: plan.base_version.copy(), plan_id: *id },
                );
            }
            i = i + 1;
        }
        proof {
            assert(ids.subrange(0, i as int) =~= ids);
            assert forall|key: ClosedPlanModel| closed@.contains(key) <==> closed_plans(
                self@.plans,
            ).contains(key) by {
                if closed_plans(self@.plans).contains(key) {
                    assert(ids.to_set().contains(key.plan_id));
                }
            }
            assert(closed@ =~= closed_plans(self@.plans));
        }
        let count = closed.len();
        let excess = if count > self.config.maximum_completed_plan_history {
            count - self.config.maximum_completed_plan_history
        } else {
            0
        };
        let mut forgotten: Vec<u128> = Vec::new();
        let mut j: usize = 0;
        while j < excess
            invariant
                j <= excess <= ranked::<ClosedPlan>(closed@).len(),
                forgotten.len() == j,
                forall|k: int|
                    0 <= k < j ==> forgotten@[k] == (#[trigger] ranked::<ClosedPlan>(
                        closed@,
                    )[k]).plan_id,
            decreases excess - j,
        {
            forgotten.push(closed.member_at(j).plan_id);
            j = j + 1;
        }
        assert(forgotten@ =~= self@.forgettable());
        forgotten
    }

    /// The plan with one pending move cancelled, at its next record revision.
    pub fn cancel_pending(&self, plan_id: u128, shard_id: ShardId) -> (result: Result<
        PlanUpdate,
        CoordinatorRuntimeError,
    >)
        ensures
            outcome(result) == self@.cancellation(plan_id, shard_id),
    {
        let plan = match self.plans.get(&plan_id) {
            Some(plan) => plan,
            None => {
                return Err(CoordinatorRuntimeError::UnknownPlan);
            },
        };
        let mut next = plan.copy_plan();
        match next.cancel_pending_move(shard_id) {
            Ok(()) => {},
            Err(error) => {
                return Err(CoordinatorRuntimeError::Plan(error));
            },
        }
        match revise(next) {
            Ok(next) => Ok(PlanUpdate { expected: plan.copy_plan(), plan: next }),
            Err(error) => Err(error),
        }
    }

    /// Takes note of a plan that is stored.
    pub fn remember_plan(&mut self, plan: RebalancePlan)
        ensures
            final(self)@ == (LeaderModel {
                plans: old(self)@.plans.insert(plan@.plan_id, plan@),
                ..old(self)@
            }),
    {
        self.plans.insert(plan.plan_id, plan);
    }

    /// Drops a plan that is no longer stored.
    pub fn forget_plan(&mut self, plan_id: u128)
        ensures
            final(self)@ == (LeaderModel {
                plans: old(self)@.plans.remove(plan_id),
                ..old(self)@
            }),
    {
        let _ = self.plans.remove(&plan_id);
    }

    /// The shards of a plan whose moves are still to be started, in the order of the plan.
    pub fn startable_shards(&self, plan_id: u128) -> (result: Result<
        Vec<ShardId>,
        CoordinatorRuntimeError,
    >)
        ensures
            match result {
                Ok(shards) => self@.plans.contains_key(plan_id) && shards@ == pending_shards(
                    self@.plans[plan_id],
                ),
                Err(error) => !self@.plans.contains_key(plan_id) && error@
                    == RuntimeErrorModel::UnknownPlan,
            },
    {
        match self.plans.get(&plan_id) {
            Some(plan) => Ok(list_pending_shards(plan)),
            None => Err(CoordinatorRuntimeError::UnknownPlan),
        }
    }
}

impl LeaderModel {
    /// What cancelling a pending move of a plan comes to.
    pub open spec fn cancellation(self, plan_id: u128, shard_id: ShardId) -> Result<
        PlanUpdateModel,
        RuntimeErrorModel,
    > {
        let plan = self.plans[plan_id];
        let (cancelled, fault) = plan.cancelled(shard_id);
        if !self.plans.contains_key(plan_id) {
            Err(RuntimeErrorModel::UnknownPlan)
        } else if fault is Some {
            Err(RuntimeErrorModel::Plan(fault->0))
        } else {
            match revised(cancelled) {
                Ok(next) => Ok(PlanUpdateModel { expected: plan, plan: next }),
                Err(error) => Err(error),
            }
        }
    }
}

proof fn lemma_first_rejection(
    leader: LeaderModel,
    plan: PlanModel,
    slots: Seq<Option<SlotModel>>,
    at: int,
    n: int,
)
    requires
        at <= n,
        leader.first_rejection(plan, slots, at) is Some,
    ensures
        leader.first_rejection(plan, slots, n) == leader.first_rejection(plan, slots, at),
    decreases n,
{
    if at < n {
        lemma_first_rejection(leader, plan, slots, at, n - 1);
    }
}

proof fn lemma_preempted_fault(
    plans: Map<u128, PlanModel>,
    ids: Seq<u128>,
    incoming: PlanReason,
    at: int,
    n: int,
)
    requires
        at <= n,
        preempted_first(plans, ids, incoming, at).1 is Some,
    ensures
        preempted_first(plans, ids, incoming, n) == preempted_first(plans, ids, incoming, at),
    decreases n,
{
    if at < n {
        lemma_preempted_fault(plans, ids, incoming, at, n - 1);
    }
}

} // verus!
