//! Rebalance plans: the moves of one decision, and how far each has come.
use vstd::prelude::*;

use crate::hashing::fresh_id;
use crate::keymap::{copy_option, option_view, seq_view, Key};
use crate::sessions::SessionSet;
use crate::types::{
    AssignmentGeneration, CoordinatorTerm, EntityType, NodeIncarnation, NodeKey, NodeModel,
    PlacementDomainId, PlacementVersion, PlanRevision, ShardId, VersionModel,
};

pub mod laws;
pub mod step_laws;

verus! {

#[derive(Debug, Clone, Copy, PartialEq, Eq, Structural)]
pub enum PlanStatus {
    Planned,
    Running,
    Completed,
    Cancelled,
    Failed,
}

#[derive(Debug, Clone, Copy, PartialEq, Eq, Structural)]
pub enum MoveProgress {
    Pending,
    Handoff,
    Completed,
    Cancelled,
    Failed,
}

#[derive(Debug, Clone, Copy, PartialEq, Eq, Structural)]
pub enum PlanReason {
    Recovery,
    Drain,
    Manual,
    Automatic,
}

/// Why a rebalance is asked for.
#[derive(Debug, PartialEq, Eq)]
pub enum RebalanceTrigger<S = String> {
    Recovery { owner: NodeKey<S> },
    Drain { node: NodeKey<S> },
    Manual { source: Option<NodeKey<S>>, target: Option<NodeKey<S>>, bypass_improvement: bool },
    Automatic,
}

impl View for RebalanceTrigger {
    type V = RebalanceTrigger<Seq<char>>;

    open spec fn view(&self) -> Self::V {
        match self {
            RebalanceTrigger::Recovery { owner } => RebalanceTrigger::Recovery { owner: owner@ },
            RebalanceTrigger::Drain { node } => RebalanceTrigger::Drain { node: node@ },
            RebalanceTrigger::Manual {
                source,
                target,
                bypass_improvement,
            } => RebalanceTrigger::Manual {
                source: option_view(*source),
                target: option_view(*target),
                bypass_improvement: *bypass_improvement,
            },
            RebalanceTrigger::Automatic => RebalanceTrigger::Automatic,
        }
    }
}

impl<S> RebalanceTrigger<S> {
    /// The reason of a plan that comes of this trigger.
    pub open spec fn reason(self) -> PlanReason {
        match self {
            RebalanceTrigger::Recovery { .. } => PlanReason::Recovery,
            RebalanceTrigger::Drain { .. } => PlanReason::Drain,
            RebalanceTrigger::Manual { .. } => PlanReason::Manual,
            RebalanceTrigger::Automatic => PlanReason::Automatic,
        }
    }
}

impl PlanReason {
    pub fn of(trigger: &RebalanceTrigger) -> (reason: Self)
        ensures
            reason == trigger@.reason(),
    {
        match trigger {
            RebalanceTrigger::Recovery { .. } => PlanReason::Recovery,
            RebalanceTrigger::Drain { .. } => PlanReason::Drain,
            RebalanceTrigger::Manual { .. } => PlanReason::Manual,
            RebalanceTrigger::Automatic => PlanReason::Automatic,
        }
    }
}

/// One move that a strategy proposes.
#[derive(Debug, PartialEq, Eq)]
pub struct ProposedMove<S = String> {
    pub domain: S,
    pub entity_type: S,
    pub shard_id: ShardId,
    pub expected_generation: AssignmentGeneration,
    pub source: NodeKey<S>,
    pub target: NodeKey<S>,
    pub estimated_weight: u64,
}

impl View for ProposedMove {
    type V = ProposedMove<Seq<char>>;

    open spec fn view(&self) -> Self::V {
        ProposedMove {
            domain: self.domain@,
            entity_type: self.entity_type@,
            shard_id: self.shard_id,
            expected_generation: self.expected_generation,
            source: self.source@,
            target: self.target@,
            estimated_weight: self.estimated_weight,
        }
    }
}

impl Clone for ProposedMove {
    fn clone(&self) -> (clone: Self)
        ensures
            clone@ == self@,
    {
        self.copy()
    }
}

impl Key for ProposedMove {
    fn same(&self, other: &Self) -> (same: bool) {
        self.domain.same(&other.domain)
            && self.entity_type.same(&other.entity_type)
            && self.shard_id == other.shard_id
            && self.expected_generation == other.expected_generation
            && self.source.same(&other.source)
            && self.target.same(&other.target)
            && self.estimated_weight == other.estimated_weight
    }

    fn copy(&self) -> (copy: Self) {
        ProposedMove {
            domain: self.domain.copy(),
            entity_type: self.entity_type.copy(),
            shard_id: self.shard_id,
            expected_generation: self.expected_generation,
            source: self.source.copy(),
            target: self.target.copy(),
            estimated_weight: self.estimated_weight,
        }
    }
}

pub type ProposedMoveModel = ProposedMove<Seq<char>>;

/// The moves that a strategy proposes, against one version of a domain.
#[derive(Debug, PartialEq, Eq)]
pub struct RebalanceProposal {
    pub domain: PlacementDomainId,
    pub policy_id: String,
    pub policy_version: u32,
    pub base_version: PlacementVersion,
    pub trigger: RebalanceTrigger,
    pub moves: Vec<ProposedMove>,
}

/// What a proposal proposes.
pub struct ProposalModel {
    pub domain: Seq<char>,
    pub policy_id: Seq<char>,
    pub policy_version: u32,
    pub base_version: VersionModel,
    pub trigger: RebalanceTrigger<Seq<char>>,
    pub moves: Seq<ProposedMoveModel>,
}

impl View for RebalanceProposal {
    type V = ProposalModel;

    open spec fn view(&self) -> ProposalModel {
        ProposalModel {
            domain: self.domain@,
            policy_id: self.policy_id@,
            policy_version: self.policy_version,
            base_version: self.base_version@,
            trigger: self.trigger@,
            moves: seq_view(self.moves@),
        }
    }
}

/// One move of a plan.
#[derive(Debug)]
pub struct RebalanceMove {
    pub shard_id: ShardId,
    pub expected_generation: AssignmentGeneration,
    pub source: NodeKey,
    pub target: NodeKey,
    pub estimated_weight: u64,
    pub progress: MoveProgress,
    pub barrier_version: Option<PlacementVersion>,
    pub barrier_sessions: SessionSet,
}

/// What a move of a plan states.
#[verifier::ext_equal]
pub struct MoveModel {
    pub shard_id: ShardId,
    pub expected_generation: AssignmentGeneration,
    pub source: NodeModel,
    pub target: NodeModel,
    pub estimated_weight: u64,
    pub progress: MoveProgress,
    pub barrier_version: Option<VersionModel>,
    pub barrier_sessions: Set<NodeIncarnation>,
}

impl View for RebalanceMove {
    type V = MoveModel;

    open spec fn view(&self) -> MoveModel {
        MoveModel {
            shard_id: self.shard_id,
            expected_generation: self.expected_generation,
            source: self.source@,
            target: self.target@,
            estimated_weight: self.estimated_weight,
            progress: self.progress,
            barrier_version: option_view(self.barrier_version),
            barrier_sessions: self.barrier_sessions@,
        }
    }
}

impl RebalanceMove {
    pub fn copy_move(&self) -> (copy: Self)
        ensures
            copy@ == self@,
    {
        RebalanceMove {
            shard_id: self.shard_id,
            expected_generation: self.expected_generation,
            source: self.source.copy(),
            target: self.target.copy(),
            estimated_weight: self.estimated_weight,
            progress: self.progress,
            barrier_version: copy_option(&self.barrier_version),
            barrier_sessions: self.barrier_sessions.copy(),
        }
    }
}

/// The moves of one decision.
#[derive(Debug)]
pub struct RebalancePlan {
    pub plan_id: u128,
    pub domain: PlacementDomainId,
    pub entity_type: EntityType,
    pub reason: PlanReason,
    pub coordinator_term: CoordinatorTerm,
    pub base_version: PlacementVersion,
    pub record_revision: PlanRevision,
    pub policy_id: String,
    pub policy_version: u32,
    pub status: PlanStatus,
    pub moves: Vec<RebalanceMove>,
}

/// What a plan states.
#[verifier::ext_equal]
pub struct PlanModel {
    pub plan_id: u128,
    pub domain: Seq<char>,
    pub entity_type: Seq<char>,
    pub reason: PlanReason,
    pub coordinator_term: CoordinatorTerm,
    pub base_version: VersionModel,
    pub record_revision: PlanRevision,
    pub policy_id: Seq<char>,
    pub policy_version: u32,
    pub status: PlanStatus,
    pub moves: Seq<MoveModel>,
}

impl View for RebalancePlan {
    type V = PlanModel;

    open spec fn view(&self) -> PlanModel {
        PlanModel {
            plan_id: self.plan_id,
            domain: self.domain@,
            entity_type: self.entity_type@,
            reason: self.reason,
            coordinator_term: self.coordinator_term,
            base_version: self.base_version@,
            record_revision: self.record_revision,
            policy_id: self.policy_id@,
            policy_version: self.policy_version,
            status: self.status,
            moves: seq_view(self.moves@),
        }
    }
}

/// Why a plan is refused, or a step of it.
#[derive(Debug, Clone, Copy, PartialEq, Eq, Structural)]
pub enum PlanError {
    /// There are no moves, or too many of them.
    InvalidMoveCount,
    InvalidMove,
    /// A shard is moved twice.
    DuplicateShard,
    UnknownShard,
    /// The generation of the shard changed before handoff.
    StaleGeneration,
    /// The shard has an active move already.
    MoveConflict,
    /// A move that entered handoff cannot be rolled back.
    CannotRollbackHandoff,
    IllegalProgress,
}

impl PlanError {
    pub fn message(&self) -> (message: &'static str)
        ensures
            message@ == plan_error_message(*self),
    {
        match self {
            PlanError::InvalidMoveCount =>
                "rebalance plan move count is empty, unbounded, or over limit",
            PlanError::InvalidMove => "rebalance plan contains an invalid move",
            PlanError::DuplicateShard => "rebalance plan contains the same shard more than once",
            PlanError::UnknownShard => "rebalance plan does not contain the shard",
            PlanError::StaleGeneration => "shard generation changed before handoff",
            PlanError::MoveConflict => "shard already has an active move",
            PlanError::CannotRollbackHandoff =>
                "a move that entered handoff cannot be rolled back",
            PlanError::IllegalProgress => "rebalance move progress transition is illegal",
        }
    }
}

pub open spec fn plan_error_message(error: PlanError) -> Seq<char> {
    match error {
        PlanError::InvalidMoveCount =>
            "rebalance plan move count is empty, unbounded, or over limit"@,
        PlanError::InvalidMove => "rebalance plan contains an invalid move"@,
        PlanError::DuplicateShard => "rebalance plan contains the same shard more than once"@,
        PlanError::UnknownShard => "rebalance plan does not contain the shard"@,
        PlanError::StaleGeneration => "shard generation changed before handoff"@,
        PlanError::MoveConflict => "shard already has an active move"@,
        PlanError::CannotRollbackHandoff => "a move that entered handoff cannot be rolled back"@,
        PlanError::IllegalProgress => "rebalance move progress transition is illegal"@,
    }
}

/// The error of a step, or none where it succeeded.
pub open spec fn plan_fault<T>(result: Result<T, PlanError>) -> Option<PlanError> {
    match result {
        Ok(_) => None,
        Err(error) => Some(error),
    }
}

impl ProposalModel {
    /// What is wrong with the move at `i` of a proposal for `entity_type`.
    pub open spec fn move_fault(self, entity_type: Seq<char>, i: int) -> Option<PlanError> {
        let movement = self.moves[i];
        if movement.domain != self.domain || movement.entity_type != entity_type || movement.source
            == movement.target || movement.estimated_weight == 0 {
            Some(PlanError::InvalidMove)
        } else if exists|j: int|
            0 <= j < i && (#[trigger] self.moves[j]).shard_id == movement.shard_id {
            Some(PlanError::DuplicateShard)
        } else {
            None
        }
    }

    /// The fault of the first faulty move among the first `n`.
    pub open spec fn first_move_fault(self, entity_type: Seq<char>, n: int) -> Option<PlanError>
        decreases n,
    {
        if n <= 0 {
            None
        } else if self.first_move_fault(entity_type, n - 1) is Some {
            self.first_move_fault(entity_type, n - 1)
        } else {
            self.move_fault(entity_type, n - 1)
        }
    }

    /// Why no plan comes of a proposal, if none does.
    pub open spec fn fault(self, entity_type: Seq<char>, maximum_moves: usize) -> Option<PlanError> {
        if maximum_moves == 0 || self.moves.len() == 0 || self.moves.len() > maximum_moves {
            Some(PlanError::InvalidMoveCount)
        } else {
            self.first_move_fault(entity_type, self.moves.len() as int)
        }
    }

    /// The plan that comes of a proposal under an identity.
    pub open spec fn planned(
        self,
        plan_id: u128,
        entity_type: Seq<char>,
        coordinator_term: CoordinatorTerm,
    ) -> PlanModel {
        PlanModel {
            plan_id,
            domain: self.domain,
            entity_type,
            reason: self.trigger.reason(),
            coordinator_term,
            base_version: self.base_version,
            record_revision: PlanRevision(1),
            policy_id: self.policy_id,
            policy_version: self.policy_version,
            status: PlanStatus::Planned,
            moves: self.moves.map_values(|movement: ProposedMoveModel| pending_move(movement)),
        }
    }
}

/// A proposed move that nothing has been done for yet.
pub open spec fn pending_move(movement: ProposedMoveModel) -> MoveModel {
    MoveModel {
        shard_id: movement.shard_id,
        expected_generation: movement.expected_generation,
        source: movement.source,
        target: movement.target,
        estimated_weight: movement.estimated_weight,
        progress: MoveProgress::Pending,
        barrier_version: None,
        barrier_sessions: Set::empty(),
    }
}

/// Whether the move at `i` is the first one of a shard.
pub open spec fn is_move_of(moves: Seq<MoveModel>, shard_id: ShardId, i: int) -> bool {
    &&& 0 <= i < moves.len()
    &&& moves[i].shard_id == shard_id
    &&& forall|j: int| 0 <= j < i ==> (#[trigger] moves[j]).shard_id != shard_id
}

/// Whether a plan moves a shard.
pub open spec fn moves_shard(moves: Seq<MoveModel>, shard_id: ShardId) -> bool {
    exists|i: int| is_move_of(moves, shard_id, i)
}

/// Where the move of a shard stands in a plan that has one.
pub open spec fn move_index(moves: Seq<MoveModel>, shard_id: ShardId) -> int {
    choose|i: int| is_move_of(moves, shard_id, i)
}

pub open spec fn is_settled(progress: MoveProgress) -> bool {
    progress == MoveProgress::Completed || progress == MoveProgress::Cancelled
}

pub open spec fn is_active(progress: MoveProgress) -> bool {
    progress == MoveProgress::Pending || progress == MoveProgress::Handoff
}

impl PlanModel {
    pub open spec fn movement(self, shard_id: ShardId) -> MoveModel {
        self.moves[move_index(self.moves, shard_id)]
    }

    pub open spec fn with_move(self, shard_id: ShardId, movement: MoveModel) -> PlanModel {
        PlanModel { moves: self.moves.update(move_index(self.moves, shard_id), movement), ..self }
    }

    /// The plan, closed once each of its moves is settled.
    pub open spec fn refreshed(self) -> PlanModel {
        if forall|i: int| 0 <= i < self.moves.len() ==> is_settled((#[trigger] self.moves[i]).progress) {
            PlanModel {
                status: if exists|i: int|
                    0 <= i < self.moves.len() && (#[trigger] self.moves[i]).progress
                        == MoveProgress::Completed {
                    PlanStatus::Completed
                } else {
                    PlanStatus::Cancelled
                },
                ..self
            }
        } else {
            self
        }
    }

    /// The plan once its first step was asked for.
    pub open spec fn started(self) -> PlanModel {
        if self.status == PlanStatus::Planned {
            PlanModel { status: PlanStatus::Running, ..self }
        } else {
            self
        }
    }

    /// What beginning a move does to a plan, and why it is refused, if it is.
    pub open spec fn begun(
        self,
        shard_id: ShardId,
        current_generation: AssignmentGeneration,
        active_slot_move: Option<u128>,
    ) -> (PlanModel, Option<PlanError>) {
        let plan = self.started();
        if plan.status != PlanStatus::Running || active_slot_move is Some {
            (plan, Some(PlanError::MoveConflict))
        } else if !moves_shard(plan.moves, shard_id) {
            (plan, Some(PlanError::UnknownShard))
        } else if plan.movement(shard_id).progress != MoveProgress::Pending || plan.movement(
            shard_id,
        ).expected_generation != current_generation {
            (plan, Some(PlanError::StaleGeneration))
        } else {
            (
                plan.with_move(
                    shard_id,
                    MoveModel { progress: MoveProgress::Handoff, ..plan.movement(shard_id) },
                ),
                None,
            )
        }
    }

    /// What installing a barrier does to a plan, and why it is refused, if it is.
    pub open spec fn barred(
        self,
        shard_id: ShardId,
        version: VersionModel,
        sessions: Set<NodeIncarnation>,
    ) -> (PlanModel, Option<PlanError>) {
        if !moves_shard(self.moves, shard_id) {
            (self, Some(PlanError::UnknownShard))
        } else if self.movement(shard_id).progress != MoveProgress::Handoff || self.movement(
            shard_id,
        ).barrier_version is Some {
            (self, Some(PlanError::IllegalProgress))
        } else {
            (
                self.with_move(
                    shard_id,
                    MoveModel {
                        barrier_version: Some(version),
                        barrier_sessions: sessions,
                        ..self.movement(shard_id)
                    },
                ),
                None,
            )
        }
    }

    /// What cancelling a move does to a plan, and why it is refused, if it is.
    pub open spec fn cancelled(self, shard_id: ShardId) -> (PlanModel, Option<PlanError>) {
        if !moves_shard(self.moves, shard_id) {
            (self, Some(PlanError::UnknownShard))
        } else if self.movement(shard_id).progress != MoveProgress::Pending {
            (self, Some(PlanError::CannotRollbackHandoff))
        } else {
            (
                self.with_move(
                    shard_id,
                    MoveModel { progress: MoveProgress::Cancelled, ..self.movement(shard_id) },
                ).refreshed(),
                None,
            )
        }
    }

    /// What completing a move does to a plan, and why it is refused, if it is.
    pub open spec fn completed(self, shard_id: ShardId) -> (PlanModel, Option<PlanError>) {
        if !moves_shard(self.moves, shard_id) {
            (self, Some(PlanError::UnknownShard))
        } else if self.movement(shard_id).progress != MoveProgress::Handoff {
            (self, Some(PlanError::IllegalProgress))
        } else {
            (
                self.with_move(
                    shard_id,
                    MoveModel { progress: MoveProgress::Completed, ..self.movement(shard_id) },
                ).refreshed(),
                None,
            )
        }
    }

    /// The targets of the moves that are still to arrive, with the weight each brings.
    pub open spec fn reservations(self) -> Seq<(NodeModel, u64)> {
        self.moves.filter(|movement: MoveModel| is_active(movement.progress)).map_values(
            |movement: MoveModel| (movement.target, movement.estimated_weight),
        )
    }

    /// The shards whose moves entered handoff.
    pub open spec fn forward_shards(self) -> Seq<ShardId> {
        self.moves.filter(
            |movement: MoveModel| movement.progress == MoveProgress::Handoff,
        ).map_values(|movement: MoveModel| movement.shard_id)
    }
}

proof fn lemma_move_index(moves: Seq<MoveModel>, shard_id: ShardId, i: int)
    requires
        is_move_of(moves, shard_id, i),
    ensures
        moves_shard(moves, shard_id),
        move_index(moves, shard_id) == i,
{
    let k = move_index(moves, shard_id);
    assert(is_move_of(moves, shard_id, k));
    if k < i {
        assert(moves[k].shard_id != shard_id);
    }
    if i < k {
        assert(moves[i].shard_id != shard_id);
    }
}

fn validate_move(
    movement: &ProposedMove,
    domain: &PlacementDomainId,
    entity_type: &EntityType,
) -> (valid: bool)
    ensures
        valid == !(movement@.domain != domain@ || movement@.entity_type != entity_type@
            || movement@.source == movement@.target || movement@.estimated_weight == 0),
{
    movement.domain.same(domain) && movement.entity_type.same(entity_type)
        && !movement.source.same(&movement.target) && movement.estimated_weight != 0
}

impl RebalancePlan {
    pub fn copy_plan(&self) -> (copy: Self)
        ensures
            copy@ == self@,
    {
        let mut moves: Vec<RebalanceMove> = Vec::new();
        let mut i: usize = 0;
        while i < self.moves.len()
            invariant
                i <= self.moves.len(),
                moves.len() == i,
                forall|j: int| 0 <= j < i ==> (#[trigger] moves@[j])@ == self.moves@[j]@,
            decreases self.moves.len() - i,
        {
            moves.push(self.moves[i].copy_move());
            i = i + 1;
        }
        assert(seq_view(moves@) =~= seq_view(self.moves@));
        RebalancePlan {
            plan_id: self.plan_id,
            domain: self.domain.copy(),
            entity_type: self.entity_type.copy(),
            reason: self.reason,
            coordinator_term: self.coordinator_term,
            base_version: self.base_version.copy(),
            record_revision: self.record_revision,
            policy_id: self.policy_id.copy(),
            policy_version: self.policy_version,
            status: self.status,
            moves,
        }
    }

    /// Makes a plan of a proposal, under a fresh identity.
    pub fn from_proposal(
        proposal: RebalanceProposal,
        entity_type: EntityType,
        coordinator_term: CoordinatorTerm,
        maximum_moves: usize,
    ) -> (result: Result<Self, PlanError>)
        ensures
            plan_fault(result) == proposal@.fault(entity_type@, maximum_moves),
            result matches Ok(plan) ==> plan@ == proposal@.planned(
                plan.plan_id,
                entity_type@,
                coordinator_term,
            ),
    {
        Self::from_proposal_as(
            fresh_id(),
            proposal,
            entity_type,
            coordinator_term,
            maximum_moves,
        )
    }

    /// Makes a plan of a proposal, under a given identity.
    pub fn from_proposal_as(
        plan_id: u128,
        proposal: RebalanceProposal,
        entity_type: EntityType,
        coordinator_term: CoordinatorTerm,
        maximum_moves: usize,
    ) -> (result: Result<Self, PlanError>)
        ensures
            plan_fault(result) == proposal@.fault(entity_type@, maximum_moves),
            result matches Ok(plan) ==> plan@ == proposal@.planned(
                plan_id,
                entity_type@,
                coordinator_term,
            ),
    {
        let ghost model = proposal@;
        if maximum_moves == 0 || proposal.moves.len() == 0 || proposal.moves.len() > maximum_moves {
            return Err(PlanError::InvalidMoveCount);
        }
        let mut moves: Vec<RebalanceMove> = Vec::new();
        let mut i: usize = 0;
        while i < proposal.moves.len()
            invariant
                i <= proposal.moves.len(),
                model == proposal@,
                maximum_moves > 0,
                0 < model.moves.len() <= maximum_moves,
                model.first_move_fault(entity_type@, i as int) is None,
                moves.len() == i,
                forall|j: int|
                    0 <= j < i ==> (#[trigger] moves@[j])@ == pending_move(model.moves[j]),
            decreases proposal.moves.len() - i,
        {
            let movement = &proposal.moves[i];
            let ghost at = i as int;
            assert(model.moves[at] == movement@);
            proof {
                lemma_first_move_fault(model, entity_type@, at, model.moves.len() as int);
            }
            if !validate_move(movement, &proposal.domain, &entity_type) {
                return Err(PlanError::InvalidMove);
            }
            let mut j: usize = 0;
            while j < i
                invariant
                    j <= i,
                    i < proposal.moves.len(),
                    model == proposal@,
                    movement@ == model.moves[i as int],
                    at == i,
                    model.move_fault(entity_type@, at) is Some
                        ==> model.first_move_fault(entity_type@, model.moves.len() as int)
                        == model.move_fault(entity_type@, at),
                    0 < model.moves.len() <= maximum_moves,
                    !(movement@.domain != model.domain || movement@.entity_type != entity_type@
                        || movement@.source == movement@.target || movement@.estimated_weight == 0),
                    forall|k: int|
                        0 <= k < j ==> (#[trigger] model.moves[k]).shard_id != movement@.shard_id,
                decreases i - j,
            {
                if proposal.moves[j].shard_id == movement.shard_id {
                    assert(model.moves[j as int].shard_id == movement@.shard_id);
                    return Err(PlanError::DuplicateShard);
                }
                assert(model.moves[j as int].shard_id == proposal.moves@[j as int].shard_id);
                j = j + 1;
            }
            moves.push(
                RebalanceMove {
                    shard_id: movement.shard_id,
                    expected_generation: movement.expected_generation,
                    source: movement.source.copy(),
                    target: movement.target.copy(),
                    estimated_weight: movement.estimated_weight,
                    progress: MoveProgress::Pending,
                    barrier_version: None,
                    barrier_sessions: SessionSet::new(),
                },
            );
            assert(moves@[at]@ =~= pending_move(model.moves[at]));
            i = i + 1;
        }
        let reason = PlanReason::of(&proposal.trigger);
        let plan = RebalancePlan {
            plan_id,
            domain: proposal.domain,
            entity_type,
            reason,
            coordinator_term,
            base_version: proposal.base_version,
            record_revision: PlanRevision(1),
            policy_id: proposal.policy_id,
            policy_version: proposal.policy_version,
            status: PlanStatus::Planned,
            moves,
        };
        assert(plan@ =~= model.planned(plan_id, entity_type@, coordinator_term)) by {
            assert(plan@.moves =~= model.planned(plan_id, entity_type@, coordinator_term).moves);
        }
        Ok(plan)
    }

    pub fn find_move(&self, shard_id: ShardId) -> (found: Option<usize>)
        ensures
            match found {
                Some(i) => is_move_of(self@.moves, shard_id, i as int) && moves_shard(
                    self@.moves,
                    shard_id,
                ) && move_index(self@.moves, shard_id) == i,
                None => !moves_shard(self@.moves, shard_id),
            },
    {
        let mut i: usize = 0;
        while i < self.moves.len()
            invariant
                i <= self.moves.len(),
                forall|j: int| 0 <= j < i ==> (#[trigger] self@.moves[j]).shard_id != shard_id,
            decreases self.moves.len() - i,
        {
            assert(self@.moves[i as int] == self.moves@[i as int]@);
            if self.moves[i].shard_id == shard_id {
                proof {
                    lemma_move_index(self@.moves, shard_id, i as int);
                }
                return Some(i);
            }
            i = i + 1;
        }
        None
    }

    /// Puts a move in the place of another.
    pub fn set_move(&mut self, at: usize, movement: RebalanceMove)
        requires
            at < old(self)@.moves.len(),
        ensures
            final(self)@ == (PlanModel {
                moves: old(self)@.moves.update(at as int, movement@),
                ..old(self)@
            }),
    {
        self.moves.set(at, movement);
        assert(self@.moves =~= old(self)@.moves.update(at as int, movement@));
    }

    pub fn begin_move(
        &mut self,
        shard_id: ShardId,
        current_generation: AssignmentGeneration,
        active_slot_move: Option<u128>,
    ) -> (result: Result<(), PlanError>)
        ensures
            final(self)@ == old(self)@.begun(shard_id, current_generation, active_slot_move).0,
            plan_fault(result) == old(self)@.begun(
                shard_id,
                current_generation,
                active_slot_move,
            ).1,
    {
        if self.status == PlanStatus::Planned {
            self.status = PlanStatus::Running;
        }
        assert(self@ =~= old(self)@.started());
        if self.status != PlanStatus::Running || active_slot_move.is_some() {
            return Err(PlanError::MoveConflict);
        }
        let at = match self.find_move(shard_id) {
            None => {
                return Err(PlanError::UnknownShard);
            },
            Some(at) => at,
        };
        assert(self@.moves[at as int] == self.moves@[at as int]@);
        if self.moves[at].progress != MoveProgress::Pending || self.moves[at].expected_generation
            != current_generation {
            return Err(PlanError::StaleGeneration);
        }
        let mut movement = self.moves[at].copy_move();
        movement.progress = MoveProgress::Handoff;
        self.set_move(at, movement);
        Ok(())
    }

    pub fn install_barrier(
        &mut self,
        shard_id: ShardId,
        version: PlacementVersion,
        sessions: SessionSet,
    ) -> (result: Result<(), PlanError>)
        ensures
            final(self)@ == old(self)@.barred(shard_id, version@, sessions@).0,
            plan_fault(result) == old(self)@.barred(shard_id, version@, sessions@).1,
    {
        let at = match self.find_move(shard_id) {
            None => {
                return Err(PlanError::UnknownShard);
            },
            Some(at) => at,
        };
        assert(self@.moves[at as int] == self.moves@[at as int]@);
        if self.moves[at].progress != MoveProgress::Handoff
            || self.moves[at].barrier_version.is_some() {
            return Err(PlanError::IllegalProgress);
        }
        let mut movement = self.moves[at].copy_move();
        movement.barrier_version = Some(version);
        movement.barrier_sessions = sessions;
        self.set_move(at, movement);
        Ok(())
    }

    pub fn cancel_pending_move(&mut self, shard_id: ShardId) -> (result: Result<(), PlanError>)
        ensures
            final(self)@ == old(self)@.cancelled(shard_id).0,
            plan_fault(result) == old(self)@.cancelled(shard_id).1,
    {
        let at = match self.find_move(shard_id) {
            None => {
                return Err(PlanError::UnknownShard);
            },
            Some(at) => at,
        };
        assert(self@.moves[at as int] == self.moves@[at as int]@);
        if self.moves[at].progress != MoveProgress::Pending {
            return Err(PlanError::CannotRollbackHandoff);
        }
        let mut movement = self.moves[at].copy_move();
        movement.progress = MoveProgress::Cancelled;
        self.set_move(at, movement);
        self.refresh_status();
        Ok(())
    }

    pub fn complete_move(&mut self, shard_id: ShardId) -> (result: Result<(), PlanError>)
        ensures
            final(self)@ == old(self)@.completed(shard_id).0,
            plan_fault(result) == old(self)@.completed(shard_id).1,
    {
        let at = match self.find_move(shard_id) {
            None => {
                return Err(PlanError::UnknownShard);
            },
            Some(at) => at,
        };
        assert(self@.moves[at as int] == self.moves@[at as int]@);
        if self.moves[at].progress != MoveProgress::Handoff {
            return Err(PlanError::IllegalProgress);
        }
        let mut movement = self.moves[at].copy_move();
        movement.progress = MoveProgress::Completed;
        self.set_move(at, movement);
        self.refresh_status();
        Ok(())
    }

    /// The targets of the moves that are still to arrive, with the weight each brings.
    pub fn target_reservations(&self) -> (reservations: Vec<(NodeKey, u64)>)
        ensures
            seq_view(reservations@) == self@.reservations(),
    {
        let mut reservations: Vec<(NodeKey, u64)> = Vec::new();
        let ghost active = |movement: MoveModel| is_active(movement.progress);
        let ghost reserved = |movement: MoveModel| (movement.target, movement.estimated_weight);
        let mut i: usize = 0;
        assert(self@.moves.subrange(0, 0).filter(active) =~= Seq::<MoveModel>::empty()) by {
            reveal(Seq::filter);
        }
        while i < self.moves.len()
            invariant
                i <= self.moves.len(),
                active == (|movement: MoveModel| is_active(movement.progress)),
                reserved == (|movement: MoveModel| (movement.target, movement.estimated_weight)),
                seq_view(reservations@) =~= self@.moves.subrange(0, i as int).filter(
                    active,
                ).map_values(reserved),
            decreases self.moves.len() - i,
        {
            let movement = &self.moves[i];
            proof {
                assert(self@.moves[i as int] == movement@);
                lemma_filter_step(self@.moves, active, i as int);
            }
            let arriving = match movement.progress {
                MoveProgress::Pending => true,
                MoveProgress::Handoff => true,
                _ => false,
            };
            if arriving {
                let ghost earlier = seq_view(reservations@);
                reservations.push((movement.target.copy(), movement.estimated_weight));
                assert(seq_view(reservations@) =~= earlier.push(
                    (movement@.target, movement@.estimated_weight),
                ));
            }
            i = i + 1;
        }
        assert(self@.moves.subrange(0, i as int) =~= self@.moves);
        reservations
    }

    /// The shards whose moves entered handoff.
    pub fn recover_forward_shards(&self) -> (shards: Vec<ShardId>)
        ensures
            shards@ == self@.forward_shards(),
    {
        let mut shards: Vec<ShardId> = Vec::new();
        let ghost forward = |movement: MoveModel| movement.progress == MoveProgress::Handoff;
        let ghost shard = |movement: MoveModel| movement.shard_id;
        let mut i: usize = 0;
        assert(self@.moves.subrange(0, 0).filter(forward) =~= Seq::<MoveModel>::empty()) by {
            reveal(Seq::filter);
        }
        while i < self.moves.len()
            invariant
                i <= self.moves.len(),
                forward == (|movement: MoveModel| movement.progress == MoveProgress::Handoff),
                shard == (|movement: MoveModel| movement.shard_id),
                shards@ =~= self@.moves.subrange(0, i as int).filter(forward).map_values(shard),
            decreases self.moves.len() - i,
        {
            let movement = &self.moves[i];
            proof {
                assert(self@.moves[i as int] == movement@);
                lemma_filter_step(self@.moves, forward, i as int);
            }
            if movement.progress == MoveProgress::Handoff {
                shards.push(movement.shard_id);
            }
            i = i + 1;
        }
        assert(self@.moves.subrange(0, i as int) =~= self@.moves);
        shards
    }

    fn refresh_status(&mut self)
        ensures
            final(self)@ == old(self)@.refreshed(),
    {
        let ghost moves = self@.moves;
        let mut completed = false;
        let mut i: usize = 0;
        while i < self.moves.len()
            invariant
                i <= self.moves.len(),
                *self == *old(self),
                moves == self@.moves,
                forall|j: int| 0 <= j < i ==> is_settled((#[trigger] moves[j]).progress),
                completed == exists|j: int|
                    0 <= j < i && (#[trigger] moves[j]).progress == MoveProgress::Completed,
            decreases self.moves.len() - i,
        {
            assert(moves[i as int] == self.moves@[i as int]@);
            match self.moves[i].progress {
                MoveProgress::Completed => {
                    completed = true;
                    assert(moves[i as int].progress == MoveProgress::Completed);
                },
                MoveProgress::Cancelled => {},
                _ => {
                    assert(!is_settled(moves[i as int].progress));
                    return ;
                },
            }
            i = i + 1;
        }
        self.status = if completed {
            PlanStatus::Completed
        } else {
            PlanStatus::Cancelled
        };
        assert(self@ =~= old(self)@.refreshed());
    }
}

/// Filtering one more element.
pub proof fn lemma_filter_step<A>(items: Seq<A>, keep: spec_fn(A) -> bool, at: int)
    requires
        0 <= at < items.len(),
    ensures
        items.subrange(0, at + 1).filter(keep) == if keep(items[at]) {
            items.subrange(0, at).filter(keep).push(items[at])
        } else {
            items.subrange(0, at).filter(keep)
        },
{
    reveal(Seq::filter);
    assert(items.subrange(0, at + 1).drop_last() =~= items.subrange(0, at));
    assert(items.subrange(0, at + 1).last() == items[at]);
}

proof fn lemma_first_move_fault(
    proposal: ProposalModel,
    entity_type: Seq<char>,
    at: int,
    n: int,
)
    requires
        0 <= at < n <= proposal.moves.len(),
        proposal.first_move_fault(entity_type, at) is None,
    ensures
        proposal.move_fault(entity_type, at) is Some ==> proposal.first_move_fault(entity_type, n)
            == proposal.move_fault(entity_type, at),
    decreases n,
{
    if n > at + 1 {
        lemma_first_move_fault(proposal, entity_type, at, n - 1);
    }
}

} // verus!
