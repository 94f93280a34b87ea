//! Placing shards and singletons for the first time, and singletons anew.
use vstd::prelude::*;
use vstd::utf8::encode_utf8;

use crate::encode::{be_bytes, push_all, push_be};
use crate::hashing::{blake3_digest, blake3_hash};
use crate::keymap::{option_view, Key};
use crate::order::{compare_bytes, lex_less, Order};
use crate::region::EntityConfigModel;
use crate::runtime::errors::{outcome, CoordinatorRuntimeError, RuntimeErrorModel};
use crate::runtime::handoff::{ClaimLease, ClaimLeaseModel};
use crate::runtime::handoffs::{enter_handoff, entering};
use crate::runtime::members::{
    holds, MemberSession, SessionModel, SingletonConfig, SingletonModel,
};
use crate::runtime::state::{LeaderModel, CoordinatorLeader};
use crate::sessions::SessionSet;
use crate::sorted::ranked;
use crate::types::{
    compare_nodes, node_less, AssignmentGeneration, ClaimGrant, ClaimModel, ConfigFingerprint,
    EntityType, GrantSequence, NodeIncarnation, NodeKey, NodeModel, PlacementSlot,
    PlacementSlotKey, PlacementSlotState, ProtocolId, ShardId, SingletonKind, SlotKeyModel,
    SlotModel,
};

verus! {

/// What a strategy is asked to place.
#[derive(Debug, PartialEq, Eq)]
pub struct AllocationRequest<S = String> {
    pub domain: S,
    pub entity_type: S,
    pub shard_id: ShardId,
    pub required_protocol: ProtocolId,
}

/// What is to be done so that a slot is placed.
#[derive(Debug)]
pub enum AllocationStep<S = String> {
    /// It is placed.
    Settled,
    /// It is fenced and belongs to no move: its authority is installed again.
    Reinstall,
    /// A strategy is to place it.
    Allocate(AllocationRequest<S>),
}

pub type StepModel = AllocationStep<Seq<char>>;

impl View for AllocationStep {
    type V = StepModel;

    open spec fn view(&self) -> StepModel {
        match self {
            AllocationStep::Settled => AllocationStep::Settled,
            AllocationStep::Reinstall => AllocationStep::Reinstall,
            AllocationStep::Allocate(request) => AllocationStep::Allocate(
                AllocationRequest {
                    domain: request.domain@,
                    entity_type: request.entity_type@,
                    shard_id: request.shard_id,
                    required_protocol: request.required_protocol,
                },
            ),
        }
    }
}

/// Whether a slot is placed or about to be.
pub open spec fn is_placed(slot: SlotModel) -> bool {
    slot.state == PlacementSlotState::Allocating || slot.state == PlacementSlotState::Running
}

/// What is done about a slot that exists.
pub open spec fn settled(slot: SlotModel) -> Result<StepModel, RuntimeErrorModel> {
    if is_placed(slot) {
        Ok(StepModel::Settled)
    } else if slot.state == PlacementSlotState::Fenced && slot.active_move is None {
        Ok(StepModel::Reinstall)
    } else {
        Err(RuntimeErrorModel::StaleHandoff)
    }
}

pub fn settle(slot: &PlacementSlot) -> (result: Result<AllocationStep, CoordinatorRuntimeError>)
    ensures
        outcome(result) == settled(slot@),
{
    match slot.state {
        PlacementSlotState::Allocating => Ok(AllocationStep::Settled),
        PlacementSlotState::Running => Ok(AllocationStep::Settled),
        PlacementSlotState::Fenced => if slot.active_move.is_none() {
            Ok(AllocationStep::Reinstall)
        } else {
            Err(CoordinatorRuntimeError::StaleHandoff)
        },
        _ => Err(CoordinatorRuntimeError::StaleHandoff),
    }
}

impl LeaderModel {
    pub open spec fn request_for(self, config: EntityConfigModel, shard_id: ShardId) -> StepModel {
        StepModel::Allocate(
            AllocationRequest {
                domain: config.domain,
                entity_type: config.entity_type,
                shard_id,
                required_protocol: config.protocol_id,
            },
        )
    }

    /// What the leader of a domain does so that a shard is placed.
    pub open spec fn placing_shard(
        self,
        entity_type: Seq<char>,
        shard_id: ShardId,
        slot: Option<SlotModel>,
    ) -> Result<StepModel, RuntimeErrorModel> {
        let config = self.entity_configs[entity_type];
        if !self.entity_configs.contains_key(entity_type) {
            Err(RuntimeErrorModel::UnknownEntityConfig)
        } else if shard_id.0 >= config.shard_count {
            Err(RuntimeErrorModel::ShardOutOfRange)
        } else if slot is Some {
            settled(slot->0)
        } else if !self.strategies.contains_key(self.policy_of(config)) {
            Err(RuntimeErrorModel::UnknownStrategy)
        } else {
            Ok(self.request_for(config, shard_id))
        }
    }

    /// What the leader of a cluster does so that a shard is placed.
    pub open spec fn placing_cluster_shard(
        self,
        entity_type: Seq<char>,
        shard_id: ShardId,
        slot: Option<SlotModel>,
    ) -> Result<StepModel, RuntimeErrorModel> {
        let config = self.entity_configs[entity_type];
        if slot is Some {
            if is_placed(slot->0) {
                Ok(StepModel::Settled)
            } else {
                Err(RuntimeErrorModel::StaleHandoff)
            }
        } else if !self.entity_configs.contains_key(entity_type) {
            Err(RuntimeErrorModel::UnknownEntityConfig)
        } else if !self.strategies.contains_key(self.policy_of(config)) {
            Err(RuntimeErrorModel::UnknownStrategy)
        } else {
            Ok(self.request_for(config, shard_id))
        }
    }

    /// A slot that is placed for the first time.
    pub open spec fn first_slot(
        self,
        key: SlotKeyModel,
        fingerprint: Seq<u8>,
        owner: NodeModel,
    ) -> Result<SlotModel, RuntimeErrorModel> {
        match self.version.spec_next() {
            None => Err(RuntimeErrorModel::RevisionExhausted),
            Some(version) => Ok(
                SlotModel {
                    key,
                    config_fingerprint: fingerprint,
                    owner: Some(owner),
                    target: None,
                    assignment_generation: AssignmentGeneration(1),
                    version,
                    state: PlacementSlotState::Allocating,
                    active_move: None,
                    barrier_sessions: Set::empty(),
                },
            ),
        }
    }

    /// Whether a member may host a singleton.
    pub open spec fn may_host(
        self,
        session: SessionModel,
        kind: Seq<char>,
        config: SingletonModel,
        exclude: Option<NodeModel>,
    ) -> bool {
        &&& session.up()
        &&& !session.draining
        &&& exclude != Some(session.hello.node)
        &&& session.hello.singleton_eligibility.contains(kind)
        &&& session.hello.singleton_configs.contains(config)
        &&& session.speaks(config.protocol_id)
    }

    /// The latest release among the candidates of the first `n` sessions.
    pub open spec fn latest_release(
        self,
        ids: Seq<NodeIncarnation>,
        kind: Seq<char>,
        config: SingletonModel,
        exclude: Option<NodeModel>,
        n: int,
    ) -> Option<u64>
        decreases n,
    {
        if n <= 0 {
            None
        } else {
            let before = self.latest_release(ids, kind, config, exclude, n - 1);
            let session = self.sessions[ids[n - 1]];
            if !self.may_host(session, kind, config, exclude) {
                before
            } else if before is Some && before->0 >= session.record.release_id {
                before
            } else {
                Some(session.record.release_id)
            }
        }
    }

    /// The best ranked candidate of a release among the first `n` sessions.
    pub open spec fn best_candidate(
        self,
        ids: Seq<NodeIncarnation>,
        kind: Seq<char>,
        config: SingletonModel,
        exclude: Option<NodeModel>,
        release: Option<u64>,
        n: int,
    ) -> Option<NodeModel>
        decreases n,
    {
        if n <= 0 {
            None
        } else {
            let before = self.best_candidate(ids, kind, config, exclude, release, n - 1);
            let session = self.sessions[ids[n - 1]];
            if Some(session.record.release_id) != release || !self.may_host(
                session,
                kind,
                config,
                exclude,
            ) {
                before
            } else if before is Some && !ranks_before(
                kind,
                session.hello.node,
                before->0,
            ) {
                before
            } else {
                Some(session.hello.node)
            }
        }
    }

    /// The first node, in the order of nodes, among the candidates of the first `n` sessions.
    pub open spec fn first_candidate(
        self,
        ids: Seq<NodeIncarnation>,
        kind: Seq<char>,
        config: SingletonModel,
        exclude: Option<NodeModel>,
        n: int,
    ) -> Option<NodeModel>
        decreases n,
    {
        if n <= 0 {
            None
        } else {
            let before = self.first_candidate(ids, kind, config, exclude, n - 1);
            let session = self.sessions[ids[n - 1]];
            if !self.may_host(session, kind, config, exclude) {
                before
            } else if before is Some && !node_less(session.hello.node, before->0) {
                before
            } else {
                Some(session.hello.node)
            }
        }
    }

    /// Where the leader of a domain places a singleton: on the latest release, spread by rank.
    pub open spec fn singleton_target(
        self,
        kind: Seq<char>,
        config: SingletonModel,
        exclude: Option<NodeModel>,
    ) -> Option<NodeModel> {
        let ids = ranked::<NodeIncarnation>(self.sessions.dom());
        let release = self.latest_release(ids, kind, config, exclude, ids.len() as int);
        self.best_candidate(ids, kind, config, exclude, release, ids.len() as int)
    }

    /// Where the leader of a cluster places a singleton: on the first candidate.
    pub open spec fn cluster_singleton_target(
        self,
        kind: Seq<char>,
        config: SingletonModel,
        exclude: Option<NodeModel>,
    ) -> Option<NodeModel> {
        let ids = ranked::<NodeIncarnation>(self.sessions.dom());
        self.first_candidate(ids, kind, config, exclude, ids.len() as int)
    }
}

/// What the rank of a node for a singleton digests.
pub open spec fn rank_input(kind: Seq<char>, node: NodeModel) -> Seq<u8> {
    encode_utf8(kind) + seq![0u8] + encode_utf8(node.node_id) + be_bytes(
        node.incarnation.0 as nat,
        16,
    )
}

/// The rank of a node for a singleton. It depends on the two alone, so that a new leader ranks as
/// the last one did.
pub open spec fn placement_rank(kind: Seq<char>, node: NodeModel) -> Seq<u8> {
    blake3_digest(rank_input(kind, node)).subrange(0, 16)
}

/// Whether a node is ranked before another for a singleton.
pub open spec fn ranks_before(kind: Seq<char>, left: NodeModel, right: NodeModel) -> bool {
    let a = placement_rank(kind, left);
    let b = placement_rank(kind, right);
    if a != b {
        lex_less(a, b)
    } else {
        node_less(left, right)
    }
}

pub fn singleton_placement_rank(kind: &SingletonKind, node: &NodeKey) -> (rank: Vec<u8>)
    ensures
        rank@ == placement_rank(kind@, node@),
{
    let mut input: Vec<u8> = Vec::new();
    push_all(&mut input, kind.as_str().as_bytes());
    input.push(0);
    push_all(&mut input, node.node_id.as_str().as_bytes());
    push_be(&mut input, node.incarnation.get(), 16);
    assert(input@ =~= rank_input(kind@, node@));
    let digest = blake3_hash(input.as_slice());
    let mut rank: Vec<u8> = Vec::new();
    let mut i: usize = 0;
    while i < 16
        invariant
            i <= 16,
            digest@.len() == 32,
            rank@ == digest@.subrange(0, i as int),
        decreases 16 - i,
    {
        rank.push(digest[i]);
        assert(rank@ =~= digest@.subrange(0, i + 1));
        i = i + 1;
    }
    rank
}

fn is_ranked_before(kind: &SingletonKind, left: &NodeKey, right: &NodeKey) -> (before: bool)
    ensures
        before == ranks_before(kind@, left@, right@),
{
    let a = singleton_placement_rank(kind, left);
    let b = singleton_placement_rank(kind, right);
    proof {
        crate::order::lemma_lex_asymmetric(a@, b@);
        <NodeKey as crate::sorted::Ranked>::lemma_irreflexive(left@);
    }
    match compare_bytes(a.as_slice(), b.as_slice()) {
        Order::Less => true,
        Order::Greater => false,
        Order::Equal => precedes(left, right),
    }
}

fn precedes(left: &NodeKey, right: &NodeKey) -> (before: bool)
    ensures
        before == node_less(left@, right@),
{
    match compare_nodes(left, right) {
        Order::Less => true,
        Order::Equal => {
            proof {
                <NodeKey as crate::sorted::Ranked>::lemma_irreflexive(left@);
            }
            false
        },
        Order::Greater => {
            proof {
                if node_less(left@, right@) {
                    <NodeKey as crate::sorted::Ranked>::lemma_transitive(left@, right@, left@);
                }
                <NodeKey as crate::sorted::Ranked>::lemma_irreflexive(left@);
            }
            false
        },
    }
}

impl CoordinatorLeader {
    /// What the leader of a domain does so that a shard is placed.
    pub fn ensure_shard_allocated(
        &self,
        entity_type: &EntityType,
        shard_id: ShardId,
        slot: &Option<PlacementSlot>,
    ) -> (result: Result<AllocationStep, CoordinatorRuntimeError>)
        ensures
            outcome(result) == self@.placing_shard(entity_type@, shard_id, option_view(*slot)),
    {
        let config = match self.entity_configs.get(entity_type) {
            None => {
                return Err(CoordinatorRuntimeError::UnknownEntityConfig);
            },
            Some(config) => config,
        };
        if shard_id.get() >= config.shard_count() {
            return Err(CoordinatorRuntimeError::ShardOutOfRange);
        }
        match slot {
            Some(slot) => {
                return settle(slot);
            },
            None => {},
        }
        if !self.knows_policy_of(config) {
            return Err(CoordinatorRuntimeError::UnknownStrategy);
        }
        Ok(
            AllocationStep::Allocate(
                AllocationRequest {
                    domain: config.placement_domain().copy(),
                    entity_type: config.entity_type().copy(),
                    shard_id,
                    required_protocol: config.protocol_id(),
                },
            ),
        )
    }

    /// What the leader of a cluster does so that a shard is placed.
    pub fn ensure_cluster_shard_allocated(
        &self,
        entity_type: &EntityType,
        shard_id: ShardId,
        slot: &Option<PlacementSlot>,
    ) -> (result: Result<AllocationStep, CoordinatorRuntimeError>)
        ensures
            outcome(result) == self@.placing_cluster_shard(
                entity_type@,
                shard_id,
                option_view(*slot),
            ),
    {
        match slot {
            Some(slot) => {
                return match slot.state {
                    PlacementSlotState::Allocating => Ok(AllocationStep::Settled),
                    PlacementSlotState::Running => Ok(AllocationStep::Settled),
                    _ => Err(CoordinatorRuntimeError::StaleHandoff),
                };
            },
            None => {},
        }
        let config = match self.entity_configs.get(entity_type) {
            None => {
                return Err(CoordinatorRuntimeError::UnknownEntityConfig);
            },
            Some(config) => config,
        };
        if !self.knows_policy_of(config) {
            return Err(CoordinatorRuntimeError::UnknownStrategy);
        }
        Ok(
            AllocationStep::Allocate(
                AllocationRequest {
                    domain: config.placement_domain().copy(),
                    entity_type: config.entity_type().copy(),
                    shard_id,
                    required_protocol: config.protocol_id(),
                },
            ),
        )
    }

    fn first_slot(
        &self,
        key: PlacementSlotKey,
        fingerprint: ConfigFingerprint,
        owner: NodeKey,
    ) -> (result: Result<PlacementSlot, CoordinatorRuntimeError>)
        ensures
            outcome(result) == self@.first_slot(key@, fingerprint@, owner@),
    {
        match self.next_version() {
            Err(error) => Err(error),
            Ok(version) => Ok(
                PlacementSlot {
                    key,
                    config_fingerprint: fingerprint,
                    owner: Some(owner),
                    target: None,
                    assignment_generation: AssignmentGeneration(1),
                    version,
                    state: PlacementSlotState::Allocating,
                    active_move: None,
                    barrier_sessions: SessionSet::new(),
                },
            ),
        }
    }

    /// The slot of a shard that a strategy has placed.
    pub fn allocate_shard(
        &self,
        entity_type: &EntityType,
        shard_id: ShardId,
        target: NodeKey,
    ) -> (result: Result<PlacementSlot, CoordinatorRuntimeError>)
        ensures
            outcome(result) == if self@.entity_configs.contains_key(entity_type@) {
                let config = self@.entity_configs[entity_type@];
                self@.first_slot(
                    SlotKeyModel::Shard {
                        domain: config.domain,
                        entity_type: entity_type@,
                        shard_id,
                    },
                    config.fingerprint,
                    target@,
                )
            } else {
                Err(RuntimeErrorModel::UnknownEntityConfig)
            },
    {
        match self.entity_configs.get(entity_type) {
            None => Err(CoordinatorRuntimeError::UnknownEntityConfig),
            Some(config) => self.first_slot(
                PlacementSlotKey::Shard {
                    domain: config.placement_domain().copy(),
                    entity_type: entity_type.copy(),
                    shard_id,
                },
                config.fingerprint(),
                target,
            ),
        }
    }

    fn may_host(
        &self,
        session: &MemberSession,
        kind: &SingletonKind,
        config: &SingletonConfig,
        exclude: &Option<NodeKey>,
    ) -> (may: bool)
        ensures
            may == self@.may_host(session@, kind@, config@, option_view(*exclude)),
    {
        let excluded = match exclude {
            Some(node) => node.same(&session.hello.node),
            None => false,
        };
        session.placement_up() && !session.draining && !excluded
            && session.hello.singleton_eligibility.contains(kind) && holds(
            &session.hello.singleton_configs,
            config,
        ) && session.speaks(config.protocol_id)
    }

    fn latest_release(
        &self,
        kind: &SingletonKind,
        config: &SingletonConfig,
        exclude: &Option<NodeKey>,
    ) -> (release: Option<u64>)
        ensures
            ({
                let ids = ranked::<NodeIncarnation>(self@.sessions.dom());
                release == self@.latest_release(
                    ids,
                    kind@,
                    config@,
                    option_view(*exclude),
                    ids.len() as int,
                )
            }),
    {
        let len = self.sessions.len();
        let ghost ids = ranked::<NodeIncarnation>(self.sessions@.dom());
        let mut release: Option<u64> = None;
        let mut i: usize = 0;
        while i < len
            invariant
                i <= len,
                len == ids.len(),
                ids == ranked::<NodeIncarnation>(self.sessions@.dom()),
                release == self@.latest_release(ids, kind@, config@, option_view(*exclude), i as int),
            decreases len - i,
        {
            let (_, session) = self.sessions.entry_at(i);
            if self.may_host(session, kind, config, exclude) {
                let later = match release {
                    Some(current) => current < session.record.release_id,
                    None => true,
                };
                if later {
                    release = Some(session.record.release_id);
                }
            }
            i = i + 1;
        }
        release
    }

    /// Where the leader of a domain places a singleton.
    pub fn select_singleton_target(
        &self,
        kind: &SingletonKind,
        config: &SingletonConfig,
        exclude: &Option<NodeKey>,
    ) -> (result: Result<NodeKey, CoordinatorRuntimeError>)
        ensures
            outcome(result) == match self@.singleton_target(kind@, config@, option_view(*exclude)) {
                Some(node) => Ok(node),
                None => Err(RuntimeErrorModel::IneligibleTarget),
            },
    {
        let release = self.latest_release(kind, config, exclude);
        let len = self.sessions.len();
        let ghost ids = ranked::<NodeIncarnation>(self.sessions@.dom());
        let mut best: Option<NodeKey> = None;
        let mut i: usize = 0;
        while i < len
            invariant
                i <= len,
                len == ids.len(),
                ids == ranked::<NodeIncarnation>(self.sessions@.dom()),
                option_view(best) == self@.best_candidate(
                    ids,
                    kind@,
                    config@,
                    option_view(*exclude),
                    release,
                    i as int,
                ),
            decreases len - i,
        {
            let (_, session) = self.sessions.entry_at(i);
            let current = match release {
                Some(release) => release == session.record.release_id,
                None => false,
            };
            if current && self.may_host(session, kind, config, exclude) {
                let better = match &best {
                    Some(node) => is_ranked_before(kind, &session.hello.node, node),
                    None => true,
                };
                if better {
                    best = Some(session.hello.node.copy());
                }
            }
            i = i + 1;
        }
        match best {
            Some(node) => Ok(node),
            None => Err(CoordinatorRuntimeError::IneligibleTarget),
        }
    }

    /// Where the leader of a cluster places a singleton.
    pub fn select_cluster_singleton_target(
        &self,
        kind: &SingletonKind,
        config: &SingletonConfig,
        exclude: &Option<NodeKey>,
    ) -> (result: Result<NodeKey, CoordinatorRuntimeError>)
        ensures
            outcome(result) == match self@.cluster_singleton_target(
                kind@,
                config@,
                option_view(*exclude),
            ) {
                Some(node) => Ok(node),
                None => Err(RuntimeErrorModel::IneligibleTarget),
            },
    {
        let len = self.sessions.len();
        let ghost ids = ranked::<NodeIncarnation>(self.sessions@.dom());
        let mut best: Option<NodeKey> = None;
        let mut i: usize = 0;
        while i < len
            invariant
                i <= len,
                len == ids.len(),
                ids == ranked::<NodeIncarnation>(self.sessions@.dom()),
                option_view(best) == self@.first_candidate(
                    ids,
                    kind@,
                    config@,
                    option_view(*exclude),
                    i as int,
                ),
            decreases len - i,
        {
            let (_, session) = self.sessions.entry_at(i);
            if self.may_host(session, kind, config, exclude) {
                let better = match &best {
                    Some(node) => precedes(&session.hello.node, node),
                    None => true,
                };
                if better {
                    best = Some(session.hello.node.copy());
                }
            }
            i = i + 1;
        }
        match best {
            Some(node) => Ok(node),
            None => Err(CoordinatorRuntimeError::IneligibleTarget),
        }
    }
}

/// What is to be done so that a singleton is placed.
#[derive(Debug)]
pub enum SingletonStep {
    Settled,
    Reinstall,
    Allocate(PlacementSlot),
}

pub enum SingletonStepModel {
    Settled,
    Reinstall,
    Allocate(SlotModel),
}

impl View for SingletonStep {
    type V = SingletonStepModel;

    open spec fn view(&self) -> SingletonStepModel {
        match self {
            SingletonStep::Settled => SingletonStepModel::Settled,
            SingletonStep::Reinstall => SingletonStepModel::Reinstall,
            SingletonStep::Allocate(slot) => SingletonStepModel::Allocate(slot@),
        }
    }
}

/// Which of two leaders places singletons.
#[derive(Debug, Clone, Copy, PartialEq, Eq, Structural)]
pub enum SingletonPolicy {
    /// The leader of a domain: on the latest release, spread by rank.
    Ranked,
    /// The leader of a cluster: on the first candidate.
    First,
}

impl LeaderModel {
    pub open spec fn target_under(
        self,
        policy: SingletonPolicy,
        kind: Seq<char>,
        config: SingletonModel,
        exclude: Option<NodeModel>,
    ) -> Option<NodeModel> {
        match policy {
            SingletonPolicy::Ranked => self.singleton_target(kind, config, exclude),
            SingletonPolicy::First => self.cluster_singleton_target(kind, config, exclude),
        }
    }

    /// The first slot of a singleton.
    pub open spec fn first_singleton_slot(
        self,
        kind: Seq<char>,
        policy: SingletonPolicy,
    ) -> Result<SingletonStepModel, RuntimeErrorModel> {
        let config = self.singleton_configs[kind];
        match self.target_under(policy, kind, config, None) {
            None => Err(RuntimeErrorModel::IneligibleTarget),
            Some(target) => match self.first_slot(
                SlotKeyModel::Singleton { domain: config.domain, kind },
                config.config_fingerprint,
                target,
            ) {
                Ok(slot) => Ok(SingletonStepModel::Allocate(slot)),
                Err(error) => Err(error),
            },
        }
    }

    /// What the leader of a domain does so that a singleton is placed.
    pub open spec fn placing_singleton(self, kind: Seq<char>, slot: Option<SlotModel>) -> Result<
        SingletonStepModel,
        RuntimeErrorModel,
    > {
        if !self.singleton_configs.contains_key(kind) {
            Err(RuntimeErrorModel::UnknownSingletonConfig)
        } else if slot is Some {
            match settled(slot->0) {
                Ok(StepModel::Settled) => Ok(SingletonStepModel::Settled),
                Ok(_) => Ok(SingletonStepModel::Reinstall),
                Err(error) => Err(error),
            }
        } else {
            self.first_singleton_slot(kind, SingletonPolicy::Ranked)
        }
    }

    /// What the leader of a cluster does so that a singleton is placed.
    pub open spec fn placing_cluster_singleton(
        self,
        kind: Seq<char>,
        slot: Option<SlotModel>,
    ) -> Result<SingletonStepModel, RuntimeErrorModel> {
        if slot is Some {
            if is_placed(slot->0) {
                Ok(SingletonStepModel::Settled)
            } else {
                Err(RuntimeErrorModel::StaleHandoff)
            }
        } else if !self.singleton_configs.contains_key(kind) {
            Err(RuntimeErrorModel::UnknownSingletonConfig)
        } else {
            self.first_singleton_slot(kind, SingletonPolicy::First)
        }
    }

    /// What moving a singleton off a lost owner writes; nothing if it need not be moved.
    pub open spec fn singleton_recovery(
        self,
        slot: SlotModel,
        plan_id: u128,
        policy: SingletonPolicy,
    ) -> Result<Option<SlotModel>, RuntimeErrorModel> {
        match slot.key {
            SlotKeyModel::Shard { .. } => Err(RuntimeErrorModel::UnknownSlot),
            SlotKeyModel::Singleton { kind, .. } => if slot.state != PlacementSlotState::Running
                || slot.active_move is Some {
                Ok(None)
            } else if slot.owner is None {
                Err(RuntimeErrorModel::UnknownSlot)
            } else if !self.singleton_configs.contains_key(kind) {
                Err(RuntimeErrorModel::UnknownSingletonConfig)
            } else {
                match self.target_under(policy, kind, self.singleton_configs[kind], slot.owner) {
                    None => Err(RuntimeErrorModel::IneligibleTarget),
                    Some(target) => match self.version.spec_next() {
                        None => Err(RuntimeErrorModel::RevisionExhausted),
                        Some(version) => Ok(
                            Some(
                                entering(
                                    slot,
                                    target,
                                    plan_id,
                                    self.audience(slot.key),
                                    version,
                                ),
                            ),
                        ),
                    },
                }
            },
        }
    }

    /// The first claim of a slot that is placed.
    pub open spec fn first_claim(self, slot: SlotModel) -> Result<ClaimModel, RuntimeErrorModel> {
        match slot.owner {
            None => Err(RuntimeErrorModel::IneligibleTarget),
            Some(owner) => Ok(
                ClaimGrant {
                    domain: slot.key.spec_domain(),
                    slot: slot.key,
                    owner,
                    coordinator_term: self.term,
                    assignment_generation: slot.assignment_generation,
                    grant_sequence: GrantSequence(1),
                    ttl: self.config.claim_ttl,
                },
            ),
        }
    }
}

/// A recovery of a singleton, by what it states.
pub open spec fn recovery_outcome(
    result: Result<Option<PlacementSlot>, CoordinatorRuntimeError>,
) -> Result<Option<SlotModel>, RuntimeErrorModel> {
    match result {
        Ok(slot) => Ok(option_view(slot)),
        Err(error) => Err(error@),
    }
}

impl CoordinatorLeader {
    fn target_under(
        &self,
        policy: SingletonPolicy,
        kind: &SingletonKind,
        config: &SingletonConfig,
        exclude: &Option<NodeKey>,
    ) -> (result: Result<NodeKey, CoordinatorRuntimeError>)
        ensures
            outcome(result) == match self@.target_under(
                policy,
                kind@,
                config@,
                option_view(*exclude),
            ) {
                Some(node) => Ok(node),
                None => Err(RuntimeErrorModel::IneligibleTarget),
            },
    {
        match policy {
            SingletonPolicy::Ranked => self.select_singleton_target(kind, config, exclude),
            SingletonPolicy::First => self.select_cluster_singleton_target(
                kind,
                config,
                exclude,
            ),
        }
    }

    fn first_singleton_slot(
        &self,
        kind: &SingletonKind,
        config: &SingletonConfig,
        policy: SingletonPolicy,
    ) -> (result: Result<SingletonStep, CoordinatorRuntimeError>)
        requires
            self@.singleton_configs[kind@] == config@,
        ensures
            outcome(result) == self@.first_singleton_slot(kind@, policy),
    {
        let target = match self.target_under(policy, kind, config, &None) {
            Ok(target) => target,
            Err(error) => {
                return Err(error);
            },
        };
        let key = PlacementSlotKey::Singleton {
            domain: config.domain.copy(),
            kind: kind.copy(),
        };
        match self.first_slot(key, config.config_fingerprint.copy(), target) {
            Ok(slot) => Ok(SingletonStep::Allocate(slot)),
            Err(error) => Err(error),
        }
    }

    /// What the leader of a domain does so that a singleton is placed.
    pub fn ensure_singleton_allocated(
        &self,
        kind: &SingletonKind,
        slot: &Option<PlacementSlot>,
    ) -> (result: Result<SingletonStep, CoordinatorRuntimeError>)
        ensures
            outcome(result) == self@.placing_singleton(kind@, option_view(*slot)),
    {
        let config = match self.singleton_configs.get(kind) {
            None => {
                return Err(CoordinatorRuntimeError::UnknownSingletonConfig);
            },
            Some(config) => config,
        };
        match slot {
            Some(slot) => {
                return match settle(slot) {
                    Ok(AllocationStep::Settled) => Ok(SingletonStep::Settled),
                    Ok(_) => Ok(SingletonStep::Reinstall),
                    Err(error) => Err(error),
                };
            },
            None => {},
        }
        self.first_singleton_slot(kind, config, SingletonPolicy::Ranked)
    }

    /// What the leader of a cluster does so that a singleton is placed.
    pub fn ensure_cluster_singleton_allocated(
        &self,
        kind: &SingletonKind,
        slot: &Option<PlacementSlot>,
    ) -> (result: Result<SingletonStep, CoordinatorRuntimeError>)
        ensures
            outcome(result) == self@.placing_cluster_singleton(kind@, option_view(*slot)),
    {
        match slot {
            Some(slot) => {
                return match slot.state {
                    PlacementSlotState::Allocating => Ok(SingletonStep::Settled),
                    PlacementSlotState::Running => Ok(SingletonStep::Settled),
                    _ => Err(CoordinatorRuntimeError::StaleHandoff),
                };
            },
            None => {},
        }
        match self.singleton_configs.get(kind) {
            None => Err(CoordinatorRuntimeError::UnknownSingletonConfig),
            Some(config) => self.first_singleton_slot(kind, config, SingletonPolicy::First),
        }
    }

    /// What moving a singleton off a lost owner writes, under a given identity of the move.
    pub fn begin_singleton_recovery_as(
        &self,
        plan_id: u128,
        slot: &PlacementSlot,
        policy: SingletonPolicy,
    ) -> (result: Result<Option<PlacementSlot>, CoordinatorRuntimeError>)
        ensures
            recovery_outcome(result) == self@.singleton_recovery(slot@, plan_id, policy),
    {
        let kind = match &slot.key {
            PlacementSlotKey::Shard { .. } => {
                return Err(CoordinatorRuntimeError::UnknownSlot);
            },
            PlacementSlotKey::Singleton { domain: _, kind } => kind,
        };
        if slot.state != PlacementSlotState::Running || slot.active_move.is_some() {
            return Ok(None);
        }
        if slot.owner.is_none() {
            return Err(CoordinatorRuntimeError::UnknownSlot);
        }
        let config = match self.singleton_configs.get(kind) {
            None => {
                return Err(CoordinatorRuntimeError::UnknownSingletonConfig);
            },
            Some(config) => config,
        };
        let target = match self.target_under(policy, kind, config, &slot.owner) {
            Ok(target) => target,
            Err(error) => {
                return Err(error);
            },
        };
        match self.next_version() {
            Err(error) => Err(error),
            Ok(version) => {
                let sessions = self.slot_audience(&slot.key);
                Ok(Some(enter_handoff(slot, &target, plan_id, &sessions, &version)))
            },
        }
    }

    /// What moving a singleton off a lost owner writes, under a fresh identity of the move.
    pub fn begin_singleton_recovery(&self, slot: &PlacementSlot, policy: SingletonPolicy) -> (result:
        Result<Option<PlacementSlot>, CoordinatorRuntimeError>)
        ensures
            exists|plan_id: u128| #[trigger]
                self@.singleton_recovery(slot@, plan_id, policy) == recovery_outcome(result),
    {
        let plan_id = crate::hashing::fresh_id();
        self.begin_singleton_recovery_as(plan_id, slot, policy)
    }

    /// The first claim of a slot that is placed.
    pub fn persist_initial_allocation(&self, slot: &PlacementSlot) -> (result: Result<
        ClaimGrant,
        CoordinatorRuntimeError,
    >)
        ensures
            outcome(result) == self@.first_claim(slot@),
    {
        match &slot.owner {
            None => Err(CoordinatorRuntimeError::IneligibleTarget),
            Some(owner) => Ok(
                ClaimGrant {
                    domain: slot.key.domain().copy(),
                    slot: slot.key.copy(),
                    owner: owner.copy(),
                    coordinator_term: self.term,
                    assignment_generation: slot.assignment_generation,
                    grant_sequence: GrantSequence(1),
                    ttl: self.config.claim_ttl,
                },
            ),
        }
    }

    /// Whether an allocation of which the store does not know the outcome went through: the claim
    /// that is stored is the very one. All is reconciled afterwards.
    pub fn settle_unknown_allocation(
        &mut self,
        stored: &Option<ClaimLease>,
        lease_id: i64,
        grant: &ClaimGrant,
    ) -> (committed: bool)
        ensures
            final(self)@ == (LeaderModel { reconciliation_focused: true, ..old(self)@ }),
            committed == (option_view(*stored) == Some(
                ClaimLeaseModel { lease_id, grant: grant@ },
            )),
    {
        self.reconciliation_focused = true;
        match stored {
            Some(claim) => claim.lease_id == lease_id && claim.grant.same(grant),
            None => false,
        }
    }
}

} // verus!
