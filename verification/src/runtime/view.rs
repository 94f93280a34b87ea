//! The view of a placement domain that allocation strategies decide by.
use vstd::prelude::*;

use crate::keymap::{copy_seq, option_view, seq_view, Key};
use crate::plan::{lemma_filter_step, MoveProgress, PlanModel};
use crate::ranking::{SessionShard, SessionShardModel};
use crate::runtime::members::{MemberSession, SessionModel};
use crate::runtime::moves::{
    all_moves, count_handoffs, handoffs_passing, list_moves, sum_weight_toward, weight_toward,
    weights_can_be_counted, weights_fit, MoveFilter, PlannedMove, PlannedMoveModel,
};
use crate::runtime::state::{LeaderModel, CoordinatorLeader};
use crate::sorted::{ranked, SortedMap, SortedSet};
use crate::time::MonotonicTime;
use crate::types::{
    AssignmentGeneration, EntityType, NodeIncarnation, NodeKey, NodeModel, PlacementDomainId,
    PlacementSlot, PlacementSlotKey, PlacementVersion, ProtocolId, ShardId, SlotKeyModel,
    SlotModel, VersionModel,
};

verus! {

/// The load that a node last reported.
#[derive(Debug, Clone, Copy, PartialEq, Eq, Structural)]
pub struct NodeLoad {
    pub boot_incarnation: NodeIncarnation,
    pub sequence: u64,
    pub weight: u64,
}

impl View for NodeLoad {
    type V = NodeLoad;

    open spec fn view(&self) -> NodeLoad {
        *self
    }
}

/// The loads that members have reported.
pub struct LoadReadings {
    pub nodes: SortedMap<NodeIncarnation, NodeLoad>,
    pub shards: SortedMap<SessionShard, u64>,
}

#[verifier::ext_equal]
pub struct LoadModel {
    pub nodes: Map<NodeIncarnation, NodeLoad>,
    pub shards: Map<SessionShardModel, u64>,
}

impl View for LoadReadings {
    type V = LoadModel;

    open spec fn view(&self) -> LoadModel {
        LoadModel { nodes: self.nodes@, shards: self.shards@ }
    }
}

/// A load and when it came.
#[derive(Debug, Clone, Copy, PartialEq, Eq, Structural)]
pub struct LoadSample {
    pub boot_incarnation: NodeIncarnation,
    pub sequence: u64,
    pub observed_at: MonotonicTime,
    pub weight: u64,
}

/// A node that slots may be placed on.
pub struct PlacementNode {
    pub key: NodeKey,
    pub release_id: u64,
    pub ready: bool,
    pub eligible_entity_types: SortedSet<EntityType>,
    pub protocols: Vec<ProtocolId>,
    pub capacity_units: u64,
    pub joined_at: MonotonicTime,
    pub load: Option<LoadSample>,
    pub reserved_weight: u64,
    pub draining: bool,
}

#[verifier::ext_equal]
pub struct PlacementNodeModel {
    pub key: NodeModel,
    pub release_id: u64,
    pub ready: bool,
    pub eligible_entity_types: Set<Seq<char>>,
    pub protocols: Seq<ProtocolId>,
    pub capacity_units: u64,
    pub joined_at: MonotonicTime,
    pub load: Option<LoadSample>,
    pub reserved_weight: u64,
    pub draining: bool,
}

impl View for PlacementNode {
    type V = PlacementNodeModel;

    open spec fn view(&self) -> PlacementNodeModel {
        PlacementNodeModel {
            key: self.key@,
            release_id: self.release_id,
            ready: self.ready,
            eligible_entity_types: self.eligible_entity_types@,
            protocols: seq_view(self.protocols@),
            capacity_units: self.capacity_units,
            joined_at: self.joined_at,
            load: self.load,
            reserved_weight: self.reserved_weight,
            draining: self.draining,
        }
    }
}

/// A shard that is placed.
#[derive(Debug)]
pub struct PlacedShard<S = String> {
    pub domain: S,
    pub entity_type: S,
    pub shard_id: ShardId,
    pub owner: NodeKey<S>,
    pub generation: AssignmentGeneration,
    pub measured_weight: Option<u64>,
    pub assigned_at: MonotonicTime,
    pub active_move: bool,
}

pub type PlacedShardModel = PlacedShard<Seq<char>>;

impl View for PlacedShard {
    type V = PlacedShardModel;

    open spec fn view(&self) -> PlacedShardModel {
        PlacedShard {
            domain: self.domain@,
            entity_type: self.entity_type@,
            shard_id: self.shard_id,
            owner: self.owner@,
            generation: self.generation,
            measured_weight: self.measured_weight,
            assigned_at: self.assigned_at,
            active_move: self.active_move,
        }
    }
}

/// What a strategy decides by.
pub struct PlacementView {
    pub domain: PlacementDomainId,
    pub version: PlacementVersion,
    pub now: MonotonicTime,
    pub reconciled: bool,
    pub degraded: bool,
    pub nodes: Vec<PlacementNode>,
    pub shards: Vec<PlacedShard>,
    pub active_cluster_moves: usize,
    pub active_entity_moves: SortedMap<EntityType, usize>,
    pub active_source_moves: SortedMap<NodeKey, usize>,
    pub active_target_moves: SortedMap<NodeKey, usize>,
    pub last_automatic_move_at: Option<MonotonicTime>,
}

#[verifier::ext_equal]
pub struct PlacementViewModel {
    pub domain: Seq<char>,
    pub version: VersionModel,
    pub now: MonotonicTime,
    pub reconciled: bool,
    pub degraded: bool,
    pub nodes: Seq<PlacementNodeModel>,
    pub shards: Seq<PlacedShardModel>,
    pub active_cluster_moves: usize,
    pub active_entity_moves: Map<Seq<char>, usize>,
    pub active_source_moves: Map<NodeModel, usize>,
    pub active_target_moves: Map<NodeModel, usize>,
    pub last_automatic_move_at: Option<MonotonicTime>,
}

impl View for PlacementView {
    type V = PlacementViewModel;

    open spec fn view(&self) -> PlacementViewModel {
        PlacementViewModel {
            domain: self.domain@,
            version: self.version@,
            now: self.now,
            reconciled: self.reconciled,
            degraded: self.degraded,
            nodes: seq_view(self.nodes@),
            shards: seq_view(self.shards@),
            active_cluster_moves: self.active_cluster_moves,
            active_entity_moves: self.active_entity_moves@,
            active_source_moves: self.active_source_moves@,
            active_target_moves: self.active_target_moves@,
            last_automatic_move_at: self.last_automatic_move_at,
        }
    }
}

/// Picks the moves of a domain.
pub open spec fn of_domain(domain: Seq<char>) -> spec_fn(PlannedMoveModel) -> bool {
    |movement: PlannedMoveModel| movement.domain == domain
}

/// The moves of the plans of a domain.
pub open spec fn domain_moves(plans: Map<u128, PlanModel>, domain: Seq<char>) -> Seq<
    PlannedMoveModel,
> {
    all_moves(plans).filter(of_domain(domain))
}

/// Whether a move in handoff passes a filter.
pub open spec fn is_under_way(
    moves: Seq<PlannedMoveModel>,
    filter: MoveFilter<Seq<char>>,
) -> bool {
    exists|i: int|
        0 <= i < moves.len() && (#[trigger] moves[i]).progress == MoveProgress::Handoff
            && crate::runtime::moves::passes(moves[i], filter)
}

/// How many moves of each entity type are under way.
pub open spec fn moves_by_entity(moves: Seq<PlannedMoveModel>) -> Map<Seq<char>, usize> {
    Map::new(
        |entity_type: Seq<char>| is_under_way(moves, MoveFilter::OfEntity(entity_type)),
        |entity_type: Seq<char>|
            handoffs_passing(moves, MoveFilter::OfEntity(entity_type)) as usize,
    )
}

/// How many moves away from each node are under way.
pub open spec fn moves_by_source(moves: Seq<PlannedMoveModel>) -> Map<NodeModel, usize> {
    Map::new(
        |node: NodeModel| is_under_way(moves, MoveFilter::FromSource(node)),
        |node: NodeModel| handoffs_passing(moves, MoveFilter::FromSource(node)) as usize,
    )
}

/// How many moves to each node are under way.
pub open spec fn moves_by_target(moves: Seq<PlannedMoveModel>) -> Map<NodeModel, usize> {
    Map::new(
        |node: NodeModel| is_under_way(moves, MoveFilter::ToTarget(node)),
        |node: NodeModel| handoffs_passing(moves, MoveFilter::ToTarget(node)) as usize,
    )
}

impl LeaderModel {
    /// The last load of a node, with when it came.
    pub open spec fn load_of(
        self,
        node: NodeIncarnation,
        loads: LoadModel,
        now: MonotonicTime,
    ) -> Option<LoadSample> {
        if loads.nodes.contains_key(node) {
            let report = loads.nodes[node];
            Some(
                LoadSample {
                    boot_incarnation: report.boot_incarnation,
                    sequence: report.sequence,
                    observed_at: if self.node_load_received.contains_key(report.boot_incarnation) {
                        self.node_load_received[report.boot_incarnation]
                    } else {
                        now
                    },
                    weight: report.weight,
                },
            )
        } else {
            None
        }
    }

    /// A member as a strategy sees it.
    pub open spec fn node_view(
        self,
        session: SessionModel,
        moves: Seq<PlannedMoveModel>,
        loads: LoadModel,
        now: MonotonicTime,
    ) -> PlacementNodeModel {
        PlacementNodeModel {
            key: session.hello.node,
            release_id: session.record.release_id,
            ready: session.up(),
            eligible_entity_types: session.hello.hosted_entity_types,
            protocols: session.record.protocols,
            capacity_units: session.hello.capacity_units,
            joined_at: session.joined_at,
            load: self.load_of(session.hello.node.incarnation, loads, now),
            reserved_weight: weight_toward(moves, session.hello.node) as u64,
            draining: session.draining,
        }
    }

    /// The members of the first `n` sessions as a strategy sees them.
    pub open spec fn nodes_of_first(
        self,
        ids: Seq<NodeIncarnation>,
        moves: Seq<PlannedMoveModel>,
        loads: LoadModel,
        now: MonotonicTime,
        n: int,
    ) -> Seq<PlacementNodeModel>
        decreases n,
    {
        if n <= 0 {
            Seq::empty()
        } else {
            let before = self.nodes_of_first(ids, moves, loads, now, n - 1);
            let session = self.sessions[ids[n - 1]];
            if session.attached() {
                before.push(self.node_view(session, moves, loads, now))
            } else {
                before
            }
        }
    }

    /// The shards of the first `n` of some slots that are placed in a domain.
    pub open spec fn placed_of_first(
        self,
        domain: Seq<char>,
        slots: Seq<SlotModel>,
        loads: LoadModel,
        now: MonotonicTime,
        n: int,
    ) -> Seq<PlacedShardModel>
        decreases n,
    {
        if n <= 0 {
            Seq::empty()
        } else {
            let before = self.placed_of_first(domain, slots, loads, now, n - 1);
            let slot = slots[n - 1];
            match (slot.key, slot.owner) {
                (
                    SlotKeyModel::Shard { domain: place, entity_type, shard_id },
                    Some(owner),
                ) => if place == domain {
                    before.push(self.placed_shard(slot, entity_type, shard_id, owner, loads, now))
                } else {
                    before
                },
                _ => before,
            }
        }
    }

    pub open spec fn placed_shard(
        self,
        slot: SlotModel,
        entity_type: Seq<char>,
        shard_id: ShardId,
        owner: NodeModel,
        loads: LoadModel,
        now: MonotonicTime,
    ) -> PlacedShardModel {
        let report = SessionShard { session: owner.incarnation, entity_type, shard_id };
        PlacedShard {
            domain: slot.key.spec_domain(),
            entity_type,
            shard_id,
            owner,
            generation: slot.assignment_generation,
            measured_weight: if loads.shards.contains_key(report) {
                Some(loads.shards[report])
            } else {
                None
            },
            assigned_at: if self.slot_assigned_at.contains_key(slot.key) {
                self.slot_assigned_at[slot.key]
            } else {
                now
            },
            active_move: slot.active_move is Some,
        }
    }

    /// The view of a domain.
    pub open spec fn viewed(
        self,
        domain: Seq<char>,
        slots: Seq<SlotModel>,
        loads: LoadModel,
        now: MonotonicTime,
    ) -> PlacementViewModel {
        let moves = domain_moves(self.plans, domain);
        let ids = ranked::<NodeIncarnation>(self.sessions.dom());
        PlacementViewModel {
            domain,
            version: self.version,
            now,
            reconciled: self.reconciled,
            degraded: self.reconciliation.is_degraded(),
            nodes: self.nodes_of_first(ids, moves, loads, now, ids.len() as int),
            shards: self.placed_of_first(domain, slots, loads, now, slots.len() as int),
            active_cluster_moves: handoffs_passing(moves, MoveFilter::Any) as usize,
            active_entity_moves: moves_by_entity(moves),
            active_source_moves: moves_by_source(moves),
            active_target_moves: moves_by_target(moves),
            last_automatic_move_at: self.last_automatic_move_at,
        }
    }

    /// The shards of the first `n` of some slots that are placed, in whatever domain.
    pub open spec fn placed_anywhere(
        self,
        slots: Seq<SlotModel>,
        loads: LoadModel,
        now: MonotonicTime,
        n: int,
    ) -> Seq<PlacedShardModel>
        decreases n,
    {
        if n <= 0 {
            Seq::empty()
        } else {
            let before = self.placed_anywhere(slots, loads, now, n - 1);
            let slot = slots[n - 1];
            match (slot.key, slot.owner) {
                (SlotKeyModel::Shard { domain, entity_type, shard_id }, Some(owner)) => before.push(
                    self.placed_shard(slot, entity_type, shard_id, owner, loads, now),
                ),
                _ => before,
            }
        }
    }

    /// The view of a cluster: every member that is connected is ready, every plan and every slot
    /// counts, and nothing waits to be reconciled.
    pub open spec fn viewed_cluster(
        self,
        slots: Seq<SlotModel>,
        loads: LoadModel,
        now: MonotonicTime,
    ) -> PlacementViewModel {
        let moves = all_moves(self.plans);
        PlacementViewModel {
            domain: self.version.domain,
            version: self.version,
            now,
            reconciled: true,
            degraded: false,
            nodes: ranked::<NodeIncarnation>(self.sessions.dom()).map_values(
                |id: NodeIncarnation|
                    PlacementNodeModel {
                        ready: true,
                        ..self.node_view(self.sessions[id], moves, loads, now)
                    },
            ),
            shards: self.placed_anywhere(slots, loads, now, slots.len() as int),
            active_cluster_moves: handoffs_passing(moves, MoveFilter::Any) as usize,
            active_entity_moves: moves_by_entity(moves),
            active_source_moves: moves_by_source(moves),
            active_target_moves: moves_by_target(moves),
            last_automatic_move_at: self.last_automatic_move_at,
        }
    }
}

fn moves_in_domain(moves: Vec<PlannedMove>, domain: &PlacementDomainId) -> (kept: Vec<PlannedMove>)
    ensures
        seq_view(kept@) == seq_view(moves@).filter(of_domain(domain@)),
{
    let ghost all = seq_view(moves@);
    let ghost here = of_domain(domain@);
    let mut kept: Vec<PlannedMove> = Vec::new();
    let mut i: usize = 0;
    assert(all.subrange(0, 0).filter(here) =~= Seq::<PlannedMoveModel>::empty()) by {
        reveal(Seq::filter);
    }
    assert(seq_view(kept@) =~= Seq::<PlannedMoveModel>::empty());
    while i < moves.len()
        invariant
            i <= moves.len(),
            all == seq_view(moves@),
            here == of_domain(domain@),
            seq_view(kept@) == all.subrange(0, i as int).filter(here),
        decreases moves.len() - i,
    {
        let movement = &moves[i];
        proof {
            assert(all[i as int] == movement@);
            lemma_filter_step(all, here, i as int);
        }
        if movement.domain.same(domain) {
            let ghost before = seq_view(kept@);
            let copy = PlannedMove {
                domain: movement.domain.copy(),
                entity_type: movement.entity_type.copy(),
                source: movement.source.copy(),
                target: movement.target.copy(),
                weight: movement.weight,
                progress: movement.progress,
            };
            kept.push(copy);
            assert(seq_view(kept@) =~= before.push(copy@));
        }
        i = i + 1;
    }
    assert(all.subrange(0, i as int) =~= all);
    kept
}

fn count_by_entity(moves: &Vec<PlannedMove>) -> (counts: SortedMap<EntityType, usize>)
    ensures
        counts@ == moves_by_entity(seq_view(moves@)),
{
    let ghost all = seq_view(moves@);
    let mut counts: SortedMap<EntityType, usize> = SortedMap::new();
    let mut i: usize = 0;
    while i < moves.len()
        invariant
            i <= moves.len(),
            all == seq_view(moves@),
            forall|e: Seq<char>| #[trigger]
                counts@.contains_key(e) <==> is_under_way(
                    all.subrange(0, i as int),
                    MoveFilter::OfEntity(e),
                ),
            forall|e: Seq<char>| #[trigger]
                counts@.contains_key(e) ==> counts@[e] == handoffs_passing(
                    all,
                    MoveFilter::OfEntity(e),
                ),
        decreases moves.len() - i,
    {
        let movement = &moves[i];
        assert(all[i as int] == movement@);
        let ghost before = counts@;
        if movement.progress == MoveProgress::Handoff {
            let count = count_handoffs(moves, &MoveFilter::OfEntity(movement.entity_type.copy()));
            counts.insert(movement.entity_type.copy(), count);
        }
        proof {
            assert forall|e: Seq<char>| #[trigger] counts@.contains_key(e) <==> is_under_way(
                all.subrange(0, i + 1),
                MoveFilter::OfEntity(e),
            ) by {
                lemma_under_way_step(all, i as int, MoveFilter::OfEntity(e));
                assert(before.contains_key(e) <==> is_under_way(
                    all.subrange(0, i as int),
                    MoveFilter::OfEntity(e),
                ));
            }
        }
        i = i + 1;
    }
    assert(all.subrange(0, i as int) =~= all);
    assert(counts@ =~= moves_by_entity(all));
    counts
}

fn count_by_source(moves: &Vec<PlannedMove>) -> (counts: SortedMap<NodeKey, usize>)
    ensures
        counts@ == moves_by_source(seq_view(moves@)),
{
    let ghost all = seq_view(moves@);
    let mut counts: SortedMap<NodeKey, usize> = SortedMap::new();
    let mut i: usize = 0;
    while i < moves.len()
        invariant
            i <= moves.len(),
            all == seq_view(moves@),
            forall|e: NodeModel| #[trigger]
                counts@.contains_key(e) <==> is_under_way(
                    all.subrange(0, i as int),
                    MoveFilter::FromSource(e),
                ),
            forall|e: NodeModel| #[trigger]
                counts@.contains_key(e) ==> counts@[e] == handoffs_passing(
                    all,
                    MoveFilter::FromSource(e),
                ),
        decreases moves.len() - i,
    {
        let movement = &moves[i];
        assert(all[i as int] == movement@);
        let ghost before = counts@;
        if movement.progress == MoveProgress::Handoff {
            let count = count_handoffs(moves, &MoveFilter::FromSource(movement.source.copy()));
            counts.insert(movement.source.copy(), count);
        }
        proof {
            assert forall|e: NodeModel| #[trigger] counts@.contains_key(e) <==> is_under_way(
                all.subrange(0, i + 1),
                MoveFilter::FromSource(e),
            ) by {
                lemma_under_way_step(all, i as int, MoveFilter::FromSource(e));
                assert(before.contains_key(e) <==> is_under_way(
                    all.subrange(0, i as int),
                    MoveFilter::FromSource(e),
                ));
            }
        }
        i = i + 1;
    }
    assert(all.subrange(0, i as int) =~= all);
    assert(counts@ =~= moves_by_source(all));
    counts
}

fn count_by_target(moves: &Vec<PlannedMove>) -> (counts: SortedMap<NodeKey, usize>)
    ensures
        counts@ == moves_by_target(seq_view(moves@)),
{
    let ghost all = seq_view(moves@);
    let mut counts: SortedMap<NodeKey, usize> = SortedMap::new();
    let mut i: usize = 0;
    while i < moves.len()
        invariant
            i <= moves.len(),
            all == seq_view(moves@),
            forall|e: NodeModel| #[trigger]
                counts@.contains_key(e) <==> is_under_way(
                    all.subrange(0, i as int),
                    MoveFilter::ToTarget(e),
                ),
            forall|e: NodeModel| #[trigger]
                counts@.contains_key(e) ==> counts@[e] == handoffs_passing(
                    all,
                    MoveFilter::ToTarget(e),
                ),
        decreases moves.len() - i,
    {
        let movement = &moves[i];
        assert(all[i as int] == movement@);
        let ghost before = counts@;
        if movement.progress == MoveProgress::Handoff {
            let count = count_handoffs(moves, &MoveFilter::ToTarget(movement.target.copy()));
            counts.insert(movement.target.copy(), count);
        }
        proof {
            assert forall|e: NodeModel| #[trigger] counts@.contains_key(e) <==> is_under_way(
                all.subrange(0, i + 1),
                MoveFilter::ToTarget(e),
            ) by {
                lemma_under_way_step(all, i as int, MoveFilter::ToTarget(e));
                assert(before.contains_key(e) <==> is_under_way(
                    all.subrange(0, i as int),
                    MoveFilter::ToTarget(e),
                ));
            }
        }
        i = i + 1;
    }
    assert(all.subrange(0, i as int) =~= all);
    assert(counts@ =~= moves_by_target(all));
    counts
}

proof fn lemma_under_way_step(
    moves: Seq<PlannedMoveModel>,
    at: int,
    filter: MoveFilter<Seq<char>>,
)
    requires
        0 <= at < moves.len(),
    ensures
        is_under_way(moves.subrange(0, at + 1), filter) <==> is_under_way(
            moves.subrange(0, at),
            filter,
        ) || (moves[at].progress == MoveProgress::Handoff && crate::runtime::moves::passes(
            moves[at],
            filter,
        )),
{
    let shorter = moves.subrange(0, at);
    let longer = moves.subrange(0, at + 1);
    assert(longer[at] == moves[at]);
    if is_under_way(shorter, filter) {
        let i = choose|i: int|
            0 <= i < shorter.len() && (#[trigger] shorter[i]).progress == MoveProgress::Handoff
                && crate::runtime::moves::passes(shorter[i], filter);
        assert(longer[i] == shorter[i]);
    }
    if is_under_way(longer, filter) {
        let i = choose|i: int|
            0 <= i < longer.len() && (#[trigger] longer[i]).progress == MoveProgress::Handoff
                && crate::runtime::moves::passes(longer[i], filter);
        if i < at {
            assert(shorter[i] == longer[i]);
        }
    }
}

impl CoordinatorLeader {
    fn load_of(
        &self,
        node: NodeIncarnation,
        loads: &LoadReadings,
        now: MonotonicTime,
    ) -> (load: Option<LoadSample>)
        ensures
            load == self@.load_of(node, loads@, now),
    {
        match loads.nodes.get(&node) {
            Some(report) => {
                let observed_at = match self.node_load_received.get(&report.boot_incarnation) {
                    Some(at) => *at,
                    None => now,
                };
                Some(
                    LoadSample {
                        boot_incarnation: report.boot_incarnation,
                        sequence: report.sequence,
                        observed_at,
                        weight: report.weight,
                    },
                )
            },
            None => None,
        }
    }

    fn node_view(
        &self,
        session: &MemberSession,
        moves: &Vec<PlannedMove>,
        loads: &LoadReadings,
        now: MonotonicTime,
    ) -> (node: PlacementNode)
        requires
            weights_fit(seq_view(moves@)),
        ensures
            node@ == self@.node_view(session@, seq_view(moves@), loads@, now),
    {
        PlacementNode {
            key: session.hello.node.copy(),
            release_id: session.record.release_id,
            ready: session.placement_up(),
            eligible_entity_types: session.hello.hosted_entity_types.copy(),
            protocols: copy_seq(&session.record.protocols),
            capacity_units: session.hello.capacity_units,
            joined_at: session.joined_at,
            load: self.load_of(session.hello.node.incarnation, loads, now),
            reserved_weight: sum_weight_toward(moves, &session.hello.node),
            draining: session.draining,
        }
    }

    fn placed_shard(
        &self,
        domain: &PlacementDomainId,
        slot: &PlacementSlot,
        loads: &LoadReadings,
        now: MonotonicTime,
    ) -> (placed: Option<PlacedShard>)
        ensures
            option_view(placed) == match (slot@.key, slot@.owner) {
                (
                    SlotKeyModel::Shard { domain: place, entity_type, shard_id },
                    Some(owner),
                ) => if place == domain@ {
                    Some(self@.placed_shard(slot@, entity_type, shard_id, owner, loads@, now))
                } else {
                    None
                },
                _ => None,
            },
    {
        match (&slot.key, &slot.owner) {
            (PlacementSlotKey::Shard { domain: place, entity_type, shard_id }, Some(owner)) => {
                if !place.same(domain) {
                    return None;
                }
                let report = SessionShard {
                    session: owner.incarnation,
                    entity_type: entity_type.copy(),
                    shard_id: *shard_id,
                };
                let measured_weight = match loads.shards.get(&report) {
                    Some(weight) => Some(*weight),
                    None => None,
                };
                let assigned_at = match self.slot_assigned_at.get(&slot.key) {
                    Some(at) => *at,
                    None => now,
                };
                Some(
                    PlacedShard {
                        domain: place.copy(),
                        entity_type: entity_type.copy(),
                        shard_id: *shard_id,
                        owner: owner.copy(),
                        generation: slot.assignment_generation,
                        measured_weight,
                        assigned_at,
                        active_move: slot.active_move.is_some(),
                    },
                )
            },
            _ => None,
        }
    }

    /// Whether the weight that moves of a domain bring to each node can be counted.
    pub fn domain_weights_fit(&self, domain: &PlacementDomainId) -> (fit: bool)
        ensures
            fit == weights_fit(domain_moves(self@.plans, domain@)),
    {
        weights_can_be_counted(&moves_in_domain(list_moves(&self.plans), domain))
    }

    /// The view of a domain, given its slots and the loads that were reported.
    pub fn placement_view(
        &self,
        domain: &PlacementDomainId,
        slots: &Vec<PlacementSlot>,
        loads: &LoadReadings,
        now: MonotonicTime,
    ) -> (view: PlacementView)
        requires
            weights_fit(domain_moves(self@.plans, domain@)),
        ensures
            view@ == self@.viewed(domain@, seq_view(slots@), loads@, now),
    {
        let moves = moves_in_domain(list_moves(&self.plans), domain);
        let ghost flat = seq_view(moves@);
        assert(flat == domain_moves(self@.plans, domain@));
        let len = self.sessions.len();
        let ghost ids = ranked::<NodeIncarnation>(self.sessions@.dom());
        let mut nodes: Vec<PlacementNode> = Vec::new();
        let mut i: usize = 0;
        assert(seq_view(nodes@) =~= Seq::<PlacementNodeModel>::empty());
        while i < len
            invariant
                i <= len,
                len == ids.len(),
                ids == ranked::<NodeIncarnation>(self.sessions@.dom()),
                flat == seq_view(moves@),
                weights_fit(flat),
                seq_view(nodes@) == self@.nodes_of_first(ids, flat, loads@, now, i as int),
            decreases len - i,
        {
            let (_, session) = self.sessions.entry_at(i);
            if session.placement_attached() {
                let ghost before = seq_view(nodes@);
                let node = self.node_view(session, &moves, loads, now);
                nodes.push(node);
                assert(seq_view(nodes@) =~= before.push(node@));
            }
            i = i + 1;
        }
        let mut shards: Vec<PlacedShard> = Vec::new();
        let mut k: usize = 0;
        let ghost given = seq_view(slots@);
        assert(seq_view(shards@) =~= Seq::<PlacedShardModel>::empty());
        while k < slots.len()
            invariant
                k <= slots.len(),
                given == seq_view(slots@),
                seq_view(shards@) == self@.placed_of_first(
                    domain@,
                    given,
                    loads@,
                    now,
                    k as int,
                ),
            decreases slots.len() - k,
        {
            assert(given[k as int] == slots@[k as int]@);
            match self.placed_shard(domain, &slots[k], loads, now) {
                Some(placed) => {
                    let ghost before = seq_view(shards@);
                    shards.push(placed);
                    assert(seq_view(shards@) =~= before.push(placed@));
                },
                None => {},
            }
            k = k + 1;
        }
        PlacementView {
            domain: domain.copy(),
            version: self.version.copy(),
            now,
            reconciled: self.reconciled,
            degraded: self.reconciliation.is_degraded(),
            nodes,
            shards,
            active_cluster_moves: count_handoffs(&moves, &MoveFilter::Any),
            active_entity_moves: count_by_entity(&moves),
            active_source_moves: count_by_source(&moves),
            active_target_moves: count_by_target(&moves),
            last_automatic_move_at: self.last_automatic_move_at,
        }
    }

    /// The members of a cluster as a strategy sees them.
    fn cluster_nodes(&self, moves: &Vec<PlannedMove>, loads: &LoadReadings, now: MonotonicTime) -> (nodes:
        Vec<PlacementNode>)
        requires
            weights_fit(seq_view(moves@)),
        ensures
            seq_view(nodes@) == ranked::<NodeIncarnation>(self@.sessions.dom()).map_values(
                |id: NodeIncarnation|
                    (PlacementNodeModel {
                        ready: true,
                        ..self@.node_view(self@.sessions[id], seq_view(moves@), loads@, now)
                    }),
            ),
    {
        let len: usize = self.sessions.len();
        let ghost ids = ranked::<NodeIncarnation>(self.sessions@.dom());
        let ghost flat = seq_view(moves@);
        let mut nodes: Vec<PlacementNode> = Vec::new();
        let mut i: usize = 0;
        while i < len
            invariant
                i <= len,
                len == ids.len(),
                ids == ranked::<NodeIncarnation>(self.sessions@.dom()),
                flat == seq_view(moves@),
                weights_fit(flat),
                nodes.len() == i,
                forall|j: int|
                    0 <= j < i ==> (#[trigger] nodes@[j])@ == (PlacementNodeModel {
                        ready: true,
                        ..self@.node_view(self@.sessions[ids[j]], flat, loads@, now)
                    }),
            decreases len - i,
        {
            let (_, session) = self.sessions.entry_at(i);
            let mut node = self.node_view(session, moves, loads, now);
            node.ready = true;
            nodes.push(node);
            i = i + 1;
        }
        assert(seq_view(nodes@) =~= ids.map_values(
            |id: NodeIncarnation|
                (PlacementNodeModel {
                    ready: true,
                    ..self@.node_view(self@.sessions[id], flat, loads@, now)
                }),
        ));
        nodes
    }

    /// The view of a cluster, given its slots and the loads that were reported.
    pub fn cluster_placement_view(
        &self,
        slots: &Vec<PlacementSlot>,
        loads: &LoadReadings,
        now: MonotonicTime,
    ) -> (view: PlacementView)
        requires
            weights_fit(all_moves(self@.plans)),
        ensures
            view@ == self@.viewed_cluster(seq_view(slots@), loads@, now),
    {
        let moves = list_moves(&self.plans);
        let mut shards: Vec<PlacedShard> = Vec::new();
        let mut k: usize = 0;
        let ghost given = seq_view(slots@);
        assert(seq_view(shards@) =~= Seq::<PlacedShardModel>::empty());
        while k < slots.len()
            invariant
                k <= slots.len(),
                given == seq_view(slots@),
                seq_view(shards@) == self@.placed_anywhere(given, loads@, now, k as int),
            decreases slots.len() - k,
        {
            let slot = &slots[k];
            assert(given[k as int] == slot@);
            match self.placed_shard(slot.key.domain(), slot, loads, now) {
                Some(placed) => {
                    let ghost before = seq_view(shards@);
                    shards.push(placed);
                    assert(seq_view(shards@) =~= before.push(placed@));
                },
                None => {},
            }
            k = k + 1;
        }
        PlacementView {
            domain: self.version.domain.copy(),
            version: self.version.copy(),
            now,
            reconciled: true,
            degraded: false,
            nodes: self.cluster_nodes(&moves, loads, now),
            shards,
            active_cluster_moves: count_handoffs(&moves, &MoveFilter::Any),
            active_entity_moves: count_by_entity(&moves),
            active_source_moves: count_by_source(&moves),
            active_target_moves: count_by_target(&moves),
            last_automatic_move_at: self.last_automatic_move_at,
        }
    }
}

} // verus!
