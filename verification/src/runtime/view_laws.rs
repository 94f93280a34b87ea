//! What allocation strategies are shown: which members, which shards, and what is on its way.
use vstd::prelude::*;

use crate::plan::{MoveModel, MoveProgress, PlanModel};
use crate::ranking::SessionShard;
use crate::runtime::members::SessionModel;
use crate::runtime::moves::{
    all_moves, handoffs_passing, moves_of, moves_of_first, passes, planned_move, weight_toward,
    MoveFilter, PlannedMoveModel,
};
use crate::runtime::planning_laws::{
    brought_to, lemma_handoffs_add_up, lemma_handoffs_of_plan, lemma_weight_of_plan,
    lemma_weights_add_up, one_for, tally, tally_of, total,
};
use crate::runtime::registration_laws::is_part;
use crate::runtime::state::LeaderModel;
use crate::runtime::view::{
    domain_moves, is_under_way, moves_by_entity, moves_by_source, moves_by_target, of_domain,
    LoadModel, PlacedShardModel, PlacementNodeModel,
};
use crate::sorted::{lemma_ranked_lists, ranked};
use crate::time::MonotonicTime;
use crate::types::{NodeIncarnation, NodeModel, ShardId, SlotKeyModel, SlotModel};

verus! {

/// What counts for the moves of the plans of one domain, or of every domain where none is named.
pub open spec fn within(
    domain: Option<Seq<char>>,
    each: spec_fn(PlanModel, MoveModel) -> nat,
) -> spec_fn(PlanModel, MoveModel) -> nat {
    |plan: PlanModel, movement: MoveModel|
        if domain is None || plan.domain == domain->0 {
            each(plan, movement)
        } else {
            0
        }
}

/// The moves of the plans of one domain, or of every domain where none is named.
pub open spec fn moves_in(
    plans: Map<u128, PlanModel>,
    domain: Option<Seq<char>>,
) -> Seq<PlannedMoveModel> {
    match domain {
        Some(name) => domain_moves(plans, name),
        None => all_moves(plans),
    }
}

pub open spec fn is_in(domain: Option<Seq<char>>) -> spec_fn(PlannedMoveModel) -> bool {
    |movement: PlannedMoveModel| domain is None || movement.domain == domain->0
}

proof fn lemma_within(
    plan: PlanModel,
    domain: Option<Seq<char>>,
    each: spec_fn(PlanModel, MoveModel) -> nat,
    n: int,
)
    requires
        0 <= n <= plan.moves.len(),
    ensures
        tally_of(plan, within(domain, each), n) == if domain is None || plan.domain == domain->0 {
            tally_of(plan, each, n)
        } else {
            0
        },
    decreases n,
{
    if n > 0 {
        lemma_within(plan, domain, each, n - 1);
    }
}

proof fn lemma_moves_of_domain(plan: PlanModel, domain: Option<Seq<char>>, n: int)
    requires
        0 <= n <= plan.moves.len(),
    ensures
        moves_of(plan).subrange(0, n).filter(is_in(domain)) == if domain is None || plan.domain
            == domain->0 {
            moves_of(plan).subrange(0, n)
        } else {
            Seq::empty()
        },
    decreases n,
{
    reveal(Seq::filter);
    let moves = moves_of(plan).subrange(0, n);
    if n > 0 {
        lemma_moves_of_domain(plan, domain, n - 1);
        assert(moves.drop_last() =~= moves_of(plan).subrange(0, n - 1));
        assert(moves.last() == planned_move(plan, plan.moves[n - 1]));
        assert(moves =~= moves.drop_last().push(moves.last()));
    } else {
        assert(moves =~= Seq::<PlannedMoveModel>::empty());
    }
}

proof fn lemma_counts_in_domain(
    plans: Map<u128, PlanModel>,
    ids: Seq<u128>,
    domain: Option<Seq<char>>,
    node: NodeModel,
    filter: MoveFilter<Seq<char>>,
    picked: spec_fn(PlanModel, MoveModel) -> bool,
    n: int,
)
    requires
        0 <= n <= ids.len(),
        forall|plan: PlanModel, movement: MoveModel|
            passes(#[trigger] planned_move(plan, movement), filter) == picked(plan, movement),
    ensures
        weight_toward(moves_of_first(plans, ids, n).filter(is_in(domain)), node) == tally(
            plans,
            ids,
            within(domain, brought_to(node)),
            n,
        ),
        handoffs_passing(moves_of_first(plans, ids, n).filter(is_in(domain)), filter) == tally(
            plans,
            ids,
            within(domain, one_for(picked)),
            n,
        ),
    decreases n,
{
    reveal(Seq::filter);
    if n > 0 {
        lemma_counts_in_domain(plans, ids, domain, node, filter, picked, n - 1);
        let plan = plans[ids[n - 1]];
        let count = plan.moves.len() as int;
        let front = moves_of_first(plans, ids, n - 1);
        Seq::filter_distributes_over_add(front, moves_of(plan), is_in(domain));
        assert(moves_of(plan).subrange(0, count) =~= moves_of(plan));
        lemma_moves_of_domain(plan, domain, count);
        lemma_weights_add_up(
            front.filter(is_in(domain)),
            moves_of(plan).filter(is_in(domain)),
            node,
        );
        lemma_handoffs_add_up(
            front.filter(is_in(domain)),
            moves_of(plan).filter(is_in(domain)),
            filter,
        );
        lemma_weight_of_plan(plan, node, count);
        lemma_handoffs_of_plan(plan, filter, picked, count);
        lemma_within(plan, domain, brought_to(node), count);
        lemma_within(plan, domain, one_for(picked), count);
    }
}

proof fn lemma_all_in(moves: Seq<PlannedMoveModel>)
    ensures
        moves.filter(is_in(None)) == moves,
    decreases moves.len(),
{
    reveal(Seq::filter);
    if moves.len() > 0 {
        lemma_all_in(moves.drop_last());
        assert(moves =~= moves.drop_last().push(moves.last()));
    } else {
        assert(moves.filter(is_in(None)) =~= moves);
    }
}

proof fn lemma_domain_moves(plans: Map<u128, PlanModel>, domain: Seq<char>)
    ensures
        domain_moves(plans, domain) == all_moves(plans).filter(is_in(Some(domain))),
{
    assert(of_domain(domain) =~= is_in(Some(domain)));
}

proof fn lemma_moves_in(plans: Map<u128, PlanModel>, domain: Option<Seq<char>>)
    ensures
        moves_in(plans, domain) == all_moves(plans).filter(is_in(domain)),
{
    match domain {
        Some(name) => {
            lemma_domain_moves(plans, name);
        },
        None => {
            lemma_all_in(all_moves(plans));
        },
    }
}

proof fn lemma_under_way(moves: Seq<PlannedMoveModel>, filter: MoveFilter<Seq<char>>)
    ensures
        is_under_way(moves, filter) <==> handoffs_passing(moves, filter) > 0,
    decreases moves.len(),
{
    if moves.len() > 0 {
        lemma_under_way(moves.drop_last(), filter);
        if is_under_way(moves.drop_last(), filter) {
            let i = choose|i: int|
                0 <= i < moves.drop_last().len() && (#[trigger] moves.drop_last()[i]).progress
                    == MoveProgress::Handoff && passes(moves.drop_last()[i], filter);
            assert(moves[i] == moves.drop_last()[i]);
        }
        if is_under_way(moves, filter) {
            let i = choose|i: int|
                0 <= i < moves.len() && (#[trigger] moves[i]).progress == MoveProgress::Handoff
                    && passes(moves[i], filter);
            if i < moves.len() - 1 {
                assert(moves.drop_last()[i] == moves[i]);
            } else {
                assert(moves.last() == moves[i]);
            }
        }
        if moves.last().progress == MoveProgress::Handoff && passes(moves.last(), filter) {
            assert(moves[moves.len() - 1] == moves.last());
        }
    }
}

/// How many moves of the plans of a domain are in handoff: all of them, those of an entity type, those
/// away from a node and those toward it. Only what has some is counted.
pub proof fn law_moves_under_way_are_counted(
    plans: Map<u128, PlanModel>,
    domain: Option<Seq<char>>,
    entity_type: Seq<char>,
    node: NodeModel,
)
    ensures
        ({
            let moves = moves_in(plans, domain);
            let count = |picked: spec_fn(PlanModel, MoveModel) -> bool|
                total(plans, within(domain, one_for(picked)));
            let of_type = count(|p: PlanModel, m: MoveModel| p.entity_type == entity_type);
            let away = count(|p: PlanModel, m: MoveModel| m.source == node);
            let toward = count(|p: PlanModel, m: MoveModel| m.target == node);
            &&& handoffs_passing(moves, MoveFilter::Any) == count(
                |p: PlanModel, m: MoveModel| true,
            )
            &&& moves_by_entity(moves).contains_key(entity_type) <==> of_type > 0
            &&& of_type > 0 ==> moves_by_entity(moves)[entity_type] == of_type as usize
            &&& moves_by_source(moves).contains_key(node) <==> away > 0
            &&& away > 0 ==> moves_by_source(moves)[node] == away as usize
            &&& moves_by_target(moves).contains_key(node) <==> toward > 0
            &&& toward > 0 ==> moves_by_target(moves)[node] == toward as usize
            &&& weight_toward(moves, node) == total(plans, within(domain, brought_to(node)))
        }),
{
    let ids = ranked::<u128>(plans.dom());
    let n = ids.len() as int;
    let moves = moves_in(plans, domain);
    lemma_moves_in(plans, domain);
    lemma_counts_in_domain(
        plans,
        ids,
        domain,
        node,
        MoveFilter::Any,
        |p: PlanModel, m: MoveModel| true,
        n,
    );
    lemma_counts_in_domain(
        plans,
        ids,
        domain,
        node,
        MoveFilter::OfEntity(entity_type),
        |p: PlanModel, m: MoveModel| p.entity_type == entity_type,
        n,
    );
    lemma_counts_in_domain(
        plans,
        ids,
        domain,
        node,
        MoveFilter::FromSource(node),
        |p: PlanModel, m: MoveModel| m.source == node,
        n,
    );
    lemma_counts_in_domain(
        plans,
        ids,
        domain,
        node,
        MoveFilter::ToTarget(node),
        |p: PlanModel, m: MoveModel| m.target == node,
        n,
    );
    lemma_under_way(moves, MoveFilter::OfEntity(entity_type));
    lemma_under_way(moves, MoveFilter::FromSource(node));
    lemma_under_way(moves, MoveFilter::ToTarget(node));
}

/// Whether a node is shown as a member declares itself and is known: with its release, its protocols,
/// its capacity, its last load and what is on its way to it.
pub open spec fn shows_member(
    leader: LeaderModel,
    domain: Option<Seq<char>>,
    session: SessionModel,
    loads: LoadModel,
    now: MonotonicTime,
    node: PlacementNodeModel,
) -> bool {
    let id = session.hello.node.incarnation;
    let reserved = total(leader.plans, within(domain, brought_to(session.hello.node)));
    &&& node.key == session.hello.node
    &&& node.release_id == session.record.release_id
    &&& node.eligible_entity_types == session.hello.hosted_entity_types
    &&& node.protocols == session.record.protocols
    &&& node.capacity_units == session.hello.capacity_units
    &&& node.joined_at == session.joined_at
    &&& node.draining == session.draining
    &&& reserved <= u64::MAX ==> node.reserved_weight == reserved
    &&& node.load is Some <==> loads.nodes.contains_key(id)
    &&& node.load is Some ==> {
        let report = loads.nodes[id];
        let received = leader.node_load_received;
        &&& node.load->0.boot_incarnation == report.boot_incarnation
        &&& node.load->0.sequence == report.sequence
        &&& node.load->0.weight == report.weight
        &&& node.load->0.observed_at == if received.contains_key(report.boot_incarnation) {
            received[report.boot_incarnation]
        } else {
            now
        }
    }
}

/// Whether some node of a list shows a member, ready exactly if it takes part.
pub open spec fn is_shown(
    leader: LeaderModel,
    domain: Option<Seq<char>>,
    session: SessionModel,
    loads: LoadModel,
    now: MonotonicTime,
    nodes: Seq<PlacementNodeModel>,
    ready: bool,
) -> bool {
    exists|i: int|
        0 <= i < nodes.len() && shows_member(
            leader,
            domain,
            session,
            loads,
            now,
            #[trigger] nodes[i],
        ) && nodes[i].ready == ready
}

/// Whether a node shows some member of a domain.
pub open spec fn shows_some_member(
    leader: LeaderModel,
    domain: Option<Seq<char>>,
    loads: LoadModel,
    now: MonotonicTime,
    node: PlacementNodeModel,
) -> bool {
    exists|id: NodeIncarnation| #[trigger]
        leader.sessions.contains_key(id) && (domain is Some ==> leader.sessions[id].domain_record
            is Some) && shows_member(leader, domain, leader.sessions[id], loads, now, node)
}

proof fn lemma_shows(
    leader: LeaderModel,
    domain: Option<Seq<char>>,
    session: SessionModel,
    loads: LoadModel,
    now: MonotonicTime,
)
    ensures
        shows_member(
            leader,
            domain,
            session,
            loads,
            now,
            leader.node_view(session, moves_in(leader.plans, domain), loads, now),
        ),
        leader.node_view(session, moves_in(leader.plans, domain), loads, now).ready == is_part(
            session,
        ),
{
    law_moves_under_way_are_counted(leader.plans, domain, Seq::empty(), session.hello.node);
}

proof fn lemma_nodes(
    leader: LeaderModel,
    domain: Seq<char>,
    ids: Seq<NodeIncarnation>,
    loads: LoadModel,
    now: MonotonicTime,
    n: int,
)
    requires
        0 <= n <= ids.len(),
        forall|i: int| 0 <= i < ids.len() ==> leader.sessions.contains_key(#[trigger] ids[i]),
    ensures
        ({
            let moves = domain_moves(leader.plans, domain);
            let nodes = leader.nodes_of_first(ids, moves, loads, now, n);
            &&& forall|i: int|
                0 <= i < n && leader.sessions[#[trigger] ids[i]].domain_record is Some ==> is_shown(
                    leader,
                    Some(domain),
                    leader.sessions[ids[i]],
                    loads,
                    now,
                    nodes,
                    is_part(leader.sessions[ids[i]]),
                )
            &&& forall|j: int|
                0 <= j < nodes.len() ==> shows_some_member(
                    leader,
                    Some(domain),
                    loads,
                    now,
                    #[trigger] nodes[j],
                )
        }),
    decreases n,
{
    if n > 0 {
        lemma_nodes(leader, domain, ids, loads, now, n - 1);
        let moves = domain_moves(leader.plans, domain);
        let before = leader.nodes_of_first(ids, moves, loads, now, n - 1);
        let nodes = leader.nodes_of_first(ids, moves, loads, now, n);
        let session = leader.sessions[ids[n - 1]];
        lemma_shows(leader, Some(domain), session, loads, now);
        if session.domain_record is Some {
            assert(nodes[before.len() as int] == leader.node_view(session, moves, loads, now));
            assert(leader.sessions.contains_key(ids[n - 1]));
        }
        assert forall|i: int|
            0 <= i < n && leader.sessions[#[trigger] ids[i]].domain_record is Some implies is_shown(
            leader,
            Some(domain),
            leader.sessions[ids[i]],
            loads,
            now,
            nodes,
            is_part(leader.sessions[ids[i]]),
        ) by {
            if i < n - 1 {
                let shown = leader.sessions[ids[i]];
                let j = choose|j: int|
                    0 <= j < before.len() && shows_member(
                        leader,
                        Some(domain),
                        shown,
                        loads,
                        now,
                        #[trigger] before[j],
                    ) && before[j].ready == is_part(shown);
                assert(nodes[j] == before[j]);
            }
        }
        assert forall|j: int| 0 <= j < nodes.len() implies shows_some_member(
            leader,
            Some(domain),
            loads,
            now,
            #[trigger] nodes[j],
        ) by {
            if j < before.len() {
                assert(nodes[j] == before[j]);
            }
        }
    }
}

/// The view of a domain shows exactly the members that are attached to it, each as it declares itself
/// and is known, and ready exactly if it takes part.
pub proof fn law_domains_are_shown_their_members(
    leader: LeaderModel,
    domain: Seq<char>,
    slots: Seq<SlotModel>,
    loads: LoadModel,
    now: MonotonicTime,
    id: NodeIncarnation,
    j: int,
)
    requires
        leader.sessions.dom().finite(),
    ensures
        ({
            let view = leader.viewed(domain, slots, loads, now);
            &&& leader.sessions.contains_key(id) && leader.sessions[id].domain_record is Some
                ==> is_shown(
                leader,
                Some(domain),
                leader.sessions[id],
                loads,
                now,
                view.nodes,
                is_part(leader.sessions[id]),
            )
            &&& 0 <= j < view.nodes.len() ==> shows_some_member(
                leader,
                Some(domain),
                loads,
                now,
                view.nodes[j],
            )
            &&& view.domain == domain
            &&& view.version == leader.version
            &&& view.now == now
            &&& view.reconciled == leader.reconciled
            &&& view.degraded <==> leader.reconciliation.quarantined.dom().len() > 0
            &&& view.active_cluster_moves == handoffs_passing(
                moves_in(leader.plans, Some(domain)),
                MoveFilter::Any,
            ) as usize
            &&& view.active_entity_moves == moves_by_entity(moves_in(leader.plans, Some(domain)))
            &&& view.active_source_moves == moves_by_source(moves_in(leader.plans, Some(domain)))
            &&& view.active_target_moves == moves_by_target(moves_in(leader.plans, Some(domain)))
            &&& view.last_automatic_move_at == leader.last_automatic_move_at
        }),
{
    lemma_ranked_lists::<NodeIncarnation>(leader.sessions.dom());
    let ids = ranked::<NodeIncarnation>(leader.sessions.dom());
    assert forall|i: int| 0 <= i < ids.len() implies leader.sessions.contains_key(
        #[trigger] ids[i],
    ) by {
        assert(ids.to_set().contains(ids[i]));
    }
    lemma_nodes(leader, domain, ids, loads, now, ids.len() as int);
    if leader.sessions.contains_key(id) {
        assert(ids.to_set().contains(id));
        let i = choose|i: int| 0 <= i < ids.len() && ids[i] == id;
        assert(leader.sessions[ids[i]] == leader.sessions[id]);
    }
}

/// The view of a cluster shows every connected member, ready whatever it takes part in, and counts
/// the moves of every plan.
pub proof fn law_clusters_are_shown_every_member(
    leader: LeaderModel,
    slots: Seq<SlotModel>,
    loads: LoadModel,
    now: MonotonicTime,
    id: NodeIncarnation,
    j: int,
)
    requires
        leader.sessions.dom().finite(),
    ensures
        ({
            let view = leader.viewed_cluster(slots, loads, now);
            &&& view.nodes.len() == leader.sessions.dom().len()
            &&& leader.sessions.contains_key(id) ==> is_shown(
                leader,
                None,
                leader.sessions[id],
                loads,
                now,
                view.nodes,
                true,
            )
            &&& 0 <= j < view.nodes.len() ==> shows_some_member(
                leader,
                None,
                loads,
                now,
                view.nodes[j],
            ) && view.nodes[j].ready
            &&& view.domain == leader.version.domain
            &&& view.version == leader.version
            &&& view.now == now
            &&& view.reconciled
            &&& !view.degraded
            &&& view.active_cluster_moves == handoffs_passing(
                moves_in(leader.plans, None),
                MoveFilter::Any,
            ) as usize
            &&& view.active_entity_moves == moves_by_entity(moves_in(leader.plans, None))
            &&& view.active_source_moves == moves_by_source(moves_in(leader.plans, None))
            &&& view.active_target_moves == moves_by_target(moves_in(leader.plans, None))
            &&& view.last_automatic_move_at == leader.last_automatic_move_at
        }),
{
    lemma_ranked_lists::<NodeIncarnation>(leader.sessions.dom());
    let ids = ranked::<NodeIncarnation>(leader.sessions.dom());
    let view = leader.viewed_cluster(slots, loads, now);
    if leader.sessions.contains_key(id) {
        assert(ids.to_set().contains(id));
        let i = choose|i: int| 0 <= i < ids.len() && ids[i] == id;
        lemma_shows(leader, None, leader.sessions[id], loads, now);
        assert(shows_member(leader, None, leader.sessions[id], loads, now, view.nodes[i]));
    }
    if 0 <= j < view.nodes.len() {
        assert(ids.to_set().contains(ids[j]));
        lemma_shows(leader, None, leader.sessions[ids[j]], loads, now);
        assert(leader.sessions.contains_key(ids[j]));
    }
}

/// Whether a shard is shown as its slot stands: with its owner and generation, the weight that its
/// owner last reported, when it was assigned and whether a move holds it.
pub open spec fn shows_slot(
    leader: LeaderModel,
    loads: LoadModel,
    now: MonotonicTime,
    slot: SlotModel,
    shard: PlacedShardModel,
) -> bool {
    &&& slot.key == (SlotKeyModel::Shard {
        domain: shard.domain,
        entity_type: shard.entity_type,
        shard_id: shard.shard_id,
    })
    &&& slot.owner == Some(shard.owner)
    &&& shard.generation == slot.assignment_generation
    &&& shard.active_move <==> slot.active_move is Some
    &&& shard.assigned_at == if leader.slot_assigned_at.contains_key(slot.key) {
        leader.slot_assigned_at[slot.key]
    } else {
        now
    }
    &&& {
        let report = SessionShard {
            session: shard.owner.incarnation,
            entity_type: shard.entity_type,
            shard_id: shard.shard_id,
        };
        &&& shard.measured_weight is Some <==> loads.shards.contains_key(report)
        &&& shard.measured_weight is Some ==> shard.measured_weight->0 == loads.shards[report]
    }
}

/// Whether a slot is of a shard with an owner, in a domain or in any.
pub open spec fn is_placed_in(slot: SlotModel, domain: Option<Seq<char>>) -> bool {
    &&& slot.owner is Some
    &&& slot.key is Shard
    &&& domain is Some ==> slot.key->Shard_domain == domain->0
}

/// Whether a slot is shown in a list of shards.
pub open spec fn is_slot_shown(
    leader: LeaderModel,
    loads: LoadModel,
    now: MonotonicTime,
    slot: SlotModel,
    shards: Seq<PlacedShardModel>,
) -> bool {
    exists|i: int| 0 <= i < shards.len() && shows_slot(leader, loads, now, slot, #[trigger] shards[i])
}

/// Whether a shard shows one of some slots of a domain.
pub open spec fn shows_some_slot(
    leader: LeaderModel,
    loads: LoadModel,
    now: MonotonicTime,
    slots: Seq<SlotModel>,
    domain: Option<Seq<char>>,
    shard: PlacedShardModel,
) -> bool {
    exists|i: int|
        0 <= i < slots.len() && is_placed_in(#[trigger] slots[i], domain) && shows_slot(
            leader,
            loads,
            now,
            slots[i],
            shard,
        )
}

/// The shards of the first `n` slots, of a domain or of any.
pub open spec fn shown_first(
    leader: LeaderModel,
    domain: Option<Seq<char>>,
    slots: Seq<SlotModel>,
    loads: LoadModel,
    now: MonotonicTime,
    n: int,
) -> Seq<PlacedShardModel> {
    match domain {
        Some(name) => leader.placed_of_first(name, slots, loads, now, n),
        None => leader.placed_anywhere(slots, loads, now, n),
    }
}

proof fn lemma_shards(
    leader: LeaderModel,
    domain: Option<Seq<char>>,
    slots: Seq<SlotModel>,
    loads: LoadModel,
    now: MonotonicTime,
    n: int,
)
    requires
        0 <= n <= slots.len(),
    ensures
        ({
            let shards = shown_first(leader, domain, slots, loads, now, n);
            &&& forall|i: int|
                0 <= i < n && is_placed_in(#[trigger] slots[i], domain) ==> is_slot_shown(
                    leader,
                    loads,
                    now,
                    slots[i],
                    shards,
                )
            &&& forall|j: int|
                0 <= j < shards.len() ==> shows_some_slot(
                    leader,
                    loads,
                    now,
                    slots,
                    domain,
                    #[trigger] shards[j],
                )
        }),
    decreases n,
{
    if n > 0 {
        lemma_shards(leader, domain, slots, loads, now, n - 1);
        let before = shown_first(leader, domain, slots, loads, now, n - 1);
        let shards = shown_first(leader, domain, slots, loads, now, n);
        let slot = slots[n - 1];
        if is_placed_in(slot, domain) {
            assert(shards.len() == before.len() + 1);
            assert(shows_slot(leader, loads, now, slot, shards[before.len() as int]));
            assert(is_placed_in(slots[n - 1], domain));
        } else {
            assert(shards == before);
        }
        assert forall|i: int| 0 <= i < n && is_placed_in(
            #[trigger] slots[i],
            domain,
        ) implies is_slot_shown(leader, loads, now, slots[i], shards) by {
            if i < n - 1 {
                let j = choose|j: int|
                    0 <= j < before.len() && shows_slot(
                        leader,
                        loads,
                        now,
                        slots[i],
                        #[trigger] before[j],
                    );
                assert(shards[j] == before[j]);
            }
        }
        assert forall|j: int| 0 <= j < shards.len() implies shows_some_slot(
            leader,
            loads,
            now,
            slots,
            domain,
            #[trigger] shards[j],
        ) by {
            if j < before.len() {
                assert(shards[j] == before[j]);
            }
        }
    }
}

/// A view shows exactly the shards that have an owner, each as its slot stands: that of a domain those
/// of the domain, that of a cluster all of them.
pub proof fn law_views_show_placed_shards(
    leader: LeaderModel,
    domain: Seq<char>,
    slots: Seq<SlotModel>,
    loads: LoadModel,
    now: MonotonicTime,
    i: int,
    j: int,
)
    ensures
        ({
            let shards = leader.viewed(domain, slots, loads, now).shards;
            &&& 0 <= i < slots.len() && is_placed_in(slots[i], Some(domain)) ==> is_slot_shown(
                leader,
                loads,
                now,
                slots[i],
                shards,
            )
            &&& 0 <= j < shards.len() ==> shows_some_slot(
                leader,
                loads,
                now,
                slots,
                Some(domain),
                shards[j],
            )
        }),
        ({
            let shards = leader.viewed_cluster(slots, loads, now).shards;
            &&& 0 <= i < slots.len() && is_placed_in(slots[i], None) ==> is_slot_shown(
                leader,
                loads,
                now,
                slots[i],
                shards,
            )
            &&& 0 <= j < shards.len() ==> shows_some_slot(
                leader,
                loads,
                now,
                slots,
                None,
                shards[j],
            )
        }),
{
    lemma_shards(leader, Some(domain), slots, loads, now, slots.len() as int);
    lemma_shards(leader, None, slots, loads, now, slots.len() as int);
}

} // verus!
