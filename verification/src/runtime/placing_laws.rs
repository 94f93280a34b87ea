//! Where slots are placed for the first time, and where singletons go.
use vstd::prelude::*;
use vstd::utf8::encode_utf8;

use crate::encode::be_bytes;
use crate::hashing::blake3_digest;
use crate::order::{is_first_difference, law_bytes_differ_at_a_place, text_less};
use crate::region::EntityConfigModel;
use crate::runtime::allocation::{
    placement_rank, ranks_before, settled, AllocationStep, SingletonPolicy, SingletonStepModel,
    StepModel,
};
use crate::runtime::errors::RuntimeErrorModel;
use crate::runtime::handoff_laws::{follows, is_next};
use crate::runtime::members::{
    DomainMemberStatus, MemberStatus, SessionModel, SingletonModel,
};
use crate::runtime::state::LeaderModel;
use crate::sorted::{lemma_ranked_lists, ranked, Ranked};
use crate::types::{
    node_less, AssignmentGeneration, GrantSequence, NodeIncarnation, NodeKey, NodeModel,
    PlacementSlotState, ShardId, SlotKeyModel, SlotModel,
};

verus! {

/// Whether a slot is placed or about to be.
pub open spec fn is_at_home(slot: SlotModel) -> bool {
    slot.state == PlacementSlotState::Allocating || slot.state == PlacementSlotState::Running
}

/// Whether authority over a slot was taken away, and no move will place it again.
pub open spec fn is_stranded(slot: SlotModel) -> bool {
    slot.state == PlacementSlotState::Fenced && slot.active_move is None
}

/// Whether a strategy is registered for the policy of a configuration.
pub open spec fn has_strategy(leader: LeaderModel, config: EntityConfigModel) -> bool {
    leader.strategies.contains_key(
        crate::ranking::PolicyKey {
            policy_id: config.allocation_policy_id,
            policy_version: config.allocation_policy_version,
        },
    )
}

/// The leader of a domain leaves a shard that is placed, installs the authority of a stranded one
/// again, and asks a strategy for a place of a shard that has no slot: of that very shard, for a
/// node that speaks the protocol of its type. It refuses types that it does not know, shards that
/// the type does not have, policies without a strategy and slots under way.
pub proof fn law_shards_are_placed_once(
    leader: LeaderModel,
    entity_type: Seq<char>,
    shard_id: ShardId,
    slot: Option<SlotModel>,
)
    ensures
        ({
            let config = leader.entity_configs[entity_type];
            let known = leader.entity_configs.contains_key(entity_type);
            let ranged = shard_id.0 < config.shard_count;
            let result = leader.placing_shard(entity_type, shard_id, slot);
            &&& result == Err::<StepModel, _>(RuntimeErrorModel::UnknownEntityConfig) <==> !known
            &&& result == Err::<StepModel, _>(RuntimeErrorModel::ShardOutOfRange) <==> known
                && !ranged
            &&& result == Ok::<_, RuntimeErrorModel>(StepModel::Settled) <==> known && ranged
                && slot is Some && is_at_home(slot->0)
            &&& result == Ok::<_, RuntimeErrorModel>(StepModel::Reinstall) <==> known && ranged
                && slot is Some && is_stranded(slot->0)
            &&& result == Err::<StepModel, _>(RuntimeErrorModel::StaleHandoff) <==> known && ranged
                && slot is Some && !is_at_home(slot->0) && !is_stranded(slot->0)
            &&& result == Err::<StepModel, _>(RuntimeErrorModel::UnknownStrategy) <==> known
                && ranged && slot is None && !has_strategy(leader, config)
            &&& known && ranged && slot is None && has_strategy(leader, config) ==> {
                &&& result matches Ok(AllocationStep::Allocate(request))
                &&& request.domain == config.domain
                &&& request.entity_type == config.entity_type
                &&& request.shard_id == shard_id
                &&& request.required_protocol == config.protocol_id
            }
        }),
{
}

/// The leader of a cluster places a shard likewise, but a slot that is not placed is under way to
/// it, stranded or not.
pub proof fn law_cluster_shards_are_placed_once(
    leader: LeaderModel,
    entity_type: Seq<char>,
    shard_id: ShardId,
    slot: Option<SlotModel>,
)
    ensures
        ({
            let config = leader.entity_configs[entity_type];
            let known = leader.entity_configs.contains_key(entity_type);
            let result = leader.placing_cluster_shard(entity_type, shard_id, slot);
            &&& result == Ok::<_, RuntimeErrorModel>(StepModel::Settled) <==> slot is Some
                && is_at_home(slot->0)
            &&& result == Err::<StepModel, _>(RuntimeErrorModel::StaleHandoff) <==> slot is Some
                && !is_at_home(slot->0)
            &&& result == Err::<StepModel, _>(RuntimeErrorModel::UnknownEntityConfig) <==> slot
                is None && !known
            &&& result == Err::<StepModel, _>(RuntimeErrorModel::UnknownStrategy) <==> slot is None
                && known && !has_strategy(leader, config)
            &&& slot is None && known && has_strategy(leader, config) ==> {
                &&& result matches Ok(AllocationStep::Allocate(request))
                &&& request.domain == config.domain
                &&& request.entity_type == config.entity_type
                &&& request.shard_id == shard_id
                &&& request.required_protocol == config.protocol_id
            }
        }),
{
}

/// A slot that is placed for the first time is about to run on its owner, under the first
/// generation, at the next version and held by no move; and its first claim is its owner's, under
/// the generation of the slot, in the term of the leader and for as long as claims live.
pub proof fn law_slots_start_on_their_owner(
    leader: LeaderModel,
    key: SlotKeyModel,
    fingerprint: Seq<u8>,
    owner: NodeModel,
    slot: SlotModel,
)
    ensures
        leader.first_slot(key, fingerprint, owner) is Ok <==> leader.version.revision.0 < u64::MAX,
        leader.first_slot(key, fingerprint, owner) is Err ==> leader.first_slot(
            key,
            fingerprint,
            owner,
        ) == Err::<SlotModel, _>(RuntimeErrorModel::RevisionExhausted),
        leader.first_slot(key, fingerprint, owner) matches Ok(first) ==> {
            &&& first.key == key
            &&& first.config_fingerprint == fingerprint
            &&& first.owner == Some(owner)
            &&& first.target is None
            &&& first.assignment_generation == AssignmentGeneration(1)
            &&& is_next(first.version, leader.version)
            &&& first.state == PlacementSlotState::Allocating
            &&& first.active_move is None
            &&& first.barrier_sessions == Set::<NodeIncarnation>::empty()
        },
        leader.first_claim(slot) is Ok <==> slot.owner is Some,
        leader.first_claim(slot) matches Err(error) ==> error
            == RuntimeErrorModel::IneligibleTarget,
        leader.first_claim(slot) matches Ok(claim) ==> {
            &&& Some(claim.owner) == slot.owner
            &&& claim.slot == slot.key
            &&& claim.assignment_generation == slot.assignment_generation
            &&& claim.coordinator_term == leader.term
            &&& claim.grant_sequence == GrantSequence(1)
            &&& claim.ttl == leader.config.claim_ttl
            &&& slot.key matches SlotKeyModel::Shard { domain, .. } ==> claim.domain == domain
            &&& slot.key matches SlotKeyModel::Singleton { domain, .. } ==> claim.domain == domain
        },
{
}

/// Whether a member can host a singleton: it is up in the cluster and in the domain, does not drain,
/// is not left out, declares the singleton with that very configuration, and speaks its protocol.
pub open spec fn can_host(
    session: SessionModel,
    kind: Seq<char>,
    config: SingletonModel,
    exclude: Option<NodeModel>,
) -> bool {
    &&& session.record.status == MemberStatus::Up
    &&& session.domain_record is Some
    &&& session.domain_record->0.status == DomainMemberStatus::Up
    &&& !session.draining
    &&& exclude != Some(session.hello.node)
    &&& session.hello.singleton_eligibility.contains(kind)
    &&& session.hello.singleton_configs.contains(config)
    &&& session.record.protocols.contains(config.protocol_id)
}

/// Members host singletons exactly when they can.
pub proof fn law_singletons_are_hosted_by_those_that_can(
    leader: LeaderModel,
    session: SessionModel,
    kind: Seq<char>,
    config: SingletonModel,
    exclude: Option<NodeModel>,
)
    ensures
        leader.may_host(session, kind, config, exclude) <==> can_host(
            session,
            kind,
            config,
            exclude,
        ),
{
}

/// The rank of a node for a singleton is the first half of the BLAKE3 digest of the name of the
/// singleton, a zero byte, the name of the node and its incarnation; the lesser rank comes first,
/// and among equal ranks the lesser node.
pub proof fn law_ranks_are_digests(kind: Seq<char>, left: NodeModel, right: NodeModel)
    ensures
        ({
            let a = blake3_digest(
                encode_utf8(kind) + seq![0u8] + encode_utf8(left.node_id) + be_bytes(
                    left.incarnation.0 as nat,
                    16,
                ),
            ).subrange(0, 16);
            let b = blake3_digest(
                encode_utf8(kind) + seq![0u8] + encode_utf8(right.node_id) + be_bytes(
                    right.incarnation.0 as nat,
                    16,
                ),
            ).subrange(0, 16);
            &&& placement_rank(kind, left) == a
            &&& a != b ==> (ranks_before(kind, left, right) <==> exists|k: int| #[trigger]
                is_first_difference(a, b, k))
            &&& a == b ==> (ranks_before(kind, left, right) <==> node_less(left, right))
        }),
{
    law_bytes_differ_at_a_place(placement_rank(kind, left), placement_rank(kind, right));
}

/// Nodes are ordered by name, then by host, then by port, then by incarnation.
pub proof fn law_nodes_are_ordered_by_name(left: NodeModel, right: NodeModel)
    ensures
        node_less(left, right) <==> {
            ||| left.node_id != right.node_id && text_less(left.node_id, right.node_id)
            ||| left.node_id == right.node_id && left.address.host != right.address.host
                && text_less(left.address.host, right.address.host)
            ||| left.node_id == right.node_id && left.address.host == right.address.host
                && left.address.port < right.address.port
            ||| left.node_id == right.node_id && left.address == right.address
                && left.incarnation.0 < right.incarnation.0
        },
{
}

proof fn lemma_first_candidate(
    leader: LeaderModel,
    ids: Seq<NodeIncarnation>,
    kind: Seq<char>,
    config: SingletonModel,
    exclude: Option<NodeModel>,
    n: int,
)
    requires
        n <= ids.len(),
    ensures
        ({
            let first = leader.first_candidate(ids, kind, config, exclude, n);
            &&& forall|i: int|
                0 <= i < n && can_host(leader.sessions[#[trigger] ids[i]], kind, config, exclude)
                    ==> first is Some && !node_less(leader.sessions[ids[i]].hello.node, first->0)
            &&& first is Some ==> exists|i: int|
                0 <= i < n && can_host(leader.sessions[#[trigger] ids[i]], kind, config, exclude)
                    && leader.sessions[ids[i]].hello.node == first->0
        }),
    decreases n,
{
    if n > 0 {
        lemma_first_candidate(leader, ids, kind, config, exclude, n - 1);
        let before = leader.first_candidate(ids, kind, config, exclude, n - 1);
        let first = leader.first_candidate(ids, kind, config, exclude, n);
        let session = leader.sessions[ids[n - 1]];
        law_singletons_are_hosted_by_those_that_can(leader, session, kind, config, exclude);
        if first is Some {
            if first == before {
                let i = choose|i: int|
                    0 <= i < n - 1 && can_host(
                        leader.sessions[#[trigger] ids[i]],
                        kind,
                        config,
                        exclude,
                    ) && leader.sessions[ids[i]].hello.node == before->0;
                assert(leader.sessions[ids[i]].hello.node == first->0);
            } else {
                assert(leader.sessions[ids[n - 1]].hello.node == first->0);
            }
            assert forall|i: int|
                0 <= i < n && can_host(
                    leader.sessions[#[trigger] ids[i]],
                    kind,
                    config,
                    exclude,
                ) implies !node_less(leader.sessions[ids[i]].hello.node, first->0) by {
                let node = leader.sessions[ids[i]].hello.node;
                NodeKey::lemma_irreflexive(node);
                if i < n - 1 && node_less(node, first->0) && first != before {
                    NodeKey::lemma_transitive(node, first->0, before->0);
                }
            }
        }
    }
}

/// The leader of a cluster places a singleton exactly when a connected member can host it, and then
/// on the first node of all that can.
pub proof fn law_cluster_singletons_go_to_the_first_node(
    leader: LeaderModel,
    kind: Seq<char>,
    config: SingletonModel,
    exclude: Option<NodeModel>,
)
    requires
        leader.sessions.dom().finite(),
    ensures
        ({
            let target = leader.cluster_singleton_target(kind, config, exclude);
            &&& target is Some <==> exists|id: NodeIncarnation| #[trigger]
                leader.sessions.contains_key(id) && can_host(
                    leader.sessions[id],
                    kind,
                    config,
                    exclude,
                )
            &&& target is Some ==> exists|id: NodeIncarnation| #[trigger]
                leader.sessions.contains_key(id) && can_host(
                    leader.sessions[id],
                    kind,
                    config,
                    exclude,
                ) && leader.sessions[id].hello.node == target->0
            &&& forall|id: NodeIncarnation| #[trigger]
                leader.sessions.contains_key(id) && can_host(
                    leader.sessions[id],
                    kind,
                    config,
                    exclude,
                ) ==> !node_less(leader.sessions[id].hello.node, target->0)
        }),
{
    lemma_ranked_lists::<NodeIncarnation>(leader.sessions.dom());
    let ids = ranked::<NodeIncarnation>(leader.sessions.dom());
    let n = ids.len() as int;
    lemma_first_candidate(leader, ids, kind, config, exclude, n);
    let target = leader.cluster_singleton_target(kind, config, exclude);
    assert forall|id: NodeIncarnation| #[trigger]
        leader.sessions.contains_key(id) && can_host(
            leader.sessions[id],
            kind,
            config,
            exclude,
        ) implies target is Some && !node_less(leader.sessions[id].hello.node, target->0) by {
        assert(ids.to_set().contains(id));
        let i = choose|i: int| 0 <= i < n && ids[i] == id;
        assert(can_host(leader.sessions[ids[i]], kind, config, exclude));
    }
    if target is Some {
        let i = choose|i: int|
            0 <= i < n && can_host(leader.sessions[#[trigger] ids[i]], kind, config, exclude)
                && leader.sessions[ids[i]].hello.node == target->0;
        assert(ids.to_set().contains(ids[i]));
        assert(leader.sessions.contains_key(ids[i]));
    }
}

/// A singleton goes where its policy says: spread by rank in a domain, to the first node in a
/// cluster.
pub proof fn law_policies_choose_their_targets(
    leader: LeaderModel,
    kind: Seq<char>,
    config: SingletonModel,
    exclude: Option<NodeModel>,
)
    ensures
        leader.target_under(SingletonPolicy::Ranked, kind, config, exclude)
            == leader.singleton_target(kind, config, exclude),
        leader.target_under(SingletonPolicy::First, kind, config, exclude)
            == leader.cluster_singleton_target(kind, config, exclude),
{
}

/// Whether a step writes the first slot of a singleton, on a given node.
pub open spec fn starts_on(
    leader: LeaderModel,
    kind: Seq<char>,
    result: Result<SingletonStepModel, RuntimeErrorModel>,
    target: Option<NodeModel>,
) -> bool {
    let config = leader.singleton_configs[kind];
    match target {
        None => result == Err::<SingletonStepModel, _>(RuntimeErrorModel::IneligibleTarget),
        Some(node) => if leader.version.revision.0 == u64::MAX {
            result == Err::<SingletonStepModel, _>(RuntimeErrorModel::RevisionExhausted)
        } else {
            &&& result is Ok
            &&& result->Ok_0 is Allocate
            &&& result->Ok_0->Allocate_0.key == (SlotKeyModel::Singleton {
                domain: config.domain,
                kind,
            })
            &&& result->Ok_0->Allocate_0.config_fingerprint == config.config_fingerprint
            &&& result->Ok_0->Allocate_0.owner == Some(node)
            &&& result->Ok_0->Allocate_0.assignment_generation == AssignmentGeneration(1)
            &&& result->Ok_0->Allocate_0.state == PlacementSlotState::Allocating
            &&& is_next(result->Ok_0->Allocate_0.version, leader.version)
        },
    }
}

/// A singleton is placed once, as a shard is: where it has no slot, on the node that it goes to.
pub proof fn law_singletons_are_placed_once(
    leader: LeaderModel,
    kind: Seq<char>,
    slot: Option<SlotModel>,
)
    ensures
        ({
            let known = leader.singleton_configs.contains_key(kind);
            let config = leader.singleton_configs[kind];
            let result = leader.placing_singleton(kind, slot);
            &&& !known ==> result == Err::<SingletonStepModel, _>(
                RuntimeErrorModel::UnknownSingletonConfig,
            )
            &&& known && slot is Some && is_at_home(slot->0) ==> result == Ok::<
                _,
                RuntimeErrorModel,
            >(SingletonStepModel::Settled)
            &&& known && slot is Some && is_stranded(slot->0) ==> result == Ok::<
                _,
                RuntimeErrorModel,
            >(SingletonStepModel::Reinstall)
            &&& known && slot is Some && !is_at_home(slot->0) && !is_stranded(slot->0) ==> result
                == Err::<SingletonStepModel, _>(RuntimeErrorModel::StaleHandoff)
            &&& known && slot is None ==> starts_on(
                leader,
                kind,
                result,
                leader.singleton_target(kind, config, None),
            )
        }),
        ({
            let known = leader.singleton_configs.contains_key(kind);
            let config = leader.singleton_configs[kind];
            let result = leader.placing_cluster_singleton(kind, slot);
            &&& slot is Some && is_at_home(slot->0) ==> result == Ok::<_, RuntimeErrorModel>(
                SingletonStepModel::Settled,
            )
            &&& slot is Some && !is_at_home(slot->0) ==> result == Err::<SingletonStepModel, _>(
                RuntimeErrorModel::StaleHandoff,
            )
            &&& slot is None && !known ==> result == Err::<SingletonStepModel, _>(
                RuntimeErrorModel::UnknownSingletonConfig,
            )
            &&& slot is None && known ==> starts_on(
                leader,
                kind,
                result,
                leader.cluster_singleton_target(kind, config, None),
            )
        }),
{
}

/// A singleton is moved off its owner exactly when it runs there and no move holds it: to where its
/// policy places it without that owner, under the plan and behind a barrier of those that follow it.
pub proof fn law_singletons_are_moved_off_their_owner(
    leader: LeaderModel,
    slot: SlotModel,
    plan_id: u128,
    policy: SingletonPolicy,
)
    ensures
        ({
            let result = leader.singleton_recovery(slot, plan_id, policy);
            let idle = slot.state != PlacementSlotState::Running || slot.active_move is Some;
            &&& slot.key is Shard ==> result == Err::<Option<SlotModel>, _>(
                RuntimeErrorModel::UnknownSlot,
            )
            &&& slot.key matches SlotKeyModel::Singleton { kind, .. } ==> {
                let config = leader.singleton_configs[kind];
                let known = leader.singleton_configs.contains_key(kind);
                let target = leader.target_under(policy, kind, config, slot.owner);
                &&& result == Ok::<Option<SlotModel>, RuntimeErrorModel>(None) <==> idle
                &&& !idle && slot.owner is None ==> result == Err::<Option<SlotModel>, _>(
                    RuntimeErrorModel::UnknownSlot,
                )
                &&& !idle && slot.owner is Some && !known ==> result == Err::<
                    Option<SlotModel>,
                    _,
                >(RuntimeErrorModel::UnknownSingletonConfig)
                &&& !idle && slot.owner is Some && known && target is None ==> result == Err::<
                    Option<SlotModel>,
                    _,
                >(RuntimeErrorModel::IneligibleTarget)
                &&& !idle && slot.owner is Some && known && target is Some
                    && leader.version.revision.0 == u64::MAX ==> result == Err::<
                    Option<SlotModel>,
                    _,
                >(RuntimeErrorModel::RevisionExhausted)
                &&& !idle && slot.owner is Some && known && target is Some
                    && leader.version.revision.0 < u64::MAX ==> {
                    &&& result is Ok && result->Ok_0 is Some
                    &&& result->Ok_0->0 == (SlotModel {
                        target,
                        state: PlacementSlotState::BeginHandoff,
                        active_move: Some(plan_id),
                        barrier_sessions: result->Ok_0->0.barrier_sessions,
                        version: result->Ok_0->0.version,
                        ..slot
                    })
                    &&& is_next(result->Ok_0->0.version, leader.version)
                    &&& forall|id: NodeIncarnation| #[trigger]
                        result->Ok_0->0.barrier_sessions.contains(id)
                            <==> leader.sessions.contains_key(id) && follows(
                            leader.sessions[id].hello,
                            slot.key,
                        )
                }
            }
        }),
{
}

/// Automatic moves of an entity type are off when all of them are, or those of that type.
pub proof fn law_pauses_hold_for_a_type_or_for_all(leader: LeaderModel, entity_type: Seq<char>)
    ensures
        leader.is_paused(entity_type) <==> leader.automatic_globally_paused
            || leader.paused_entity_types.contains(entity_type),
{
}

} // verus!
