//! What becomes of members that fall silent, leave or come back, and of their claims.
use vstd::prelude::*;

use crate::runtime::claims::{
    owned_entity_types, owned_singletons, DepartureModel, ResumeModel,
};
use crate::runtime::errors::RuntimeErrorModel;
use crate::runtime::handoff::{ClaimLeaseModel, HandoffEventModel, HandoffPhase};
use crate::runtime::members::AssociationModel;
use crate::runtime::state::LeaderModel;
use crate::sorted::{lemma_filter_members, lemma_ranked_filter, lemma_ranked_lists, ranked};
use crate::time::TimeSpan;
use crate::types::{
    ClaimModel, GrantSequence, NodeIncarnation, NodeModel, PlacementSlotKey, PlacementSlotState,
    SlotKeyModel, SlotModel,
};

verus! {

/// A session has expired exactly when more time has passed since its last heartbeat than a member
/// may be silent; the sessions on their way out are exactly those that drain.
pub proof fn law_silent_sessions_expire(leader: LeaderModel, now: TimeSpan, id: NodeIncarnation)
    requires
        leader.sessions.dom().finite(),
    ensures
        leader.silent_sessions(now).contains(id) <==> leader.sessions.contains_key(id)
            && now.length() > leader.sessions[id].last_heartbeat.length()
            + leader.config.member_heartbeat_timeout.length(),
        leader.silent_sessions(now).no_duplicates(),
        leader.draining_sessions().contains(id) <==> leader.sessions.contains_key(id)
            && leader.sessions[id].draining,
        leader.draining_sessions().no_duplicates(),
{
    let silent = |id: NodeIncarnation| leader.is_silent(leader.sessions[id], now);
    let draining = |id: NodeIncarnation| leader.sessions[id].draining;
    lemma_ranked_filter::<NodeIncarnation>(leader.sessions.dom(), silent);
    lemma_ranked_filter::<NodeIncarnation>(leader.sessions.dom(), draining);
    assert(ranked::<NodeIncarnation>(leader.sessions.dom()).filter(silent).contains(id)
        == leader.silent_sessions(now).contains(id));
    assert(ranked::<NodeIncarnation>(leader.sessions.dom()).filter(draining).contains(id)
        == leader.draining_sessions().contains(id));
}

/// A session that goes leaves behind its lease and its node, exactly the claims of that incarnation,
/// and exactly the barriers that waited for it; every session that stays is told, and keeps its
/// claims.
pub proof fn law_departures_leave_nothing_behind(leader: LeaderModel, id: NodeIncarnation)
    requires
        leader.sessions.dom().finite(),
        leader.claims.dom().finite(),
        leader.handoffs.dom().finite(),
    ensures
        leader.departure(id) is Some <==> leader.sessions.contains_key(id),
        leader.departure(id) matches Some(departure) ==> {
            &&& departure.lease_id == leader.sessions[id].lease_id
            &&& departure.node == leader.sessions[id].hello.node
            &&& forall|claim: ClaimLeaseModel| #[trigger]
                departure.claims.contains(claim) <==> exists|key: SlotKeyModel| #[trigger]
                    leader.claims.contains_key(key) && leader.claims[key] == claim
                        && claim.grant.owner.incarnation == id
            &&& forall|key: SlotKeyModel| #[trigger]
                departure.barriers.contains(key) <==> leader.handoffs.contains_key(key)
                    && leader.handoffs[key].phase == HandoffPhase::Invalidating
                    && leader.handoffs[key].required_sessions.contains(id)
            &&& forall|other: NodeIncarnation|
                other != id && #[trigger] leader.sessions.contains_key(other)
                    ==> departure.told.contains(leader.sessions[other].association)
            &&& departure.told.len() == leader.sessions.dom().remove(id).len()
        },
        ({
            let after = leader.without_session(id);
            &&& !after.sessions.contains_key(id)
            &&& forall|other: NodeIncarnation|
                other != id ==> (#[trigger] after.sessions.contains_key(other)
                    == leader.sessions.contains_key(other)) && after.sessions[other]
                    == leader.sessions[other]
            &&& forall|key: SlotKeyModel| #[trigger]
                after.claims.contains_key(key) <==> leader.claims.contains_key(key)
                    && leader.claims[key].grant.owner.incarnation != id
            &&& forall|key: SlotKeyModel| #[trigger]
                after.claims.contains_key(key) ==> after.claims[key] == leader.claims[key]
            &&& after.handoffs == leader.handoffs && after.plans == leader.plans
        }),
{
    let own = |key: SlotKeyModel| leader.claims[key].grant.owner.incarnation == id;
    let waits = |key: SlotKeyModel| leader.handoffs[key].waits_for(id);
    lemma_ranked_filter::<PlacementSlotKey>(leader.claims.dom(), own);
    lemma_ranked_filter::<PlacementSlotKey>(leader.handoffs.dom(), waits);
    let after = leader.without_session(id);
    assert(after.sessions.dom() =~= leader.sessions.dom().remove(id));
    lemma_ranked_lists::<NodeIncarnation>(after.sessions.dom());
    let ids = ranked::<NodeIncarnation>(after.sessions.dom());
    if leader.sessions.contains_key(id) {
        let departure = leader.departure(id)->0;
        let keys = leader.claimed_by(id);
        assert(keys == ranked::<PlacementSlotKey>(leader.claims.dom()).filter(own));
        assert forall|claim: ClaimLeaseModel| #[trigger]
            departure.claims.contains(claim) <==> exists|key: SlotKeyModel| #[trigger]
                leader.claims.contains_key(key) && leader.claims[key] == claim
                    && claim.grant.owner.incarnation == id by {
            if departure.claims.contains(claim) {
                let k = choose|k: int| 0 <= k < departure.claims.len() && departure.claims[k] == claim;
                assert(keys.contains(keys[k]));
                assert(leader.claims.contains_key(keys[k]));
            }
            if exists|key: SlotKeyModel| #[trigger]
                leader.claims.contains_key(key) && leader.claims[key] == claim
                    && claim.grant.owner.incarnation == id {
                let key = choose|key: SlotKeyModel| #[trigger]
                    leader.claims.contains_key(key) && leader.claims[key] == claim
                        && claim.grant.owner.incarnation == id;
                assert(keys.contains(key));
                let k = choose|k: int| 0 <= k < keys.len() && keys[k] == key;
                assert(departure.claims[k] == claim);
            }
        }
        assert(departure.barriers == ranked::<PlacementSlotKey>(leader.handoffs.dom()).filter(
            waits,
        ));
        assert forall|other: NodeIncarnation|
            other != id && #[trigger] leader.sessions.contains_key(
                other,
            ) implies departure.told.contains(leader.sessions[other].association) by {
            assert(ids.to_set().contains(other));
            let k = choose|k: int| 0 <= k < ids.len() && ids[k] == other;
            assert(departure.told[k] == leader.sessions[other].association);
        }
    }
}

/// What a lost node leaves to be placed anew: exactly the entity types of the shards that it owned,
/// and exactly the singletons that it owned.
pub proof fn law_lost_nodes_leave_what_they_owned(
    slots: Seq<SlotModel>,
    node: NodeModel,
    entity_type: Seq<char>,
    slot: SlotModel,
)
    ensures
        owned_entity_types(slots, node).contains(entity_type) <==> exists|i: int|
            0 <= i < slots.len() && (#[trigger] slots[i]).owner == Some(node) && (
            slots[i].key matches SlotKeyModel::Shard { entity_type: name, .. } && name
                == entity_type),
        owned_singletons(slots, node).contains(slot) <==> slots.contains(slot) && slot.owner
            == Some(node) && slot.key is Singleton,
{
    lemma_filter_members(
        slots,
        |slot: SlotModel| slot.owner == Some(node) && slot.key is Singleton,
    );
    if owned_entity_types(slots, node).contains(entity_type) {
        let i = choose|i: int|
            0 <= i < slots.len() && (#[trigger] slots[i]).owner == Some(node) && slots[i].key
                is Shard && slots[i].key->entity_type == entity_type;
        assert(slots[i].owner == Some(node));
    }
}

/// A claim is granted exactly on a slot that is placed on the node or about to be, as long as the
/// sequence can be counted on: for the generation of the slot, in the term of the leader, with the
/// sequence after that of the last claim of the same generation, or the first one.
pub proof fn law_claims_are_granted_on_what_is_placed(
    leader: LeaderModel,
    node: NodeModel,
    slot: SlotModel,
    previous: Option<ClaimModel>,
)
    ensures
        ({
            let result = leader.reconciled_claim(node, slot, previous);
            let placed = slot.owner == Some(node) && (slot.state == PlacementSlotState::Allocating
                || slot.state == PlacementSlotState::Running);
            let continued = previous is Some && previous->0.assignment_generation
                == slot.assignment_generation;
            let exhausted = continued && previous->0.grant_sequence.0 == u64::MAX;
            &&& result == Ok::<Option<ClaimModel>, RuntimeErrorModel>(None) <==> !placed
            &&& result == Err::<Option<ClaimModel>, _>(RuntimeErrorModel::ClaimSequence) <==> placed
                && exhausted
            &&& placed && !exhausted ==> {
                &&& result is Ok && result->Ok_0 is Some
                &&& result->Ok_0->0.owner == node
                &&& result->Ok_0->0.slot == slot.key
                &&& result->Ok_0->0.assignment_generation == slot.assignment_generation
                &&& result->Ok_0->0.coordinator_term == leader.term
                &&& result->Ok_0->0.ttl == leader.config.claim_ttl
                &&& continued ==> result->Ok_0->0.grant_sequence.0
                    == previous->0.grant_sequence.0 + 1
                &&& !continued ==> result->Ok_0->0.grant_sequence == GrantSequence(1)
            }
        }),
{
}

/// When a node comes back, exactly those handoffs go on with it that drain and have it as their
/// source, that drain a singleton of which it is the target and whose source is not connected, or
/// that wait for authority to be replaced and have it as their target.
pub proof fn law_handoffs_go_on_with_those_they_wait_for(
    leader: LeaderModel,
    node: NodeModel,
    key: SlotKeyModel,
)
    requires
        leader.handoffs.dom().finite(),
    ensures
        leader.resumable(node).contains(key) <==> {
            let handoff = leader.handoffs[key];
            &&& leader.handoffs.contains_key(key)
            &&& {
                ||| handoff.phase == HandoffPhase::Draining && handoff.source == node
                ||| handoff.phase == HandoffPhase::Draining && handoff.target == node && key
                    is Singleton && !leader.sessions.contains_key(handoff.source.incarnation)
                ||| handoff.phase == HandoffPhase::ReplacingAuthority && handoff.target == node
            }
        },
        leader.resumable(node).no_duplicates(),
{
    let resumes = |key: SlotKeyModel| leader.resumes_with(key, node);
    lemma_ranked_filter::<PlacementSlotKey>(leader.handoffs.dom(), resumes);
    assert(leader.resumable(node) == ranked::<PlacementSlotKey>(leader.handoffs.dom()).filter(
        resumes,
    ));
}

/// How a handoff goes on: authority is replaced where that is what it waits for; a source that is
/// back while its slot is stopping is told again to stop, over its connection and at the version of
/// the slot; and where another is back while the slot is stopping, the source is taken for gone if
/// no claim is stored. Nothing is done otherwise.
pub proof fn law_handoffs_go_on_where_they_stood(
    leader: LeaderModel,
    key: SlotKeyModel,
    node: NodeModel,
    slot: Option<SlotModel>,
    claim: Option<ClaimModel>,
)
    requires
        leader.handoffs.contains_key(key),
    ensures
        ({
            let handoff = leader.handoffs[key];
            let result = leader.resumption(key, node, slot, claim);
            let drains = handoff.phase == HandoffPhase::Draining;
            let stopping = drains && slot is Some && slot->0.state == PlacementSlotState::Stopping;
            let connected = leader.sessions.contains_key(node.incarnation);
            &&& result == Ok::<_, RuntimeErrorModel>(ResumeModel::ReplaceAuthority)
                <==> handoff.phase == HandoffPhase::ReplacingAuthority
            &&& result == Err::<ResumeModel, _>(RuntimeErrorModel::UnknownSlot) <==> drains
                && slot is None
            &&& result == Err::<ResumeModel, _>(RuntimeErrorModel::UnknownSession) <==> stopping
                && handoff.source == node && !connected
            &&& stopping && handoff.source == node && connected ==> result == Ok::<
                _,
                RuntimeErrorModel,
            >(
                ResumeModel::SendDrain {
                    association: leader.sessions[node.incarnation].association,
                    generation: handoff.source_generation,
                    version: slot->0.version,
                },
            )
            &&& stopping && handoff.source != node && claim is None ==> result == Ok::<
                _,
                RuntimeErrorModel,
            >(
                ResumeModel::Transition(
                    HandoffEventModel::SourceAuthorityInvalid {
                        source: handoff.source,
                        generation: handoff.source_generation,
                    },
                ),
            )
            &&& stopping && handoff.source != node && claim is Some ==> result == Ok::<
                _,
                RuntimeErrorModel,
            >(ResumeModel::Nothing)
            &&& handoff.phase != HandoffPhase::ReplacingAuthority && !stopping && !(drains && slot
                is None) ==> result == Ok::<_, RuntimeErrorModel>(ResumeModel::Nothing)
        }),
{
}

} // verus!
