//! What a host stands for, where it sends what reaches it, and whom it tells.
use vstd::prelude::*;
use vstd::utf8::encode_utf8;

use crate::ranking::PolicyModel;
use crate::runtime::control::{CoordinatorScope, MemberRemovalReason, ScopeModel};
use crate::runtime::errors::{ControlDispatchError, ControlRetryReason, RuntimeErrorModel};
use crate::runtime::host::drain::{
    DrainModel, DrainProgress, DrainReply, DrainRequest, DrainStage,
};
use crate::runtime::host::member_fanout::{is_globally_up, MemberDelivery, SnapshotStep};
use crate::runtime::host::routing::{
    join_step, removal_fault, renewable_lease, Delivery, DrainStep, HostActionModel,
    HostCommandModel, HostEventModel, JoinStep,
};
use crate::runtime::host::{
    built_in_policy, elected, CoordinatorHostConfig, CoordinatorHostScopeState, HostModel,
    HostedModel, LeaderRecordModel, ScopeStateModel, BUILT_IN_STRATEGY,
};
use crate::runtime::members::{
    AssociationModel, MemberHelloModel, MemberStatus, MembershipVersion, RecordModel,
};
use crate::sorted::{lemma_ranked_filter, lemma_ranked_lists, ranked};
use crate::types::{NodeIncarnation, NodeModel, PlacementDomainId};

verus! {

/// A host can run so many domains exactly when they are no more than it may have, it may have some,
/// nothing of it is of no size or length, and no candidate waits as long as a lease lives.
pub proof fn law_hosts_serve_what_they_may(config: CoordinatorHostConfig, domains: nat)
    ensures
        config.serves(domains) <==> {
            &&& domains <= config.maximum_domains
            &&& config.maximum_domains > 0
            &&& config.control_capacity_per_domain > 0
            &&& config.renewal_interval.length() > 0
            &&& config.election_interval.length() > 0
            &&& config.member_reconciliation_interval.length() > 0
            &&& config.maximum_candidate_jitter.length()
                < config.membership.leader_lease_ttl.length()
            &&& config.maximum_candidate_jitter.length() < config.placement.leader_lease_ttl.length()
        },
{
}

/// A leader has every strategy of its host, and the built-in one where the host has none for its
/// policy.
pub proof fn law_hosts_hand_their_strategies_on(
    config: CoordinatorHostConfig,
    policy: PolicyModel,
)
    ensures
        ({
            let strategies = config.leader_strategies();
            let own = config.allocation_strategies@;
            &&& strategies.contains_key(policy) <==> own.contains_key(policy) || policy
                == built_in_policy()
            &&& own.contains_key(policy) ==> strategies[policy] == own[policy]
            &&& !own.contains_key(built_in_policy()) ==> strategies[built_in_policy()]
                == BUILT_IN_STRATEGY
        }),
{
}

/// Whoever is elected leads, whoever is not stands by, and any other failure is reported.
pub proof fn law_elections_have_three_outcomes(
    result: Result<LeaderRecordModel, RuntimeErrorModel>,
)
    ensures
        result matches Ok(record) ==> elected(result) == Ok::<_, RuntimeErrorModel>(
            ScopeStateModel::Active(record),
        ),
        result == Err::<LeaderRecordModel, _>(RuntimeErrorModel::NotLeader) ==> elected(result)
            == Ok::<_, RuntimeErrorModel>(ScopeStateModel::Standby),
        result is Err && result->Err_0 != RuntimeErrorModel::NotLeader ==> elected(result) == Err::<
            ScopeStateModel,
            _,
        >(result->Err_0),
{
}

/// A host that has not stood for anything leads nothing, runs nothing and knows no one.
pub proof fn law_hosts_begin_with_nothing(node: NodeModel, domain: Seq<char>, id: NodeIncarnation)
    ensures
        ({
            let host = HostModel::fresh(node);
            &&& host.node == node
            &&& host.membership_version is None
            &&& host.membership_state is Standby
            &&& !host.domains.contains_key(domain)
            &&& !host.campaigning.contains(domain)
            &&& !host.reconciling_domains.contains(domain)
            &&& !host.pending_member_hellos.contains_key(id)
            &&& !host.membership_associations.contains_key(id)
            &&& host.snapshotting_associations.len() == 0
            &&& host.pending_snapshot_replays.len() == 0
        }),
{
}

/// Where a host stands in a scope: in the membership always somewhere, in a domain only if it has it.
/// It leads under a term exactly where it is active; and a leader runs exactly where the domain says
/// so.
pub proof fn law_hosts_know_where_they_stand(host: HostModel, domain: Seq<char>)
    ensures
        host.scope_state(CoordinatorScope::Membership) == Some(host.membership_state),
        host.domains.contains_key(domain) ==> host.scope_state(CoordinatorScope::Placement(domain))
            == Some(host.domains[domain].state),
        !host.domains.contains_key(domain) ==> host.scope_state(
            CoordinatorScope::Placement(domain),
        ) is None,
        host.membership_state matches CoordinatorHostScopeState::Active(record)
            ==> host.active_term(CoordinatorScope::Membership) == Some(record.term.0),
        !(host.membership_state is Active) ==> host.active_term(CoordinatorScope::Membership)
            is None,
        host.active_term(CoordinatorScope::Placement(domain)) is Some <==> host.domains.contains_key(
            domain,
        ) && host.domains[domain].state is Active,
        host.domains.contains_key(domain) && host.domains[domain].state is Active
            ==> host.active_term(CoordinatorScope::Placement(domain)) == Some(
            host.domains[domain].state->Active_0.term.0,
        ),
        host.runs(domain) <==> host.domains.contains_key(domain) && host.domains[domain].running,
{
}

/// A campaign for a domain is over with its result: the leader runs exactly if it was elected, the
/// domain stands by if another was, and has failed otherwise. No other domain changes.
pub proof fn law_campaigns_end_with_their_result(
    host: HostModel,
    domain: Seq<char>,
    result: Result<LeaderRecordModel, RuntimeErrorModel>,
    other: Seq<char>,
)
    ensures
        ({
            let after = host.after_campaign(domain, result);
            &&& after.campaigning.contains(other) <==> host.campaigning.contains(other) && other
                != domain
            &&& host.domains.contains_key(domain) ==> {
                let hosted = after.domains[domain];
                &&& after.domains.contains_key(domain)
                &&& hosted.running <==> result is Ok
                &&& result matches Ok(record) ==> hosted.state == ScopeStateModel::Active(record)
                &&& result == Err::<LeaderRecordModel, _>(RuntimeErrorModel::NotLeader)
                    ==> hosted.state is Standby
                &&& result is Err && result->Err_0 != RuntimeErrorModel::NotLeader ==> hosted.state
                    is Failed
                &&& hosted.stream_id == host.domains[domain].stream_id
            }
            &&& !host.domains.contains_key(domain) ==> after.domains == host.domains
            &&& other != domain ==> (after.domains.contains_key(other)
                <==> host.domains.contains_key(other)) && after.domains[other]
                == host.domains[other]
            &&& after.membership_state == host.membership_state
            &&& after.membership_version == host.membership_version
            &&& after.reconciling_domains == host.reconciling_domains
            &&& after.pending_member_hellos == host.pending_member_hellos
            &&& after.membership_associations == host.membership_associations
        }),
{
}

/// Whether a leader of a domain of the host is active under a record of a scope.
pub open spec fn leads(
    host: HostModel,
    domain: Seq<char>,
    scope: ScopeModel,
    record: LeaderRecordModel,
) -> bool {
    &&& host.domains.contains_key(domain)
    &&& host.domains[domain].state == ScopeStateModel::Active(record)
    &&& record.scope == scope
}

proof fn lemma_directory(host: HostModel, count: nat)
    requires
        host.domains.dom().finite(),
        count <= ranked::<PlacementDomainId>(host.domains.dom()).len(),
    ensures
        ({
            let ids = ranked::<PlacementDomainId>(host.domains.dom());
            &&& forall|scope: ScopeModel| #[trigger]
                host.directory_of(count).contains_key(scope) ==> (scope
                    == CoordinatorScope::<Seq<char>>::Membership && host.membership_state
                    == ScopeStateModel::Active(host.directory_of(count)[scope])) || exists|
                    domain: Seq<char>,
                | #[trigger]
                    leads(host, domain, scope, host.directory_of(count)[scope])
            &&& host.membership_state is Active ==> host.directory_of(count).contains_key(
                CoordinatorScope::Membership,
            )
            &&& forall|i: int|
                0 <= i < count && host.domains[#[trigger] ids[i]].state is Active
                    ==> host.directory_of(count).contains_key(
                    host.domains[ids[i]].state->Active_0.scope,
                )
        }),
    decreases count,
{
    let ids = ranked::<PlacementDomainId>(host.domains.dom());
    if count > 0 {
        lemma_directory(host, (count - 1) as nat);
        lemma_ranked_lists::<PlacementDomainId>(host.domains.dom());
        let domain = ids[count - 1];
        assert(ids.to_set().contains(domain));
        let rest = host.directory_of((count - 1) as nat);
        let now = host.directory_of(count);
        assert forall|scope: ScopeModel| #[trigger] now.contains_key(scope) implies (scope
            == CoordinatorScope::<Seq<char>>::Membership && host.membership_state
            == ScopeStateModel::Active(now[scope])) || exists|domain: Seq<char>| #[trigger]
            leads(host, domain, scope, now[scope]) by {
            if host.domains[domain].state is Active && scope
                == host.domains[domain].state->Active_0.scope {
                assert(leads(host, domain, scope, now[scope]));
            } else {
                assert(rest.contains_key(scope));
                if exists|d: Seq<char>| #[trigger] leads(host, d, scope, rest[scope]) {
                    let d = choose|d: Seq<char>| #[trigger] leads(host, d, scope, rest[scope]);
                    assert(leads(host, d, scope, now[scope]));
                }
            }
        }
    }
}

/// The directory lists leaders that are active here, each under the scope of its record, and every
/// scope in which a leader is active here is listed.
pub proof fn law_the_directory_lists_active_leaders(
    host: HostModel,
    scope: ScopeModel,
    domain: Seq<char>,
)
    requires
        host.domains.dom().finite(),
    ensures
        host.directory().contains_key(scope) ==> (scope
            == CoordinatorScope::<Seq<char>>::Membership && host.membership_state
            == ScopeStateModel::Active(host.directory()[scope])) || exists|d: Seq<char>| #[trigger]
            leads(host, d, scope, host.directory()[scope]),
        host.membership_state is Active ==> host.directory().contains_key(
            CoordinatorScope::Membership,
        ),
        host.domains.contains_key(domain) && host.domains[domain].state is Active
            ==> host.directory().contains_key(host.domains[domain].state->Active_0.scope),
{
    let ids = ranked::<PlacementDomainId>(host.domains.dom());
    lemma_directory(host, ids.len());
    lemma_ranked_lists::<PlacementDomainId>(host.domains.dom());
    if host.domains.contains_key(domain) {
        assert(ids.to_set().contains(domain));
    }
}

proof fn lemma_active(host: HostModel, count: nat)
    requires
        host.domains.dom().finite(),
        count <= ranked::<PlacementDomainId>(host.domains.dom()).len(),
    ensures
        ({
            let ids = ranked::<PlacementDomainId>(host.domains.dom());
            let active = host.active_of(count);
            &&& forall|i: int|
                0 <= i < count && host.domains[#[trigger] ids[i]].state is Active
                    ==> active.contains((ids[i], host.domains[ids[i]].state->Active_0))
            &&& forall|j: int|
                0 <= j < active.len() ==> host.domains.contains_key((#[trigger] active[j]).0)
                    && host.domains[active[j].0].state == ScopeStateModel::Active(active[j].1)
        }),
    decreases count,
{
    let ids = ranked::<PlacementDomainId>(host.domains.dom());
    if count > 0 {
        lemma_active(host, (count - 1) as nat);
        lemma_ranked_lists::<PlacementDomainId>(host.domains.dom());
        assert(ids.to_set().contains(ids[count - 1]));
        let rest = host.active_of((count - 1) as nat);
        let active = host.active_of(count);
        if host.domains[ids[count - 1]].state is Active {
            assert(active[rest.len() as int] == (
                ids[count - 1],
                host.domains[ids[count - 1]].state->Active_0,
            ));
        }
        assert forall|i: int|
            0 <= i < count && host.domains[#[trigger] ids[i]].state
                is Active implies active.contains(
            (ids[i], host.domains[ids[i]].state->Active_0),
        ) by {
            if i < count - 1 {
                let pair = (ids[i], host.domains[ids[i]].state->Active_0);
                let j = choose|j: int| 0 <= j < rest.len() && rest[j] == pair;
                assert(active[j] == pair);
            }
        }
    }
}

/// The domains that a host leads are exactly those that are active, each with its leader; the ones
/// in which it may stand are exactly those in which no leader of its own runs.
pub proof fn law_hosts_list_their_domains(
    host: HostModel,
    domain: Seq<char>,
    record: LeaderRecordModel,
    gap: Option<u64>,
)
    requires
        host.domains.dom().finite(),
    ensures
        host.active_of(ranked::<PlacementDomainId>(host.domains.dom()).len()).contains(
            (domain, record),
        ) <==> host.domains.contains_key(domain) && host.domains[domain].state
            == ScopeStateModel::Active(record),
        host.inactive().contains(domain) <==> host.domains.contains_key(domain)
            && !host.domains[domain].running,
        host.running().contains(domain) <==> host.domains.contains_key(domain)
            && host.domains[domain].running,
        host.to_reconcile().contains(domain) <==> host.domains.contains_key(domain)
            && host.domains[domain].running && !host.reconciling_domains.contains(domain),
        host.reconciled(gap).contains(domain) <==> host.domains.contains_key(domain)
            && host.domains[domain].running && (gap is None || host.domains[domain].stream_id
            == gap->0),
        host.scope_states().contains_key(CoordinatorScope::Membership),
        host.scope_states()[CoordinatorScope::Membership] == host.membership_state,
        host.scope_states().contains_key(CoordinatorScope::Placement(domain))
            <==> host.domains.contains_key(domain),
        host.domains.contains_key(domain) ==> host.scope_states()[CoordinatorScope::Placement(
            domain,
        )] == host.domains[domain].state,
{
    let ids = ranked::<PlacementDomainId>(host.domains.dom());
    lemma_active(host, ids.len());
    lemma_ranked_lists::<PlacementDomainId>(host.domains.dom());
    if host.domains.contains_key(domain) {
        assert(ids.to_set().contains(domain));
        let i = choose|i: int| 0 <= i < ids.len() && ids[i] == domain;
        assert(host.domains[ids[i]].state == host.domains[domain].state);
    }
    let inactive = |d: Seq<char>| !host.runs(d);
    lemma_ranked_filter::<PlacementDomainId>(host.domains.dom(), inactive);
    assert(host.inactive() == ids.filter(inactive));
    let running = |d: Seq<char>| host.runs(d);
    lemma_ranked_filter::<PlacementDomainId>(host.domains.dom(), running);
    assert(host.running() == ids.filter(running));
    let waiting = |d: Seq<char>| host.runs(d) && !host.reconciling_domains.contains(d);
    lemma_ranked_filter::<PlacementDomainId>(host.domains.dom(), waiting);
    assert(host.to_reconcile() == ids.filter(waiting));
    let gapped = |d: Seq<char>|
        host.runs(d) && match gap {
            Some(stream_id) => host.domains[d].stream_id == stream_id,
            None => true,
        };
    lemma_ranked_filter::<PlacementDomainId>(host.domains.dom(), gapped);
    assert(host.reconciled(gap) == ids.filter(gapped));
}

/// A removal is that of the node at the other end, in the incarnation and under the name that are
/// given, and asks for one thing after the other: to read the member, to have it leave, to remove
/// it, to read the leader and to tell the peer.
pub proof fn law_removals_ask_in_order(
    operation_id: Seq<char>,
    node_id: Seq<char>,
    incarnation: NodeIncarnation,
    association: AssociationModel,
    drain: DrainModel,
)
    ensures
        ({
            let asked = DrainModel::asked_for(operation_id, node_id, incarnation, association);
            &&& asked.operation_id == operation_id
            &&& asked.node.node_id == node_id
            &&& asked.node.incarnation == incarnation
            &&& asked.node.address == association.remote_address
            &&& asked.association == association
            &&& asked.stage is Reading
        }),
        drain.stage is Reading ==> drain.request() == (DrainRequest::ReadMember {
            node_id: drain.node.node_id,
        }),
        drain.stage is Leaving ==> drain.request() == (DrainRequest::BeginLeave {
            node: drain.node,
        }),
        drain.stage is Removing ==> drain.request() == (DrainRequest::Remove {
            node: drain.node,
            reason: MemberRemovalReason::GracefulLeave,
        }),
        drain.stage is Confirming ==> drain.request() is ReadLeader,
        drain.stage matches DrainStage::Committing { coordinator_term } ==> drain.request() == (
        DrainRequest::Commit {
            association: drain.association,
            operation_id: drain.operation_id,
            expected_incarnation: drain.node.incarnation,
            coordinator_term,
        }),
{
}

/// What is left of a removal, by what is stored of the member: nothing if another incarnation of the
/// node is stored or none; otherwise it must be the very node, known under the association that asks,
/// and not joining any more.
pub proof fn law_removals_go_by_what_is_stored(
    host: HostModel,
    node: NodeModel,
    association: AssociationModel,
    stored: Option<RecordModel>,
)
    ensures
        ({
            let step = host.drain_step(node, association, stored);
            let gone = stored is None || stored->0.node.incarnation != node.incarnation;
            let known = stored is Some && stored->0.node == node
                && host.membership_associations.contains_key(node.incarnation)
                && host.membership_associations[node.incarnation] == association;
            &&& step == Ok::<_, RuntimeErrorModel>(DrainStep::AlreadyRemoved) <==> gone
            &&& !gone && !known ==> step == Err::<DrainStep, _>(RuntimeErrorModel::StaleMember)
            &&& !gone && known && stored->0.status == MemberStatus::Joining ==> step == Err::<
                DrainStep,
                _,
            >(RuntimeErrorModel::MemberNotReady)
            &&& !gone && known && stored->0.status == MemberStatus::Up ==> step == Ok::<
                _,
                RuntimeErrorModel,
            >(DrainStep::LeaveAndRemove)
            &&& !gone && known && stored->0.status == MemberStatus::Leaving ==> step == Ok::<
                _,
                RuntimeErrorModel,
            >(DrainStep::Remove)
        }),
{
}

/// A reply takes a removal on by one stage, a failure ends it with its error, and a reply to anything
/// else leaves it standing. The leadership must be confirmed by the very record that is stored.
pub proof fn law_removals_go_on_by_replies(
    host: HostModel,
    drain: DrainModel,
    stored: Option<RecordModel>,
    own: LeaderRecordModel,
    leader: Option<LeaderRecordModel>,
    error: RuntimeErrorModel,
)
    ensures
        host.drained(drain, DrainReply::Failed(error)) == (
            host,
            drain,
            Err::<DrainProgress<Seq<char>>, RuntimeErrorModel>(error),
        ),
        drain.stage is Reading ==> {
            let (after, next, progress) = host.drained(drain, DrainReply::Member(stored));
            let step = host.drain_step(drain.node, drain.association, stored);
            &&& step is Err ==> progress == Err::<DrainProgress<Seq<char>>, _>(step->Err_0)
                && next == drain && after == host
            &&& step is Ok ==> progress == Ok::<_, RuntimeErrorModel>(
                DrainProgress::Ask(next.request()),
            )
            &&& step is Ok && step->Ok_0 is LeaveAndRemove ==> next.stage is Leaving && after
                == host
            &&& step is Ok && step->Ok_0 is Remove ==> next.stage is Removing && after == host
            &&& step is Ok && step->Ok_0 is AlreadyRemoved ==> next.stage is Confirming
                && !after.membership_associations.contains_key(drain.node.incarnation)
                && !after.pending_member_hellos.contains_key(drain.node.incarnation)
            &&& next.node == drain.node && next.association == drain.association
                && next.operation_id == drain.operation_id
        },
        drain.stage is Leaving ==> {
            let (after, next, progress) = host.drained(drain, DrainReply::Done);
            &&& after == host
            &&& next == (DrainModel { stage: DrainStage::Removing, ..drain })
            &&& progress == Ok::<_, RuntimeErrorModel>(DrainProgress::Ask(next.request()))
        },
        drain.stage is Removing ==> {
            let (after, next, progress) = host.drained(drain, DrainReply::Done);
            &&& !after.membership_associations.contains_key(drain.node.incarnation)
            &&& !after.pending_member_hellos.contains_key(drain.node.incarnation)
            &&& next == (DrainModel { stage: DrainStage::Confirming, ..drain })
            &&& progress == Ok::<_, RuntimeErrorModel>(DrainProgress::Ask(next.request()))
        },
        drain.stage is Confirming ==> {
            let (after, next, progress) = host.drained(
                drain,
                DrainReply::Leaders { own, stored: leader },
            );
            &&& after == host
            &&& leader == Some(own) ==> next == (DrainModel {
                stage: DrainStage::Committing { coordinator_term: own.term.0 },
                ..drain
            }) && progress == Ok::<_, RuntimeErrorModel>(DrainProgress::Ask(next.request()))
            &&& leader != Some(own) ==> next == drain && progress == Err::<
                DrainProgress<Seq<char>>,
                _,
            >(RuntimeErrorModel::NotLeader)
        },
        drain.stage is Committing ==> host.drained(drain, DrainReply::Done) == (
            host,
            drain,
            Ok::<_, RuntimeErrorModel>(
                DrainProgress::TellDomains {
                    node: drain.node,
                    reason: MemberRemovalReason::GracefulLeave,
                },
            ),
        ),
        drain.stage is Reading || drain.stage is Confirming ==> host.drained(
            drain,
            DrainReply::Done,
        ) == (
            host,
            drain,
            Ok::<_, RuntimeErrorModel>(DrainProgress::<Seq<char>>::Ask(drain.request())),
        ),
{
}

/// Why a removal is not begun: for want of a name of the operation that can be kept, because another
/// incarnation asks or the node is not valid, or because the host does not lead the membership.
pub proof fn law_removals_begin_for_the_node_that_asks(
    host: HostModel,
    operation_id: Seq<char>,
    incarnation: NodeIncarnation,
    valid_node: bool,
    association: AssociationModel,
)
    ensures
        ({
            let proper = 1 <= encode_utf8(operation_id).len() <= 256
                && association.remote_incarnation == incarnation && valid_node;
            let fault = host.drain_fault(operation_id, incarnation, valid_node, association);
            &&& fault is None <==> proper && host.membership_version is Some
            &&& !proper ==> fault == Some(RuntimeErrorModel::StaleMember)
            &&& proper && fault is Some ==> fault == Some(RuntimeErrorModel::NotLeader)
        }),
{
}

/// A snapshot is started only by the leader of the membership and only while none is under way over
/// the association, at the version that it leads at; otherwise another one follows the one under way.
pub proof fn law_snapshots_do_not_overlap(
    host: HostModel,
    association: AssociationModel,
    other: AssociationModel,
)
    ensures
        ({
            let (after, step) = host.snapshot_step(association);
            let under_way = host.snapshotting_associations.contains(association);
            &&& step is NotLeader <==> host.membership_version is None
            &&& step is NotLeader ==> after == host
            &&& step is Follows <==> host.membership_version is Some && under_way
            &&& step is Follows ==> after.pending_snapshot_replays
                == host.pending_snapshot_replays.insert(association)
                && after.snapshotting_associations == host.snapshotting_associations
            &&& host.membership_version is Some && !under_way ==> {
                &&& step == SnapshotStep::Start(host.membership_version->0)
                &&& after.snapshotting_associations == host.snapshotting_associations.insert(
                    association,
                )
                &&& after.pending_snapshot_replays == host.pending_snapshot_replays
            }
            &&& after.membership_associations == host.membership_associations
            &&& after.pending_member_hellos == host.pending_member_hellos
        }),
        ({
            let after = host.snapshot_ended(association);
            &&& after.snapshotting_associations.contains(other) <==> other != association
                && host.snapshotting_associations.contains(other)
            &&& after.pending_snapshot_replays.contains(other) <==> other != association
                && host.pending_snapshot_replays.contains(other)
            &&& after.membership_associations == host.membership_associations
        }),
        ({
            let after = host.broadcasting();
            &&& after.pending_snapshot_replays.contains(other)
                <==> host.pending_snapshot_replays.contains(other) || (
            host.snapshotting_associations.contains(other) && exists|id: NodeIncarnation| #[trigger]
                host.membership_associations.contains_key(id) && host.membership_associations[id]
                    == other)
            &&& after.snapshotting_associations == host.snapshotting_associations
            &&& after.membership_associations == host.membership_associations
        }),
{
    let after = host.broadcasting();
    if host.membership_associations.contains_value(other) {
        let id = choose|id: NodeIncarnation| #[trigger]
            host.membership_associations.contains_key(id) && host.membership_associations[id]
                == other;
        assert(host.membership_associations.contains_key(id));
    }
}

/// An event is sent to exactly the members to which no snapshot is under way. Of those it was sent to,
/// one that is gone is forgotten, one that refused it gets a snapshot, and any to which a snapshot has
/// begun meanwhile gets another one after that.
pub proof fn law_events_reach_members_between_snapshots(
    host: HostModel,
    id: NodeIncarnation,
    association: AssociationModel,
    delivery: MemberDelivery,
)
    requires
        host.membership_associations.dom().finite(),
    ensures
        host.told().contains(id) <==> host.membership_associations.contains_key(id)
            && !host.snapshotting_associations.contains(host.membership_associations[id]),
        ({
            let after = host.after_telling(id, association, delivery);
            let under_way = host.snapshotting_associations.contains(association);
            &&& under_way ==> after.pending_snapshot_replays.contains(association)
                && after.membership_associations == host.membership_associations
                && after.snapshotting_associations == host.snapshotting_associations
            &&& !under_way && delivery == MemberDelivery::Missing ==> after.membership_associations
                == host.membership_associations.remove(id) && after.pending_member_hellos
                == host.pending_member_hellos.remove(id)
            &&& !under_way && delivery == MemberDelivery::Refused ==> {
                &&& after.membership_associations == host.membership_associations
                &&& after.snapshotting_associations.contains(association)
                    <==> host.membership_version is Some
            }
            &&& !under_way && delivery == MemberDelivery::Accepted ==> after == host
        }),
{
    let open = |incarnation: NodeIncarnation|
        !host.snapshotting_associations.contains(host.membership_associations[incarnation]);
    lemma_ranked_filter::<NodeIncarnation>(host.membership_associations.dom(), open);
    assert(host.told() == ranked::<NodeIncarnation>(host.membership_associations.dom()).filter(
        open,
    ));
}

/// A member of a domain is a member of the cluster that is up exactly when the cluster stores the very
/// node as up.
pub proof fn law_domains_hold_members_of_the_cluster(node: NodeModel, stored: Option<RecordModel>)
    ensures
        is_globally_up(node, stored) <==> stored is Some && stored->0.node == node
            && stored->0.status == MemberStatus::Up,
{
}

/// Whether a command comes before its sender can know the term.
pub open spec fn greets(scope: ScopeModel, command: HostCommandModel) -> bool {
    (scope is Membership && command is MemberHello) || (scope is Placement && command
        is PlacementDomainHello)
}

/// Whether a command was sent under the very term under which the host leads its scope.
pub open spec fn is_under_term(host: HostModel, scope: ScopeModel, term: Option<u64>) -> bool {
    &&& term is Some
    &&& host.active_term(scope) == term
}

/// Commands reach whom they are for: greetings under any term and the rest under the term of the
/// leader only. Those for a domain go to its leader, if that runs here, or are to be tried again.
pub proof fn law_commands_reach_their_leader(
    host: HostModel,
    association: AssociationModel,
    scope: ScopeModel,
    term: Option<u64>,
    command: HostCommandModel,
)
    ensures
        ({
            let action = host.route(
                HostEventModel::Command { association, scope, coordinator_term: term, command },
            );
            let heard = greets(scope, command) || is_under_term(host, scope, term);
            &&& !heard ==> action == HostActionModel::Refuse(ControlDispatchError::InvalidCommand)
            &&& heard && scope is Placement && host.domains.contains_key(scope->Placement_0)
                && host.domains[scope->Placement_0].running ==> action == (
            HostActionModel::Forward { domain: scope->Placement_0 })
            &&& heard && scope is Placement && !(host.domains.contains_key(scope->Placement_0)
                && host.domains[scope->Placement_0].running) ==> action == HostActionModel::Refuse(
                ControlDispatchError::RetryLater(ControlRetryReason::AssociationStarting),
            )
            &&& heard && scope is Membership ==> match command {
                HostCommandModel::MemberHello(hello) => action == (HostActionModel::AdmitMember {
                    hello,
                    association,
                }),
                HostCommandModel::NodeHeartbeat { incarnation, sequence } => {
                    let own = incarnation == association.remote_incarnation && sequence > 0
                        && host.pending_member_hellos.contains_key(incarnation);
                    &&& own ==> action == (HostActionModel::RenewMember {
                        hello: host.pending_member_hellos[incarnation],
                    })
                    &&& !own ==> action == HostActionModel::Refuse(
                        ControlDispatchError::InvalidCommand,
                    )
                },
                HostCommandModel::JoinReady { snapshot_version } => action == (
                HostActionModel::CompleteJoin { snapshot_version, association }),
                HostCommandModel::MembershipDrainComplete {
                    operation_id,
                    node_id,
                    expected_incarnation,
                } => action == (HostActionModel::CompleteDrain {
                    operation_id,
                    node_id,
                    expected_incarnation,
                    association,
                }),
                _ => action == HostActionModel::Refuse(ControlDispatchError::InvalidCommand),
            }
        }),
{
}

/// A reconciliation goes to the domains that are concerned, and the removal of a member is no command
/// of a peer.
pub proof fn law_reconciliations_go_to_running_domains(
    host: HostModel,
    association: AssociationModel,
    gap: Option<u64>,
)
    ensures
        host.route(HostEventModel::Reconcile { association, gap }) == (
        HostActionModel::ReconcileDomains { domains: host.reconciled(gap), association, gap }),
        host.route(HostEventModel::GlobalMemberRemoved) == HostActionModel::Refuse(
            ControlDispatchError::InvalidCommand,
        ),
{
}

/// A removal that could not be handed on to a domain ends with why it could not.
pub proof fn law_undelivered_removals_are_faults(delivery: Delivery)
    ensures
        removal_fault(delivery) is None <==> delivery is Accepted,
        delivery is Full ==> removal_fault(delivery) == Some(
            RuntimeErrorModel::ControlBackpressure,
        ),
        delivery is Closed ==> removal_fault(delivery) == Some(RuntimeErrorModel::ControlClosed),
{
}

/// Whether a member is stored as it declares itself.
pub open spec fn is_stored_as_declared(
    stored: Option<RecordModel>,
    hello: MemberHelloModel,
) -> bool {
    &&& stored is Some
    &&& stored->0.node == hello.node
    &&& stored->0.release_id == hello.release_id
    &&& stored->0.protocols == hello.protocols
}

/// A host that does not lead the membership keeps the lease alive of a member exactly if it is stored
/// as it declares itself, and up; a join is completed of one that is joining, once.
pub proof fn law_members_are_held_to_what_they_declare(
    hello: MemberHelloModel,
    stored: Option<RecordModel>,
)
    ensures
        ({
            let declared = is_stored_as_declared(stored, hello);
            let lease = renewable_lease(hello, stored);
            let step = join_step(hello, stored);
            &&& lease is Ok <==> declared && stored->0.status == MemberStatus::Up
            &&& lease matches Ok(id) ==> id == stored->0.lease_id
            &&& lease matches Err(error) ==> error == RuntimeErrorModel::NotLeader
            &&& step == Ok::<_, RuntimeErrorModel>(JoinStep::MarkUp) <==> declared
                && stored->0.status == MemberStatus::Joining
            &&& step == Ok::<_, RuntimeErrorModel>(JoinStep::AlreadyUp) <==> declared
                && stored->0.status == MemberStatus::Up
            &&& step matches Err(error) ==> error == RuntimeErrorModel::StaleMember
        }),
{
}

/// A join is completed of exactly the member that the host knows under the association, by its
/// declaration, while the host leads the membership at what the member has seen or later.
pub proof fn law_joins_complete_under_their_association(
    host: HostModel,
    seen: MembershipVersion,
    association: AssociationModel,
)
    ensures
        ({
            let id = association.remote_incarnation;
            let hello = host.pending_member_hellos[id];
            let known = host.membership_associations.contains_key(id)
                && host.membership_associations[id] == association
                && host.pending_member_hellos.contains_key(id) && hello.node.incarnation == id
                && hello.node.address == association.remote_address;
            let leads = host.membership_version is Some;
            let behind = leads && (host.membership_version->0.term < seen.term || (
            host.membership_version->0.term == seen.term && host.membership_version->0.revision
                < seen.revision));
            let result = host.joining_member(seen, association);
            &&& result is Ok <==> known && leads && !behind
            &&& result matches Ok(member) ==> member == hello
            &&& result == Err::<MemberHelloModel, _>(RuntimeErrorModel::NotLeader) <==> known
                && !leads
            &&& result is Err && !(known && !leads) ==> result == Err::<MemberHelloModel, _>(
                RuntimeErrorModel::StaleMember,
            )
        }),
{
}

/// A member is known by its declaration and its association, under the incarnation at the other end,
/// and once it is forgotten by neither; the others are known as they were.
pub proof fn law_members_are_known_by_their_association(
    host: HostModel,
    hello: MemberHelloModel,
    association: AssociationModel,
    incarnation: NodeIncarnation,
    other: NodeIncarnation,
)
    ensures
        ({
            let after = host.knowing(hello, association);
            let id = association.remote_incarnation;
            &&& after.pending_member_hellos == host.pending_member_hellos.insert(id, hello)
            &&& after.membership_associations == host.membership_associations.insert(
                id,
                association,
            )
            &&& after.domains == host.domains
        }),
        ({
            let after = host.forgetting(incarnation);
            &&& after.pending_member_hellos.contains_key(other) <==> other != incarnation
                && host.pending_member_hellos.contains_key(other)
            &&& after.membership_associations.contains_key(other) <==> other != incarnation
                && host.membership_associations.contains_key(other)
            &&& other != incarnation ==> after.pending_member_hellos[other]
                == host.pending_member_hellos[other] && after.membership_associations[other]
                == host.membership_associations[other]
            &&& after.domains == host.domains
            &&& after.snapshotting_associations == host.snapshotting_associations
        }),
{
}

} // verus!
