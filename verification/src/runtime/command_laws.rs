//! What the commands of members come to, stated over what a leader knows and what it answers.
use vstd::prelude::*;

use crate::ranking::SessionShard;
use crate::runtime::control::{
    CommandModel, ControlModel, Controlled, EventModel, MemberRemovalReason, ScopeModel,
};
use crate::runtime::errors::RuntimeErrorModel;
use crate::runtime::handoff::{HandoffEventModel, HandoffPhase};
use crate::runtime::members::{AssociationModel, HelloModel, MembershipVersion, SessionModel};
use crate::runtime::state::LeaderModel;
use crate::sorted::{lemma_ranked_filter, lemma_ranked_lists, ranked};
use crate::time::TimeSpan;
use crate::types::{
    AssignmentGeneration, NodeIncarnation, NodeModel, PlacementSlotKey, ShardId, SlotKeyModel,
    VersionModel,
};

verus! {

/// What a leader makes of a command: the leader of a domain where the command is for that domain,
/// or else the leader of a cluster.
pub open spec fn commanded(
    leader: LeaderModel,
    of_domain: bool,
    association: AssociationModel,
    command: CommandModel,
    now: TimeSpan,
) -> Controlled {
    let scope = ScopeModel::Placement(leader.version.domain);
    let event = EventModel::Command { association, scope, command };
    if of_domain {
        leader.domain_controlled(event, now)
    } else {
        leader.controlled(event, now)
    }
}

/// A member that reports an applied version reaches every barrier that waits for it, and no other:
/// the handoffs that are told are those that are invalidating, require the member, and have a
/// barrier version of the same domain that the reported one is not behind.
pub proof fn law_applied_versions_reach_the_waiting_barriers(
    leader: LeaderModel,
    of_domain: bool,
    association: AssociationModel,
    version: VersionModel,
    now: TimeSpan,
)
    requires
        leader.handoffs.dom().finite(),
        leader.sessions.contains_key(association.remote_incarnation),
    ensures
        ({
            let remote = association.remote_incarnation;
            let answer = commanded(
                leader,
                of_domain,
                association,
                CommandModel::AppliedRevision(version),
                now,
            ).1;
            &&& answer is Ok
            &&& answer->Ok_0 is Transition
            &&& answer->Ok_0->Transition_event == HandoffEventModel::AppliedRevision {
                session: remote,
                version,
            }
            &&& answer->Ok_0->Transition_keys.no_duplicates()
            &&& forall|key: SlotKeyModel| #[trigger]
                answer->Ok_0->Transition_keys.contains(key) <==> {
                    let handoff = leader.handoffs[key];
                    &&& leader.handoffs.contains_key(key)
                    &&& handoff.phase == HandoffPhase::Invalidating
                    &&& handoff.required_sessions.contains(remote)
                    &&& handoff.barrier_version.domain == version.domain
                    &&& handoff.barrier_version.term.0 < version.term.0 || (
                    handoff.barrier_version.term.0 == version.term.0
                        && handoff.barrier_version.revision.0 <= version.revision.0)
                }
        }),
{
    let remote = association.remote_incarnation;
    lemma_ranked_filter::<PlacementSlotKey>(
        leader.handoffs.dom(),
        |key: SlotKeyModel| leader.handoffs[key].awaits(remote, version),
    );
    assert forall|key: SlotKeyModel| #[trigger]
        leader.awaiting(remote, version).contains(key) <==> leader.handoffs.contains_key(key)
            && leader.handoffs[key].awaits(remote, version) by {
        assert(leader.handoffs.dom().contains(key) <==> leader.handoffs.contains_key(key));
    }
}

/// Of the versions of a domain that a member reports the latest is kept, in whatever order they
/// come, and nothing else of the leader changes.
pub proof fn law_the_latest_applied_version_is_kept(
    leader: LeaderModel,
    of_domain: bool,
    association: AssociationModel,
    version: VersionModel,
    now: TimeSpan,
)
    requires
        leader.sessions.contains_key(association.remote_incarnation),
        leader.sessions[association.remote_incarnation].applied_version matches Some(applied)
            ==> applied.domain == version.domain,
    ensures
        ({
            let remote = association.remote_incarnation;
            let before = leader.sessions[remote];
            let command = CommandModel::AppliedRevision(version);
            let after = commanded(leader, of_domain, association, command, now).0;
            let kept = after.sessions[remote].applied_version;
            &&& kept is Some
            &&& kept == Some(version) || kept == before.applied_version
            &&& kept->0.term.0 > version.term.0 || (kept->0.term.0 == version.term.0
                && kept->0.revision.0 >= version.revision.0)
            &&& before.applied_version matches Some(applied) ==> kept->0.term.0 > applied.term.0
                || (kept->0.term.0 == applied.term.0 && kept->0.revision.0 >= applied.revision.0)
            &&& after == (LeaderModel {
                sessions: leader.sessions.insert(
                    remote,
                    SessionModel { applied_version: kept, ..before },
                ),
                ..leader
            })
        }),
{
    let remote = association.remote_incarnation;
    let before = leader.sessions[remote];
    let command = CommandModel::AppliedRevision(version);
    let after = commanded(leader, of_domain, association, command, now).0;
    let kept = after.sessions[remote].applied_version;
    assert(after.sessions =~= leader.sessions.insert(
        remote,
        SessionModel { applied_version: kept, ..before },
    ));
}

/// A heartbeat counts exactly when it is the sender's own, is numbered above all that came before,
/// and comes from a member with a session: then its time is kept and the lease of the session is
/// renewed. Any other leaves the leader as it is, and one that is not the sender's own, or has no
/// number, is refused.
pub proof fn law_heartbeats_count_once(
    leader: LeaderModel,
    of_domain: bool,
    association: AssociationModel,
    incarnation: NodeIncarnation,
    sequence: u64,
    now: TimeSpan,
)
    ensures
        ({
            let remote = association.remote_incarnation;
            let before = leader.sessions[remote];
            let command = CommandModel::NodeHeartbeat { incarnation, sequence };
            let (after, answer) = commanded(leader, of_domain, association, command, now);
            let known = leader.sessions.contains_key(remote);
            let own = incarnation == remote && sequence > 0;
            &&& answer is Ok <==> own && known
            &&& !own ==> answer == Err::<ControlModel, _>(RuntimeErrorModel::UnauthorizedCommand)
            &&& own && !known ==> answer == Err::<ControlModel, _>(
                RuntimeErrorModel::UnknownSession,
            )
            &&& own && known && sequence > before.heartbeat_sequence ==> {
                &&& answer->Ok_0 == ControlModel::KeepLease { lease_id: before.lease_id }
                &&& after.sessions.dom() == leader.sessions.dom()
                &&& after.sessions[remote].last_heartbeat == now
                &&& after.sessions[remote].heartbeat_sequence == sequence
                &&& after.sessions[remote].hello == before.hello
                &&& after.sessions[remote].applied_version == before.applied_version
                &&& commanded(after, of_domain, association, command, now) == (
                    after,
                    Ok::<ControlModel, RuntimeErrorModel>(ControlModel::Nothing),
                )
            }
            &&& !(own && known && sequence > before.heartbeat_sequence) ==> after == leader
        }),
{
    let remote = association.remote_incarnation;
    let command = CommandModel::NodeHeartbeat { incarnation, sequence };
    let after = commanded(leader, of_domain, association, command, now).0;
    if leader.sessions.contains_key(remote) {
        assert(after.sessions.dom() =~= leader.sessions.dom());
    }
}

/// What a source or a target says of a slot is told to the handoff of that slot and to no other,
/// in the name of the node that said it; a target that is ready without a handoff is the first
/// owner of the slot.
pub proof fn law_handoffs_are_told_by_those_they_concern(
    leader: LeaderModel,
    of_domain: bool,
    association: AssociationModel,
    slot: SlotKeyModel,
    generation: AssignmentGeneration,
    now: TimeSpan,
)
    ensures
        ({
            let remote = association.remote_incarnation;
            let node = leader.sessions[remote].hello.node;
            let drained = commanded(
                leader,
                of_domain,
                association,
                CommandModel::SlotDrained { slot, generation },
                now,
            );
            let failed = commanded(
                leader,
                of_domain,
                association,
                CommandModel::SlotStopFailed { slot, generation },
                now,
            );
            let ready = commanded(
                leader,
                of_domain,
                association,
                CommandModel::SlotReady { slot, generation },
                now,
            );
            let unknown = Err::<ControlModel, _>(RuntimeErrorModel::UnknownSession);
            &&& drained.0 == leader && failed.0 == leader && ready.0 == leader
            &&& !leader.sessions.contains_key(remote) ==> drained.1 == unknown && failed.1
                == unknown && ready.1 == unknown
            &&& leader.sessions.contains_key(remote) ==> {
                &&& drained.1 is Ok && failed.1 is Ok && ready.1 is Ok
                &&& drained.1->Ok_0 is Transition && failed.1->Ok_0 is Transition
                &&& drained.1->Ok_0->Transition_keys == seq![slot]
                &&& failed.1->Ok_0->Transition_keys == seq![slot]
                &&& drained.1->Ok_0->Transition_event == HandoffEventModel::SourceDrained {
                    source: node,
                    generation,
                }
                &&& failed.1->Ok_0->Transition_event == HandoffEventModel::SourceStopFailed {
                    source: node,
                    generation,
                }
                &&& leader.handoffs.contains_key(slot) ==> ready.1->Ok_0
                    == (ControlModel::Transition {
                    keys: seq![slot],
                    event: HandoffEventModel::TargetReady { target: node, generation },
                })
                &&& !leader.handoffs.contains_key(slot) ==> ready.1->Ok_0
                    == (ControlModel::CompleteInitialReady { slot, owner: node, generation })
            }
        }),
{
}

/// A load is taken in exactly when the node that it is of is the one that reports it, and under the
/// session of that node.
pub proof fn law_nodes_report_their_own_load(
    leader: LeaderModel,
    of_domain: bool,
    association: AssociationModel,
    node: NodeModel,
    entity_type: Seq<char>,
    shard_id: ShardId,
    now: TimeSpan,
)
    ensures
        ({
            let remote = association.remote_incarnation;
            let whole = commanded(
                leader,
                of_domain,
                association,
                CommandModel::NodeLoad { node },
                now,
            );
            let part = commanded(
                leader,
                of_domain,
                association,
                CommandModel::ShardLoad { node, entity_type, shard_id },
                now,
            );
            let own = leader.sessions.contains_key(remote) && leader.sessions[remote].hello.node
                == node;
            &&& whole.0 == leader && part.0 == leader
            &&& whole.1 is Ok <==> own
            &&& part.1 is Ok <==> own
            &&& own ==> whole.1->Ok_0 == (ControlModel::ReportNodeLoad { session: remote })
            &&& own ==> part.1->Ok_0 == (ControlModel::ReportShardLoad {
                shard: SessionShard { session: remote, entity_type, shard_id },
            })
            &&& !own ==> whole.1->Err_0 == RuntimeErrorModel::UnauthorizedCommand && part.1->Err_0
                == RuntimeErrorModel::UnauthorizedCommand
        }),
{
}

/// A member that subscribes declares what it declared before and what it subscribes to: it is shown
/// the latter from then on. The leader of a cluster keeps that at once and sends a snapshot to the
/// connection of the session; the leader of a domain has it stored first.
pub proof fn law_subscriptions_widen_a_hello(
    leader: LeaderModel,
    association: AssociationModel,
    name: Seq<char>,
    of_singleton: bool,
    now: TimeSpan,
)
    requires
        leader.sessions.contains_key(association.remote_incarnation),
    ensures
        ({
            let remote = association.remote_incarnation;
            let session = leader.sessions[remote];
            let command = if of_singleton {
                CommandModel::SubscribeSingleton(name)
            } else {
                CommandModel::SubscribeEntity(name)
            };
            let kept = commanded(leader, false, association, command, now);
            let stored = commanded(leader, true, association, command, now);
            let hello = kept.0.sessions[remote].hello;
            &&& kept.1 == Ok::<_, RuntimeErrorModel>(
                ControlModel::SendSnapshot { hello, association: session.association },
            )
            &&& stored.1 == Ok::<_, RuntimeErrorModel>(ControlModel::PersistHello { hello })
            &&& stored.0 == leader
            &&& of_singleton ==> hello == (HelloModel {
                used_singletons: hello.used_singletons,
                ..session.hello
            }) && forall|kind: Seq<char>| #[trigger]
                hello.used_singletons.contains(kind) <==> kind == name
                    || session.hello.used_singletons.contains(kind)
            &&& !of_singleton ==> hello == (HelloModel {
                proxied_entity_types: hello.proxied_entity_types,
                ..session.hello
            }) && forall|kind: Seq<char>| #[trigger]
                hello.proxied_entity_types.contains(kind) <==> kind == name
                    || session.hello.proxied_entity_types.contains(kind)
        }),
{
}

/// A member may ask for the placement of a shard exactly when it hosts or reaches the entities of
/// the type, and for that of a singleton exactly when it may host or uses it; the answer goes to
/// the connection of its session.
pub proof fn law_members_resolve_what_concerns_them(
    leader: LeaderModel,
    of_domain: bool,
    association: AssociationModel,
    entity_type: Seq<char>,
    shard_id: ShardId,
    kind: Seq<char>,
    now: TimeSpan,
)
    requires
        leader.sessions.contains_key(association.remote_incarnation),
    ensures
        ({
            let session = leader.sessions[association.remote_incarnation];
            let hello = session.hello;
            let domain = leader.version.domain;
            let shard = commanded(
                leader,
                of_domain,
                association,
                CommandModel::ResolveShard { domain, entity_type, shard_id },
                now,
            );
            let singleton = commanded(
                leader,
                of_domain,
                association,
                CommandModel::ResolveSingleton { domain, kind },
                now,
            );
            &&& shard.0 == leader && singleton.0 == leader
            &&& shard.1 is Ok <==> hello.hosted_entity_types.contains(entity_type)
                || hello.proxied_entity_types.contains(entity_type)
            &&& shard.1 is Ok ==> shard.1->Ok_0 == (ControlModel::EnsureShard {
                entity_type,
                shard_id,
                hello,
                association: session.association,
            })
            &&& singleton.1 is Ok <==> hello.singleton_eligibility.contains(kind)
                || hello.used_singletons.contains(kind)
            &&& singleton.1 is Ok ==> singleton.1->Ok_0 == (ControlModel::EnsureSingleton {
                kind,
                hello,
                association: session.association,
            })
            &&& shard.1 is Err ==> shard.1->Err_0 == RuntimeErrorModel::UnauthorizedCommand
            &&& singleton.1 is Err ==> singleton.1->Err_0
                == RuntimeErrorModel::UnauthorizedCommand
        }),
{
}

/// A member of a cluster that asks to be drained takes nothing new from then on, and each entity
/// type that it hosts is moved elsewhere, once.
pub proof fn law_a_draining_member_gives_up_what_it_hosts(
    leader: LeaderModel,
    association: AssociationModel,
    operation_id: Seq<char>,
    expected_incarnation: NodeIncarnation,
    now: TimeSpan,
)
    requires
        leader.sessions.contains_key(association.remote_incarnation),
        leader.sessions[association.remote_incarnation].hello.hosted_entity_types.finite(),
    ensures
        ({
            let remote = association.remote_incarnation;
            let session = leader.sessions[remote];
            let command = CommandModel::BeginDrain { operation_id, expected_incarnation };
            let (after, answer) = commanded(leader, false, association, command, now);
            &&& after.sessions[remote].draining
            &&& after.sessions[remote].hello == session.hello
            &&& after.sessions.dom() == leader.sessions.dom()
            &&& answer is Ok && answer->Ok_0 is EvaluateDrain
            &&& answer->Ok_0->EvaluateDrain_node == session.hello.node
            &&& answer->Ok_0->EvaluateDrain_entity_types.no_duplicates()
            &&& forall|entity_type: Seq<char>| #[trigger]
                answer->Ok_0->EvaluateDrain_entity_types.contains(entity_type)
                    <==> session.hello.hosted_entity_types.contains(entity_type)
        }),
{
    let remote = association.remote_incarnation;
    let session = leader.sessions[remote];
    let command = CommandModel::BeginDrain { operation_id, expected_incarnation };
    let after = commanded(leader, false, association, command, now).0;
    assert(after.sessions.dom() =~= leader.sessions.dom());
    let hosted = session.hello.hosted_entity_types;
    lemma_ranked_lists::<String>(hosted);
    let list = ranked::<String>(hosted);
    assert forall|entity_type: Seq<char>| #[trigger]
        list.contains(entity_type) <==> hosted.contains(entity_type) by {
        assert(list.to_set().contains(entity_type) <==> list.contains(entity_type));
    }
}

/// The leader of a domain hands on what members say of joining, of leaving and of being drained, in
/// the name of the connection that it came over.
pub proof fn law_domain_members_join_and_leave_under_their_own_name(
    leader: LeaderModel,
    association: AssociationModel,
    hello: HelloModel,
    snapshot_version: MembershipVersion,
    operation_id: Seq<char>,
    expected_incarnation: NodeIncarnation,
    now: TimeSpan,
)
    ensures
        ({
            let remote = association.remote_incarnation;
            let act = |command: CommandModel| commanded(leader, true, association, command, now);
            &&& act(CommandModel::PlacementDomainHello(hello)) == (
                leader,
                Ok::<_, RuntimeErrorModel>(ControlModel::Register { hello, association }),
            )
            &&& act(CommandModel::JoinReady { snapshot_version }) == (
                leader,
                Ok::<_, RuntimeErrorModel>(
                    ControlModel::MarkMemberUp {
                        incarnation: remote,
                        snapshot_version,
                        association,
                    },
                ),
            )
            &&& act(CommandModel::BeginDrain { operation_id, expected_incarnation }) == (
                leader,
                Ok::<_, RuntimeErrorModel>(
                    ControlModel::BeginMemberDrain {
                        session: remote,
                        operation_id,
                        expected_incarnation,
                    },
                ),
            )
            &&& act(CommandModel::DrainComplete { operation_id, expected_incarnation }) == (
                leader,
                Ok::<_, RuntimeErrorModel>(
                    ControlModel::CompleteMemberDrain {
                        session: remote,
                        operation_id,
                        expected_incarnation,
                    },
                ),
            )
            &&& commanded(leader, false, association, CommandModel::NodeHello(hello), now) == (
                leader,
                Ok::<_, RuntimeErrorModel>(ControlModel::Register { hello, association }),
            )
        }),
{
}

/// The leader of a domain takes commands for its own domain only, and asks for nothing of another;
/// neither leader takes what only a coordinator sends.
pub proof fn law_foreign_commands_are_refused(
    leader: LeaderModel,
    association: AssociationModel,
    scope: ScopeModel,
    command: CommandModel,
    domain: Seq<char>,
    entity_type: Seq<char>,
    shard_id: ShardId,
    kind: Seq<char>,
    now: TimeSpan,
)
    ensures
        ({
            let refused = (
                leader,
                Err::<ControlModel, _>(RuntimeErrorModel::UnauthorizedCommand),
            );
            &&& scope != ScopeModel::Placement(leader.version.domain)
                ==> leader.domain_controlled(
                EventModel::Command { association, scope, command },
                now,
            ) == refused
            &&& domain != leader.version.domain ==> commanded(
                leader,
                true,
                association,
                CommandModel::ResolveShard { domain, entity_type, shard_id },
                now,
            ) == refused
            &&& domain != leader.version.domain ==> commanded(
                leader,
                true,
                association,
                CommandModel::ResolveSingleton { domain, kind },
                now,
            ) == refused
            &&& commanded(leader, true, association, CommandModel::Other, now) == refused
            &&& commanded(leader, false, association, CommandModel::Other, now) == refused
            &&& commanded(leader, true, association, CommandModel::MemberHello, now) == refused
            &&& commanded(leader, false, association, CommandModel::MemberHello, now) == refused
        }),
{
}

/// A member that was removed from the cluster is removed from a domain, and a connection with a gap
/// is sent a snapshot if it has a session: of what the session declares, to that connection.
pub proof fn law_domains_follow_the_cluster(
    leader: LeaderModel,
    node: NodeModel,
    reason: MemberRemovalReason,
    association: AssociationModel,
    now: TimeSpan,
)
    ensures
        ({
            let remote = association.remote_incarnation;
            let gap = EventModel::Reconcile { association };
            let gone = EventModel::GlobalMemberRemoved { node, reason };
            let (after, answer) = leader.domain_controlled(gap, now);
            let snapshot = if leader.sessions.contains_key(remote) {
                ControlModel::SendSnapshot { hello: leader.sessions[remote].hello, association }
            } else {
                ControlModel::Nothing
            };
            &&& leader.domain_controlled(gone, now) == (
                leader,
                Ok::<_, RuntimeErrorModel>(ControlModel::RemoveMember { node, reason }),
            )
            &&& leader.controlled(gone, now).1 is Err
            &&& answer == Ok::<_, RuntimeErrorModel>(snapshot)
            &&& after.reconciliation_focused
            &&& after.sessions == leader.sessions
            &&& leader.controlled(gap, now) == (leader, Ok::<_, RuntimeErrorModel>(snapshot))
        }),
{
}

/// One who has no session is told so, whatever is reported, subscribed to, asked for or resolved; but a
/// load that is not the sender's own, and a heartbeat in another's name or without a number, are not
/// authorized.
pub proof fn law_strangers_are_unknown(
    leader: LeaderModel,
    of_domain: bool,
    association: AssociationModel,
    command: CommandModel,
    now: TimeSpan,
)
    requires
        !leader.sessions.contains_key(association.remote_incarnation),
    ensures
        ({
            let answer = commanded(leader, of_domain, association, command, now).1;
            let unknown = Err::<ControlModel, RuntimeErrorModel>(RuntimeErrorModel::UnknownSession);
            let unauthorized = Err::<ControlModel, RuntimeErrorModel>(
                RuntimeErrorModel::UnauthorizedCommand,
            );
            let domain = leader.version.domain;
            match command {
                CommandModel::AppliedRevision(_) => answer == unknown,
                CommandModel::SubscribeEntity(_) => answer == unknown,
                CommandModel::SubscribeSingleton(_) => answer == unknown,
                CommandModel::SlotDrained { .. } => answer == unknown,
                CommandModel::SlotStopFailed { .. } => answer == unknown,
                CommandModel::SlotReady { .. } => answer == unknown,
                CommandModel::ResolveShard { domain: asked, .. } => answer == if of_domain && asked
                    != domain {
                    unauthorized
                } else {
                    unknown
                },
                CommandModel::ResolveSingleton { domain: asked, .. } => answer == if of_domain
                    && asked != domain {
                    unauthorized
                } else {
                    unknown
                },
                CommandModel::BeginDrain { .. } => !of_domain ==> answer == unknown,
                CommandModel::DrainComplete { .. } => !of_domain ==> answer == unknown,
                CommandModel::NodeHeartbeat { incarnation, sequence } => answer == if incarnation
                    == association.remote_incarnation && sequence > 0 {
                    unknown
                } else {
                    unauthorized
                },
                CommandModel::NodeLoad { .. } => answer == unauthorized,
                CommandModel::ShardLoad { .. } => answer == unauthorized,
                _ => true,
            }
        }),
{
}

/// A command that is refused leaves the leader as it was.
pub proof fn law_refused_commands_change_nothing(
    leader: LeaderModel,
    of_domain: bool,
    association: AssociationModel,
    command: CommandModel,
    now: TimeSpan,
)
    ensures
        ({
            let (after, answer) = commanded(leader, of_domain, association, command, now);
            answer is Err ==> after == leader
        }),
{
}

} // verus!
