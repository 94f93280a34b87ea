//! Which members are welcome, what they bring, and how they take part in a domain.
use vstd::prelude::*;

use crate::region::EntityConfigModel;
use crate::runtime::errors::RuntimeErrorModel;
use crate::runtime::handoff_laws::is_next;
use crate::runtime::members::{
    AssociationModel, DomainMemberStatus, DomainRecordModel, HelloModel, MemberStatus,
    MembershipVersion, RecordModel, SessionModel, SingletonModel,
};
use crate::runtime::placing_laws::has_strategy;
use crate::runtime::registration::{
    joined_session, DomainStepModel, RegisterModel, SynchronizationModel,
};
use crate::runtime::state::LeaderModel;
use crate::sorted::{lemma_ranked_lists, ranked};
use crate::time::{MonotonicTime, TimeSpan};
use crate::types::{NodeIncarnation, VersionModel};

verus! {

/// Whether a hello is that of the node at the other end, and there is room for it.
pub open spec fn is_welcome(
    leader: LeaderModel,
    hello: HelloModel,
    association: AssociationModel,
) -> bool {
    &&& hello.node.incarnation == association.remote_incarnation
    &&& hello.node.address == association.remote_address
    &&& leader.sessions.contains_key(hello.node.incarnation) || leader.sessions.dom().len()
        != leader.config.maximum_sessions
}

/// Whether the configuration of an entity type can be taken up: it is not at odds with one that is
/// known, and its policy has a strategy.
pub open spec fn agrees(leader: LeaderModel, config: EntityConfigModel) -> bool {
    &&& !leader.entity_configs.contains_key(config.entity_type)
        || leader.entity_configs[config.entity_type] == config
    &&& has_strategy(leader, config)
}

/// Whether the configuration of a singleton is not at odds with one that is known.
pub open spec fn agrees_on_singleton(leader: LeaderModel, config: SingletonModel) -> bool {
    !leader.singleton_configs.contains_key(config.kind) || leader.singleton_configs[config.kind]
        == config
}

/// A configuration is refused exactly when it is at odds with one that is known, when its policy has
/// no strategy, or when there is no room for another one.
pub proof fn law_configurations_are_refused_when_at_odds(
    leader: LeaderModel,
    config: EntityConfigModel,
    singleton: SingletonModel,
)
    ensures
        leader.entity_config_fault(config) is None <==> agrees(leader, config),
        leader.entity_config_fault(config) == Some(RuntimeErrorModel::ConfigurationConflict)
            <==> leader.entity_configs.contains_key(config.entity_type)
            && leader.entity_configs[config.entity_type] != config,
        leader.entity_config_fault(config) is Some && leader.entity_config_fault(config) != Some(
            RuntimeErrorModel::ConfigurationConflict,
        ) ==> leader.entity_config_fault(config) == Some(RuntimeErrorModel::UnknownStrategy)
            && !has_strategy(leader, config),
        leader.singleton_config_fault(singleton) is None <==> agrees_on_singleton(
            leader,
            singleton,
        ),
        leader.singleton_config_fault(singleton) is Some ==> leader.singleton_config_fault(
            singleton,
        ) == Some(RuntimeErrorModel::ConfigurationConflict),
        leader.bounded_entity_config_fault(config) is None <==> agrees(leader, config) && (
        leader.entity_configs.contains_key(config.entity_type) || leader.entity_configs.dom().len()
            != leader.limits.maximum_entity_configs),
        leader.bounded_entity_config_fault(config) == Some(RuntimeErrorModel::ConfigurationCapacity)
            <==> !leader.entity_configs.contains_key(config.entity_type)
            && leader.entity_configs.dom().len() == leader.limits.maximum_entity_configs,
        leader.bounded_singleton_config_fault(singleton) is None <==> agrees_on_singleton(
            leader,
            singleton,
        ) && (leader.singleton_configs.contains_key(singleton.kind)
            || leader.singleton_configs.dom().len() != leader.limits.maximum_singleton_configs),
        leader.bounded_singleton_config_fault(singleton) == Some(
            RuntimeErrorModel::ConfigurationCapacity,
        ) <==> !leader.singleton_configs.contains_key(singleton.kind)
            && leader.singleton_configs.dom().len() == leader.limits.maximum_singleton_configs,
{
}

/// Configurations are taken up one after the other, until one is refused: what was known stays, and
/// when all pass each of them is known.
pub proof fn law_configurations_are_taken_up(
    leader: LeaderModel,
    configs: Seq<EntityConfigModel>,
    n: int,
)
    requires
        0 <= n <= configs.len(),
    ensures
        ({
            let (after, fault) = leader.adopting_entities(configs, n);
            &&& after == (LeaderModel { entity_configs: after.entity_configs, ..leader })
            &&& fault is None ==> forall|i: int|
                0 <= i < n ==> after.entity_configs.contains_key(
                    (#[trigger] configs[i]).entity_type,
                ) && after.entity_configs[configs[i].entity_type] == configs[i] && has_strategy(
                    leader,
                    configs[i],
                )
            &&& forall|entity_type: Seq<char>| #[trigger]
                leader.entity_configs.contains_key(entity_type)
                    ==> after.entity_configs.contains_key(entity_type)
                    && after.entity_configs[entity_type] == leader.entity_configs[entity_type]
            &&& forall|entity_type: Seq<char>| #[trigger]
                after.entity_configs.contains_key(entity_type)
                    ==> leader.entity_configs.contains_key(entity_type) || exists|i: int|
                    0 <= i < n && #[trigger] configs[i] == after.entity_configs[entity_type]
            &&& fault is Some ==> exists|i: int|
                0 <= i < n && !#[trigger] agrees(after, configs[i])
        }),
    decreases n,
{
    if n > 0 {
        law_configurations_are_taken_up(leader, configs, n - 1);
        let (before, first) = leader.adopting_entities(configs, n - 1);
        let (after, fault) = leader.adopting_entities(configs, n);
        let config = configs[n - 1];
        assert(before.strategies == leader.strategies);
        if first is Some {
            let i = choose|i: int| 0 <= i < n - 1 && !#[trigger] agrees(before, configs[i]);
            assert(!agrees(after, configs[i]));
        } else if fault is Some {
            assert(!agrees(after, configs[n - 1]));
        } else {
            assert(after.entity_configs[config.entity_type] == config);
            assert forall|entity_type: Seq<char>| #[trigger]
                after.entity_configs.contains_key(
                    entity_type,
                ) implies leader.entity_configs.contains_key(entity_type) || exists|i: int|
                0 <= i < n && #[trigger] configs[i] == after.entity_configs[entity_type] by {
                if !leader.entity_configs.contains_key(entity_type) && entity_type
                    != config.entity_type {
                    assert(before.entity_configs.contains_key(entity_type));
                    let i = choose|i: int|
                        0 <= i < n - 1 && #[trigger] configs[i]
                            == before.entity_configs[entity_type];
                    assert(configs[i] == after.entity_configs[entity_type]);
                } else {
                    assert(configs[n - 1] == config);
                }
            }
        }
    }
}

/// The configurations of singletons are taken up likewise.
pub proof fn law_singleton_configurations_are_taken_up(
    leader: LeaderModel,
    configs: Seq<SingletonModel>,
    n: int,
)
    requires
        0 <= n <= configs.len(),
    ensures
        ({
            let (after, fault) = leader.adopting_singletons(configs, n);
            &&& after == (LeaderModel { singleton_configs: after.singleton_configs, ..leader })
            &&& fault is None ==> forall|i: int|
                0 <= i < n ==> after.singleton_configs.contains_key((#[trigger] configs[i]).kind)
                    && after.singleton_configs[configs[i].kind] == configs[i]
            &&& forall|kind: Seq<char>| #[trigger]
                leader.singleton_configs.contains_key(kind)
                    ==> after.singleton_configs.contains_key(kind) && after.singleton_configs[kind]
                    == leader.singleton_configs[kind]
            &&& fault is Some ==> exists|i: int|
                0 <= i < n && !#[trigger] agrees_on_singleton(after, configs[i])
        }),
    decreases n,
{
    if n > 0 {
        law_singleton_configurations_are_taken_up(leader, configs, n - 1);
        let (before, first) = leader.adopting_singletons(configs, n - 1);
        let (after, fault) = leader.adopting_singletons(configs, n);
        if first is Some {
            let i = choose|i: int|
                0 <= i < n - 1 && !#[trigger] agrees_on_singleton(before, configs[i]);
            assert(!agrees_on_singleton(after, configs[i]));
        } else if fault is Some {
            assert(!agrees_on_singleton(after, configs[n - 1]));
        }
    }
}

/// The first configuration of an entity type that is refused ends the taking up: its fault is told,
/// what came before it is kept, and nothing after it is looked at.
pub proof fn law_a_refused_configuration_ends_the_rest(
    leader: LeaderModel,
    configs: Seq<EntityConfigModel>,
    at: int,
    n: int,
)
    requires
        0 <= at < n <= configs.len(),
        leader.adopting_entities(configs, at).1 is None,
        leader.adopting_entities(configs, at).0.entity_config_fault(configs[at]) is Some,
    ensures
        leader.adopting_entities(configs, n) == (
            leader.adopting_entities(configs, at).0,
            leader.adopting_entities(configs, at).0.entity_config_fault(configs[at]),
        ),
    decreases n,
{
    if n > at + 1 {
        law_a_refused_configuration_ends_the_rest(leader, configs, at, n - 1);
    }
}

/// So does the first configuration of a singleton that is refused.
pub proof fn law_a_refused_singleton_ends_the_rest(
    leader: LeaderModel,
    configs: Seq<SingletonModel>,
    at: int,
    n: int,
)
    requires
        0 <= at < n <= configs.len(),
        leader.adopting_singletons(configs, at).1 is None,
        leader.adopting_singletons(configs, at).0.singleton_config_fault(configs[at]) is Some,
    ensures
        leader.adopting_singletons(configs, n) == (
            leader.adopting_singletons(configs, at).0,
            leader.adopting_singletons(configs, at).0.singleton_config_fault(configs[at]),
        ),
    decreases n,
{
    if n > at + 1 {
        law_a_refused_singleton_ends_the_rest(leader, configs, at, n - 1);
    }
}

/// A welcome hello is refused exactly for a configuration of an entity type that is, or else for one of
/// a singleton; what was taken up until then is kept.
pub proof fn law_hellos_are_refused_for_what_they_bring(
    leader: LeaderModel,
    hello: HelloModel,
    association: AssociationModel,
)
    requires
        is_welcome(leader, hello, association),
    ensures
        ({
            let (after, result) = leader.admitting(hello, association, None);
            let (entities, first) = leader.adopting_entities(
                hello.entity_configs,
                hello.entity_configs.len() as int,
            );
            let (all, second) = entities.adopting_singletons(
                hello.singleton_configs,
                hello.singleton_configs.len() as int,
            );
            &&& result is Err <==> first is Some || second is Some
            &&& first matches Some(fault) ==> result == Err::<Option<i64>, _>(fault) && after
                == entities
            &&& first is None && second is Some ==> result == Err::<Option<i64>, _>(second->0)
                && after == all
        }),
{
}

/// The leader of a cluster refuses a hello that is invalid, then one that is not welcome; then it
/// takes up the configurations that the hello brings. A node that is connected already is given the
/// lease that it has.
pub proof fn law_hellos_are_admitted_from_their_node(
    leader: LeaderModel,
    hello: HelloModel,
    association: AssociationModel,
    hello_fault: Option<Seq<char>>,
)
    ensures
        ({
            let (after, result) = leader.admitting(hello, association, hello_fault);
            let welcome = is_welcome(leader, hello, association);
            &&& hello_fault is Some ==> after == leader && result == Err::<Option<i64>, _>(
                RuntimeErrorModel::Coordinator(hello_fault->0),
            )
            &&& hello_fault is None && !welcome ==> after == leader && result == Err::<
                Option<i64>,
                _,
            >(RuntimeErrorModel::UnauthorizedCommand)
            &&& hello_fault is None && welcome && result is Ok ==> {
                &&& forall|i: int|
                    0 <= i < hello.entity_configs.len() ==> after.entity_configs.contains_key(
                        (#[trigger] hello.entity_configs[i]).entity_type,
                    ) && after.entity_configs[hello.entity_configs[i].entity_type]
                        == hello.entity_configs[i]
                &&& forall|i: int|
                    0 <= i < hello.singleton_configs.len() ==> after.singleton_configs.contains_key(
                        (#[trigger] hello.singleton_configs[i]).kind,
                    ) && after.singleton_configs[hello.singleton_configs[i].kind]
                        == hello.singleton_configs[i]
            }
            &&& result is Ok ==> {
                let id = hello.node.incarnation;
                &&& result->Ok_0 is Some <==> leader.sessions.contains_key(id)
                &&& leader.sessions.contains_key(id) ==> result->Ok_0->0
                    == leader.sessions[id].lease_id
            }
            &&& after == (LeaderModel {
                entity_configs: after.entity_configs,
                singleton_configs: after.singleton_configs,
                ..leader
            })
            &&& hello_fault is None && welcome && hello.entity_configs.len() == 0
                && hello.singleton_configs.len() == 0 ==> result is Ok
        }),
{
    law_configurations_are_taken_up(
        leader,
        hello.entity_configs,
        hello.entity_configs.len() as int,
    );
    let (entities, _) = leader.adopting_entities(
        hello.entity_configs,
        hello.entity_configs.len() as int,
    );
    law_singleton_configurations_are_taken_up(
        entities,
        hello.singleton_configs,
        hello.singleton_configs.len() as int,
    );
}

/// A member of a cluster that has just said hello is up in the cluster and in the domain, has sent no
/// heartbeat but is heard of, has applied nothing and does not drain.
pub proof fn law_members_join_up(
    hello: HelloModel,
    record: RecordModel,
    association: AssociationModel,
    version: VersionModel,
    at: TimeSpan,
    joined_at: MonotonicTime,
)
    ensures
        ({
            let session = joined_session(hello, record, association, version, at, joined_at);
            &&& session.hello == hello
            &&& session.record.status == MemberStatus::Up
            &&& session.record.node == record.node
            &&& session.record.version == record.version
            &&& session.record.lease_id == record.lease_id
            &&& session.record.release_id == record.release_id
            &&& session.record.protocols == record.protocols
            &&& session.domain_record == Some(
                DomainRecordModel {
                    node: hello.node,
                    hello,
                    status: DomainMemberStatus::Up,
                    version,
                },
            )
            &&& session.association == association
            &&& session.lease_id == record.lease_id
            &&& session.heartbeat_sequence == 0
            &&& session.last_heartbeat == at
            &&& session.applied_version is None
            &&& session.snapshot_version is None
            &&& !session.draining
            &&& session.joined_at == joined_at
        }),
{
}

/// The leader of a domain takes in a node exactly when its hello is valid and for the domain, it is
/// welcome, and the cluster knows the very node as up. One that is connected must say what it said
/// before; it is then heard of, and at the latest membership.
pub proof fn law_domains_take_in_members_of_the_cluster(
    leader: LeaderModel,
    hello: HelloModel,
    association: AssociationModel,
    hello_fault: Option<Seq<char>>,
    record: Option<RecordModel>,
    now: TimeSpan,
)
    ensures
        ({
            let id = hello.node.incarnation;
            let (after, result) = leader.registering(hello, association, hello_fault, record, now);
            let meant = hello.domain == leader.version.domain && is_welcome(
                leader,
                hello,
                association,
            );
            let member = record is Some && record->0.node == hello.node && record->0.status
                == MemberStatus::Up;
            let connected = leader.sessions.contains_key(id);
            let same = leader.sessions[id].record == record->0 && leader.sessions[id].hello == hello
                && leader.sessions[id].association == association;
            &&& hello_fault is Some ==> result == Err::<RegisterModel, _>(
                RuntimeErrorModel::Coordinator(hello_fault->0),
            )
            &&& hello_fault is None && !meant ==> result == Err::<RegisterModel, _>(
                RuntimeErrorModel::UnauthorizedCommand,
            )
            &&& hello_fault is None && meant && !member ==> result == Err::<RegisterModel, _>(
                RuntimeErrorModel::StaleMember,
            )
            &&& hello_fault is None && meant && member && !connected ==> result == Ok::<
                _,
                RuntimeErrorModel,
            >(RegisterModel::Join { record: record->0 })
            &&& hello_fault is None && meant && member && connected && !same ==> result == Err::<
                RegisterModel,
                _,
            >(RuntimeErrorModel::UnauthorizedCommand)
            &&& hello_fault is None && meant && member && connected && same ==> {
                let session = after.sessions[id];
                &&& result == Ok::<_, RuntimeErrorModel>(
                    RegisterModel::Refreshed { record: record->0 },
                )
                &&& session == (SessionModel {
                    last_heartbeat: now,
                    snapshot_version: Some(leader.membership_version),
                    ..leader.sessions[id]
                })
                &&& after == (LeaderModel {
                    sessions: leader.sessions.insert(id, session),
                    ..leader
                })
            }
            &&& !(result matches Ok(RegisterModel::Refreshed { .. })) ==> after == leader
        }),
{
}

/// A node joins a domain exactly when its record still stands. It then does not take part yet; it
/// drains if it is leaving; and the domain knows the later of its membership and that of the record.
pub proof fn law_nodes_join_a_domain_under_their_record(
    leader: LeaderModel,
    hello: HelloModel,
    record: RecordModel,
    current: Option<RecordModel>,
    association: AssociationModel,
    at: TimeSpan,
    now: MonotonicTime,
)
    ensures
        ({
            let id = hello.node.incarnation;
            let (after, fault) = leader.domain_joined(
                hello,
                record,
                current,
                association,
                at,
                now,
            );
            let newer = leader.membership_version.term < record.version.term || (
            leader.membership_version.term == record.version.term
                && leader.membership_version.revision < record.version.revision);
            &&& fault is None <==> current == Some(record)
            &&& fault is Some ==> fault == Some(RuntimeErrorModel::StaleMember) && after == leader
            &&& fault is None ==> {
                let session = after.sessions[id];
                &&& after.sessions == leader.sessions.insert(id, session)
                &&& after.membership_version == if newer {
                    record.version
                } else {
                    leader.membership_version
                }
                &&& after == (LeaderModel {
                    sessions: after.sessions,
                    membership_version: after.membership_version,
                    ..leader
                })
                &&& session.hello == hello
                &&& session.record == record
                &&& session.domain_record is None
                &&& session.association == association
                &&& session.lease_id == record.lease_id
                &&& session.heartbeat_sequence == 0
                &&& session.last_heartbeat == at
                &&& session.applied_version is None
                &&& session.snapshot_version == Some(after.membership_version)
                &&& session.draining == (record.status == MemberStatus::Leaving)
                &&& session.joined_at == now
            }
        }),
{
}

/// A member is ready exactly when it answers, over its connection, the very snapshot that it was sent
/// while it is up; nothing is done about one that answers an older snapshot.
pub proof fn law_members_are_ready_for_their_snapshot(
    leader: LeaderModel,
    incarnation: NodeIncarnation,
    snapshot_version: MembershipVersion,
    association: AssociationModel,
)
    ensures
        ({
            let session = leader.sessions[incarnation];
            let known = leader.sessions.contains_key(incarnation);
            let own = session.association == association && session.record.node.incarnation
                == incarnation;
            let sent = session.snapshot_version;
            let older = sent is Some && (snapshot_version.term < sent->0.term || (
            snapshot_version.term == sent->0.term && snapshot_version.revision
                < sent->0.revision));
            let result = leader.marking_up(incarnation, snapshot_version, association);
            &&& result == Err::<bool, _>(RuntimeErrorModel::UnknownSession) <==> !known
            &&& result == Ok::<_, RuntimeErrorModel>(true) <==> known && own && sent == Some(
                snapshot_version,
            ) && session.record.status == MemberStatus::Up
            &&& result == Ok::<_, RuntimeErrorModel>(false) <==> known && own && older
            &&& known && result is Err ==> result == Err::<bool, _>(RuntimeErrorModel::StaleMember)
        }),
{
}

/// Whether a record lets a member take part in its domain: as itself, with what it declared, from
/// the next version on.
pub open spec fn takes_part(
    leader: LeaderModel,
    incarnation: NodeIncarnation,
    member: DomainRecordModel,
) -> bool {
    let hello = leader.sessions[incarnation].hello;
    &&& member.node == hello.node
    &&& member.hello == hello
    &&& member.status == DomainMemberStatus::Up
    &&& is_next(member.version, leader.version)
}

/// What is stored so that a connected member that is up takes part in the domain: nothing new if its
/// record stands in this term, a new record where there is none or another hello, and where another
/// node of the same name is stored that one is removed first.
pub proof fn law_members_take_part_once(
    leader: LeaderModel,
    incarnation: NodeIncarnation,
    existing: Option<DomainRecordModel>,
)
    ensures
        ({
            let session = leader.sessions[incarnation];
            let known = leader.sessions.contains_key(incarnation);
            let up = known && session.record.status == MemberStatus::Up;
            let countable = leader.version.revision.0 < u64::MAX;
            let stands = existing is Some && existing->0.node == session.hello.node
                && existing->0.hello == session.hello && existing->0.status
                == DomainMemberStatus::Up && existing->0.version.term == leader.version.term;
            let result = leader.raising(incarnation, existing);
            &&& result == Err::<DomainStepModel, _>(RuntimeErrorModel::UnknownSession) <==> !known
            &&& result == Err::<DomainStepModel, _>(RuntimeErrorModel::StaleMember) <==> known
                && !up
            &&& up && stands ==> result == Ok::<_, RuntimeErrorModel>(
                DomainStepModel::Keep { member: existing->0 },
            )
            &&& up && existing is Some && existing->0.node != session.hello.node ==> result
                == Ok::<_, RuntimeErrorModel>(
                DomainStepModel::RemovePredecessor { expected: existing->0 },
            )
            &&& up && existing is None && countable ==> {
                &&& result matches Ok(DomainStepModel::Create { member })
                &&& takes_part(leader, incarnation, member)
            }
            &&& up && existing is Some && !stands && existing->0.node == session.hello.node
                && countable ==> {
                &&& result matches Ok(DomainStepModel::Update { expected, member })
                &&& expected == existing->0
                &&& takes_part(leader, incarnation, member)
            }
            &&& up && !stands && !countable && (existing is None || existing->0.node
                == session.hello.node) ==> result == Err::<DomainStepModel, _>(
                RuntimeErrorModel::RevisionExhausted,
            )
        }),
{
}

/// Once the record of a member is stored the session has it, and the leader knows the later of its
/// version and that of the record.
pub proof fn law_stored_members_take_part(
    leader: LeaderModel,
    incarnation: NodeIncarnation,
    member: DomainRecordModel,
)
    requires
        member.version.domain == leader.version.domain,
    ensures
        ({
            let (after, fault) = leader.raised(incarnation, member);
            let known = leader.sessions.contains_key(incarnation);
            let later = member.version.term.0 > leader.version.term.0 || (member.version.term
                == leader.version.term && member.version.revision.0 > leader.version.revision.0);
            &&& after.version == if later {
                member.version
            } else {
                leader.version
            }
            &&& fault is None <==> known
            &&& !known ==> fault == Some(RuntimeErrorModel::UnknownSession) && after.sessions
                == leader.sessions
            &&& known ==> after.sessions == leader.sessions.insert(
                incarnation,
                SessionModel { domain_record: Some(member), ..leader.sessions[incarnation] },
            )
            &&& after == (LeaderModel {
                version: after.version,
                sessions: after.sessions,
                ..leader
            })
        }),
{
}

/// A hello is changed by the connected member that it is of, while it is up and takes part: its record
/// is stored anew with that hello at the next version, and then the session has both.
pub proof fn law_hellos_are_changed_by_their_member(
    leader: LeaderModel,
    incarnation: NodeIncarnation,
    hello: HelloModel,
    hello_fault: Option<Seq<char>>,
    member: DomainRecordModel,
)
    ensures
        ({
            let session = leader.sessions[incarnation];
            let known = leader.sessions.contains_key(incarnation);
            let own = session.record.status == MemberStatus::Up && hello.node
                == session.record.node;
            let result = leader.hello_change(incarnation, hello, hello_fault);
            &&& hello_fault is Some ==> result == Err::<bool, _>(
                RuntimeErrorModel::Coordinator(hello_fault->0),
            )
            &&& hello_fault is None && !known ==> result == Err::<bool, _>(
                RuntimeErrorModel::UnknownSession,
            )
            &&& hello_fault is None && known && !own ==> result == Err::<bool, _>(
                RuntimeErrorModel::StaleMember,
            )
            &&& hello_fault is None && known && own ==> result == Ok::<_, RuntimeErrorModel>(
                hello != session.hello,
            )
        }),
        ({
            let session = leader.sessions[incarnation];
            let known = leader.sessions.contains_key(incarnation);
            let result = leader.hello_update(incarnation, hello);
            &&& result is Ok <==> known && session.domain_record is Some
                && leader.version.revision.0 < u64::MAX
            &&& !known ==> result->Err_0 == RuntimeErrorModel::UnknownSession
            &&& known && session.domain_record is None ==> result->Err_0
                == RuntimeErrorModel::StaleMember
            &&& known && session.domain_record is Some && result is Err ==> result->Err_0
                == RuntimeErrorModel::RevisionExhausted
            &&& result matches Ok(update) ==> {
                &&& update.expected_global_member == session.record
                &&& update.expected == session.domain_record->0
                &&& update.member.node == session.domain_record->0.node
                &&& update.member.hello == hello
                &&& update.member.status == session.domain_record->0.status
                &&& is_next(update.member.version, leader.version)
            }
        }),
        ({
            let session = leader.sessions[incarnation];
            let known = leader.sessions.contains_key(incarnation);
            let (after, result) = leader.hello_stored(incarnation, hello, member);
            &&& after.version == member.version
            &&& known ==> result == Ok::<_, RuntimeErrorModel>(session.association)
                && after.sessions == leader.sessions.insert(
                incarnation,
                SessionModel { hello, domain_record: Some(member), ..session },
            )
            &&& !known ==> result == Err::<AssociationModel, _>(RuntimeErrorModel::UnknownSession)
                && after.sessions == leader.sessions
            &&& after == (LeaderModel {
                version: member.version,
                sessions: after.sessions,
                ..leader
            })
        }),
{
}

/// Whether a member is brought up to date: over its connection and with its hello, by the next delta
/// if it has applied the version right before the current one.
pub open spec fn catches_up(
    leader: LeaderModel,
    session: SessionModel,
    update: SynchronizationModel,
) -> bool {
    &&& update.hello == session.hello
    &&& update.association == session.association
    &&& update.by_delta <==> session.applied_version is Some && is_next(
        leader.version,
        session.applied_version->0,
    )
}

/// Whether a session takes part, up in the cluster and in the domain.
pub open spec fn is_part(session: SessionModel) -> bool {
    &&& session.record.status == MemberStatus::Up
    &&& session.domain_record is Some
    &&& session.domain_record->0.status == DomainMemberStatus::Up
}

/// Whether some session is brought up to date in a list.
pub open spec fn is_synchronized(
    leader: LeaderModel,
    session: SessionModel,
    updates: Seq<SynchronizationModel>,
) -> bool {
    exists|i: int| 0 <= i < updates.len() && catches_up(leader, session, #[trigger] updates[i])
}

/// Whether an update is of some session that takes part.
pub open spec fn is_of_a_part(leader: LeaderModel, update: SynchronizationModel) -> bool {
    exists|id: NodeIncarnation| #[trigger]
        leader.sessions.contains_key(id) && is_part(leader.sessions[id]) && catches_up(
            leader,
            leader.sessions[id],
            update,
        )
}

proof fn lemma_synchronized(leader: LeaderModel, ids: Seq<NodeIncarnation>, n: int)
    requires
        0 <= n <= ids.len(),
        forall|i: int| 0 <= i < ids.len() ==> leader.sessions.contains_key(#[trigger] ids[i]),
    ensures
        forall|i: int|
            0 <= i < n && is_part(leader.sessions[#[trigger] ids[i]]) ==> is_synchronized(
                leader,
                leader.sessions[ids[i]],
                leader.synchronized_first(ids, n),
            ),
        forall|j: int|
            0 <= j < leader.synchronized_first(ids, n).len() ==> is_of_a_part(
                leader,
                #[trigger] leader.synchronized_first(ids, n)[j],
            ),
    decreases n,
{
    if n > 0 {
        lemma_synchronized(leader, ids, n - 1);
        let before = leader.synchronized_first(ids, n - 1);
        let after = leader.synchronized_first(ids, n);
        let session = leader.sessions[ids[n - 1]];
        if is_part(session) {
            assert(after.len() == before.len() + 1);
            assert(catches_up(leader, session, after[before.len() as int]));
            assert(leader.sessions.contains_key(ids[n - 1]));
        }
        assert forall|i: int|
            0 <= i < n && is_part(leader.sessions[#[trigger] ids[i]]) implies is_synchronized(
            leader,
            leader.sessions[ids[i]],
            after,
        ) by {
            if i < n - 1 {
                let j = choose|j: int|
                    0 <= j < before.len() && catches_up(
                        leader,
                        leader.sessions[ids[i]],
                        #[trigger] before[j],
                    );
                assert(after[j] == before[j]);
            }
        }
        assert forall|j: int| 0 <= j < after.len() implies is_of_a_part(
            leader,
            #[trigger] after[j],
        ) by {
            if j < before.len() {
                assert(after[j] == before[j]);
            }
        }
    }
}

/// Exactly the members that take part are brought up to date: by the next delta those that are one
/// version behind, by a snapshot all others.
pub proof fn law_those_that_take_part_catch_up(leader: LeaderModel, id: NodeIncarnation, j: int)
    requires
        leader.sessions.dom().finite(),
    ensures
        leader.sessions.contains_key(id) && is_part(leader.sessions[id]) ==> is_synchronized(
            leader,
            leader.sessions[id],
            leader.synchronized(),
        ),
        0 <= j < leader.synchronized().len() ==> is_of_a_part(leader, leader.synchronized()[j]),
{
    lemma_ranked_lists::<NodeIncarnation>(leader.sessions.dom());
    let ids = ranked::<NodeIncarnation>(leader.sessions.dom());
    assert forall|i: int| 0 <= i < ids.len() implies leader.sessions.contains_key(
        #[trigger] ids[i],
    ) by {
        assert(ids.to_set().contains(ids[i]));
    }
    lemma_synchronized(leader, ids, ids.len() as int);
    if leader.sessions.contains_key(id) {
        assert(ids.to_set().contains(id));
    }
}

/// A member has applied a version exactly when the one that it last applied is of the same domain and
/// not earlier; it speaks the protocols of its record, and takes part if it is up everywhere.
pub proof fn law_members_have_applied_what_they_report(
    session: SessionModel,
    version: VersionModel,
    protocol_id: crate::types::ProtocolId,
)
    ensures
        session.has_applied(version) <==> {
            let applied = session.applied_version->0;
            &&& session.applied_version is Some
            &&& applied.domain == version.domain
            &&& applied.term.0 > version.term.0 || (applied.term.0 == version.term.0
                && applied.revision.0 >= version.revision.0)
        },
        session.speaks(protocol_id) <==> session.record.protocols.contains(protocol_id),
        session.attached() <==> session.domain_record is Some,
        session.up() <==> is_part(session),
{
}

} // verus!
