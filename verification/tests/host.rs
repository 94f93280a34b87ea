//! A host: its scopes, what it routes, and whom it tells.
use std::collections::BTreeMap;

use lattice_placement::ranking::{AllocationStrategy, PolicyKey};
use lattice_placement::runtime::control::{CoordinatorScope, MemberRemovalReason};
use lattice_placement::runtime::errors::{
    ControlDispatchError, ControlRetryReason, CoordinatorRuntimeError,
};
use lattice_placement::runtime::host::drain::{
    DrainProgress, DrainReply, DrainRequest, MembershipDrain,
};
use lattice_placement::runtime::host::member_fanout::{
    globally_up, participants_of_pass, MemberDelivery, SnapshotStep,
};
use lattice_placement::runtime::host::routing::{
    check_joined, confirm_leader, decide_join, lease_to_keep, reconcile_error, removal_result,
    route_error, Delivery, DrainStep, HostAction, HostCommand, HostEvent, JoinStep,
};
use lattice_placement::runtime::host::{
    CoordinatorHost, CoordinatorHostConfig, CoordinatorHostScopeState, LeaderRecord,
    StrategyRegistrationError, BUILT_IN_STRATEGY,
};
use lattice_placement::runtime::members::{
    AssociationKey, MemberHello, MemberRecord, MemberStatus, MembershipVersion,
};
use lattice_placement::runtime::state::DurableLimits;
use lattice_placement::runtime::CoordinatorLeader;
use lattice_placement::sorted::SortedSet;
use lattice_placement::time::TimeSpan;
use lattice_placement::types::{
    CoordinatorTerm, NodeAddress, NodeIncarnation, NodeKey, ProtocolId,
};

fn node(name: &str, port: u16, incarnation: u128) -> NodeKey {
    NodeKey {
        node_id: name.to_string(),
        address: NodeAddress { host: "127.0.0.1".to_string(), port },
        incarnation: NodeIncarnation::new(incarnation).unwrap(),
    }
}

fn association(node: &NodeKey) -> AssociationKey {
    AssociationKey {
        cluster_id: "cluster".to_string(),
        local_incarnation: NodeIncarnation::new(1).unwrap(),
        remote_address: node.address.clone(),
        remote_incarnation: node.incarnation,
    }
}

fn leads(scope: CoordinatorScope, node: &NodeKey, term: u64) -> LeaderRecord {
    LeaderRecord {
        scope,
        node: node.clone(),
        protocol_generation: 2,
        term: CoordinatorTerm::new(term).unwrap(),
    }
}

fn domain(name: &str) -> CoordinatorScope {
    CoordinatorScope::Placement(name.to_string())
}

fn domains(names: &[&str]) -> SortedSet<String> {
    let mut set = SortedSet::new();
    for name in names {
        set.insert(name.to_string());
    }
    set
}

const VERSION: MembershipVersion = MembershipVersion { term: 4, revision: 9 };

/// A host that leads the membership under the fourth term and one domain under the seventh.
fn host() -> CoordinatorHost {
    let local = node("leader", 34701, 1);
    let mut host =
        CoordinatorHost::open(local.clone(), &domains(&["a", "b"]), &CoordinatorHostConfig::default())
            .unwrap_or_else(|_| panic!("the host opens"));
    host.settle_membership(Ok(leads(CoordinatorScope::Membership, &local, 4)), VERSION).unwrap();
    host.settle_domain("a".to_string(), 11, Ok(leads(domain("a"), &local, 7))).unwrap();
    host.settle_domain("b".to_string(), 12, Err(CoordinatorRuntimeError::NotLeader)).unwrap();
    host
}

fn hello(node: &NodeKey) -> MemberHello {
    MemberHello {
        node: node.clone(),
        release_id: 1,
        protocols: vec![ProtocolId::new(3).unwrap()],
    }
}

fn record(node: &NodeKey, status: MemberStatus) -> MemberRecord {
    MemberRecord {
        node: node.clone(),
        status,
        version: VERSION,
        lease_id: 31,
        release_id: 1,
        protocols: vec![ProtocolId::new(3).unwrap()],
    }
}

fn send(
    host: &CoordinatorHost,
    from: &NodeKey,
    scope: CoordinatorScope,
    coordinator_term: Option<u64>,
    command: HostCommand,
) -> HostAction {
    host.route_control(HostEvent::Command {
        association: association(from),
        scope,
        coordinator_term,
        command,
    })
}

#[test]
fn dedicated_membership_host_needs_no_placement_domains() {
    let local = node("membership-host", 33010, 10);
    let mut host =
        CoordinatorHost::open(local.clone(), &domains(&[]), &CoordinatorHostConfig::default())
            .unwrap_or_else(|_| panic!("the host opens"));
    let record = leads(CoordinatorScope::Membership, &local, 1);
    host.settle_membership(Ok(record), VERSION).unwrap();
    assert!(host.domains.len() == 0);
    assert!(matches!(
        host.scope_state(&CoordinatorScope::Membership),
        Some(CoordinatorHostScopeState::Active(_))
    ));
    let directory = host.directory();
    assert_eq!(
        directory.get(&CoordinatorScope::Membership),
        Some(&leads(CoordinatorScope::Membership, &local, 1))
    );
}

#[test]
fn a_host_publishes_where_it_stands() {
    let host = host();
    let local = node("leader", 34701, 1);
    assert_eq!(host.node(), &local);
    assert_eq!(host.active_term(&CoordinatorScope::Membership), Some(4));
    assert_eq!(host.active_term(&domain("a")), Some(7));
    assert_eq!(host.active_term(&domain("b")), None);
    assert_eq!(host.active_term(&domain("c")), None);
    let leaders = host.active_domain_leaders();
    assert_eq!(leaders.len(), 1);
    assert_eq!(leaders[0].0, "a");
    assert_eq!(host.directory().len(), 2);
    let states = host.scope_states();
    assert_eq!(states.len(), 3);
    assert_eq!(states.get(&domain("b")), Some(&CoordinatorHostScopeState::Standby));
    assert_eq!(host.inactive_domains(), vec!["b".to_string()]);
}

#[test]
fn losing_one_domain_lease_reenters_only_that_election() {
    let mut host = host();
    let local = node("leader", 34701, 1);
    host.domain_stopped(&"a".to_string());
    assert_eq!(host.scope_state(&domain("a")), Some(&CoordinatorHostScopeState::Failed));
    assert_eq!(host.scope_state(&domain("b")), Some(&CoordinatorHostScopeState::Standby));
    assert_eq!(host.active_term(&CoordinatorScope::Membership), Some(4));
    assert!(host.begin_campaign(&"a".to_string()));
    assert!(!host.begin_campaign(&"a".to_string()));
    host.settle_campaign(&"a".to_string(), Ok(leads(domain("a"), &local, 8)));
    assert_eq!(host.active_term(&domain("a")), Some(8));
    assert!(host.runs(&"a".to_string()));
    assert!(host.begin_campaign(&"a".to_string()));
    host.settle_campaign(&"a".to_string(), Err(CoordinatorRuntimeError::NotLeader));
    assert_eq!(host.scope_state(&domain("a")), Some(&CoordinatorHostScopeState::Standby));
}

#[test]
fn a_failed_election_is_reported() {
    let mut host = host();
    assert_eq!(
        host.settle_domain("c".to_string(), 13, Err(CoordinatorRuntimeError::InvalidConfig)),
        Err(CoordinatorRuntimeError::InvalidConfig)
    );
    assert!(host.scope_state(&domain("c")).is_none());
}

#[test]
fn commands_of_another_term_are_fenced() {
    let host = host();
    let member = node("member", 1, 5);
    let refused = |action: HostAction| {
        matches!(action, HostAction::Refuse(ControlDispatchError::InvalidCommand))
    };
    let forwarded = send(&host, &member, domain("a"), Some(7), HostCommand::Other);
    assert!(matches!(forwarded, HostAction::Forward { domain } if domain == "a"));
    assert!(refused(send(&host, &member, domain("a"), Some(6), HostCommand::Other)));
    assert!(refused(send(&host, &member, domain("a"), None, HostCommand::Other)));
    assert!(refused(send(&host, &member, domain("b"), Some(7), HostCommand::Other)));
    // A greeting is heard under any term.
    let greeted = send(&host, &member, domain("a"), Some(1), HostCommand::PlacementDomainHello);
    assert!(matches!(greeted, HostAction::Forward { .. }));
    assert!(matches!(
        send(&host, &member, domain("b"), None, HostCommand::PlacementDomainHello),
        HostAction::Refuse(ControlDispatchError::RetryLater(
            ControlRetryReason::AssociationStarting
        ))
    ));
    assert!(refused(host.route_control(HostEvent::GlobalMemberRemoved)));
}

#[test]
fn the_membership_takes_its_own_commands() {
    let mut host = host();
    let member = node("member", 1, 5);
    let membership = || CoordinatorScope::Membership;
    let admitted =
        send(&host, &member, membership(), None, HostCommand::MemberHello(hello(&member)));
    assert!(matches!(admitted, HostAction::AdmitMember { .. }));
    let beat = |sequence: u64| HostCommand::NodeHeartbeat {
        incarnation: member.incarnation,
        sequence,
    };
    assert!(matches!(
        send(&host, &member, membership(), Some(4), beat(1)),
        HostAction::Refuse(ControlDispatchError::InvalidCommand)
    ));
    host.note_member(hello(&member), &association(&member));
    assert!(matches!(
        send(&host, &member, membership(), Some(4), beat(1)),
        HostAction::RenewMember { .. }
    ));
    assert!(matches!(
        send(&host, &member, membership(), Some(4), beat(0)),
        HostAction::Refuse(ControlDispatchError::InvalidCommand)
    ));
    host.forget_member(member.incarnation);
    assert!(matches!(
        send(&host, &member, membership(), Some(4), beat(2)),
        HostAction::Refuse(ControlDispatchError::InvalidCommand)
    ));
    assert!(matches!(
        send(&host, &member, membership(), Some(4), HostCommand::PlacementDomainHello),
        HostAction::Refuse(ControlDispatchError::InvalidCommand)
    ));
}

#[test]
fn a_full_domain_mailbox_returns_retry_without_waiting_on_that_domain() {
    assert_eq!(
        route_error(Delivery::Full),
        Some(ControlDispatchError::RetryLater(ControlRetryReason::ConsumerBusy))
    );
    assert_eq!(route_error(Delivery::Closed), Some(ControlDispatchError::Unavailable));
    assert_eq!(route_error(Delivery::Accepted), None);
    assert_eq!(
        reconcile_error(&vec![Delivery::Accepted, Delivery::Full]),
        Some(ControlDispatchError::RetryLater(ControlRetryReason::ConsumerBusy))
    );
    assert_eq!(reconcile_error(&vec![Delivery::Accepted]), None);
    assert_eq!(
        removal_result(Delivery::Full),
        Err(CoordinatorRuntimeError::ControlBackpressure)
    );
    assert_eq!(removal_result(Delivery::Closed), Err(CoordinatorRuntimeError::ControlClosed));
    assert_eq!(removal_result(Delivery::Accepted), Ok(()));
}

#[test]
fn reconciliations_follow_the_stream_with_the_gap() {
    let host = host();
    let member = node("member", 1, 5);
    let reconcile = |gap: Option<u64>| {
        match host.route_control(HostEvent::Reconcile { association: association(&member), gap }) {
            HostAction::ReconcileDomains { domains, .. } => domains,
            _ => panic!("domains are reconciled"),
        }
    };
    assert_eq!(reconcile(None), vec!["a".to_string()]);
    assert_eq!(reconcile(Some(11)), vec!["a".to_string()]);
    assert!(reconcile(Some(12)).is_empty());
}

#[test]
fn joins_are_completed_for_the_member_that_was_admitted() {
    let mut host = host();
    let member = node("member", 1, 5);
    let key = association(&member);
    assert_eq!(
        host.find_joining_member(VERSION, &key).err(),
        Some(CoordinatorRuntimeError::StaleMember)
    );
    host.note_member(hello(&member), &key);
    assert!(host.find_joining_member(VERSION, &key).is_ok());
    let ahead = MembershipVersion { term: 4, revision: 10 };
    assert_eq!(
        host.find_joining_member(ahead, &key).err(),
        Some(CoordinatorRuntimeError::StaleMember)
    );
    let greeting = hello(&member);
    assert_eq!(
        decide_join(&greeting, &Some(record(&member, MemberStatus::Joining))),
        Ok(JoinStep::MarkUp)
    );
    assert_eq!(
        decide_join(&greeting, &Some(record(&member, MemberStatus::Up))),
        Ok(JoinStep::AlreadyUp)
    );
    assert_eq!(
        decide_join(&greeting, &Some(record(&member, MemberStatus::Leaving))),
        Err(CoordinatorRuntimeError::StaleMember)
    );
    assert_eq!(decide_join(&greeting, &None), Err(CoordinatorRuntimeError::StaleMember));
    assert_eq!(check_joined(MemberStatus::Leaving), Err(CoordinatorRuntimeError::StaleMember));
    assert_eq!(check_joined(MemberStatus::Joining), Ok(()));
    assert_eq!(lease_to_keep(&greeting, &Some(record(&member, MemberStatus::Up))), Ok(31));
    assert_eq!(
        lease_to_keep(&greeting, &Some(record(&member, MemberStatus::Joining))),
        Err(CoordinatorRuntimeError::NotLeader)
    );
}

/// The members that a store holds, who leads the membership by it, and what a peer was told.
struct World {
    members: BTreeMap<String, MemberRecord>,
    leader: Option<LeaderRecord>,
    told: Vec<(String, NodeIncarnation, u64)>,
    left: usize,
    removed: usize,
}

impl World {
    fn carry_out(&mut self, own: &LeaderRecord, request: DrainRequest) -> DrainReply {
        let copy = |record: &LeaderRecord| {
            leads(CoordinatorScope::Membership, &record.node, record.term.get())
        };
        match request {
            DrainRequest::ReadMember { node_id } => DrainReply::Member(
                self.members.get(&node_id).map(|member| record(&member.node, member.status)),
            ),
            DrainRequest::BeginLeave { node } => {
                self.members.get_mut(&node.node_id).unwrap().status = MemberStatus::Leaving;
                self.left += 1;
                DrainReply::Done
            }
            DrainRequest::Remove { node, reason } => {
                assert_eq!(reason, MemberRemovalReason::GracefulLeave);
                assert!(self.members.remove(&node.node_id).is_some());
                self.removed += 1;
                DrainReply::Done
            }
            DrainRequest::ReadLeader => {
                DrainReply::Leaders { own: copy(own), stored: self.leader.as_ref().map(copy) }
            }
            DrainRequest::Commit {
                operation_id, expected_incarnation, coordinator_term, ..
            } => {
                self.told.push((operation_id, expected_incarnation, coordinator_term));
                DrainReply::Done
            }
        }
    }
}

fn complete_drain(
    host: &mut CoordinatorHost,
    world: &mut World,
    own: &LeaderRecord,
    departing: &NodeKey,
) -> Result<(), CoordinatorRuntimeError> {
    let mut drain: MembershipDrain = host.begin_membership_drain(
        "leave".to_string(),
        departing.node_id.clone(),
        departing.incarnation,
        true,
        &association(departing),
    )?;
    let mut request = drain.request();
    loop {
        let reply = world.carry_out(own, request);
        match host.complete_membership_drain(&mut drain, reply)? {
            DrainProgress::Ask(next) => request = next,
            DrainProgress::TellDomains { node, reason } => {
                assert_eq!(&node, departing);
                assert_eq!(reason, MemberRemovalReason::GracefulLeave);
                return Ok(());
            }
        }
    }
}

#[test]
fn membership_commit_is_confirmed_again_after_response_loss_and_leader_replacement() {
    let local = node("leader", 34701, 1);
    let departing = node("departing", 34702, 2);
    let staying = node("staying", 34703, 3);
    let own = leads(CoordinatorScope::Membership, &local, 4);
    let mut world = World {
        members: BTreeMap::new(),
        leader: Some(leads(CoordinatorScope::Membership, &local, 4)),
        told: Vec::new(),
        left: 0,
        removed: 0,
    };
    for member in [&departing, &staying] {
        world.members.insert(member.node_id.clone(), record(member, MemberStatus::Up));
    }
    let mut host = host();
    host.note_member(hello(&departing), &association(&departing));
    host.note_member(hello(&staying), &association(&staying));
    assert_eq!(complete_drain(&mut host, &mut world, &own, &departing), Ok(()));
    assert!(!world.members.contains_key(&departing.node_id));
    assert!(world.members.contains_key(&staying.node_id));
    assert!(!host.pending_member_hellos.contains_key(&departing.incarnation));
    assert!(host.pending_member_hellos.contains_key(&staying.incarnation));

    // The answer was lost; whoever leads now answers the same.
    let later = leads(CoordinatorScope::Membership, &local, 5);
    world.leader = Some(leads(CoordinatorScope::Membership, &local, 5));
    let mut replacement = self::host();
    assert_eq!(complete_drain(&mut replacement, &mut world, &later, &departing), Ok(()));
    assert_eq!(
        world.told,
        vec![
            ("leave".to_string(), departing.incarnation, 4),
            ("leave".to_string(), departing.incarnation, 5)
        ]
    );
    assert_eq!((world.left, world.removed), (1, 1));

    // A newer incarnation of the node is left alone.
    let successor = node("departing", 34702, 9);
    world.members.insert(successor.node_id.clone(), record(&successor, MemberStatus::Up));
    assert_eq!(complete_drain(&mut replacement, &mut world, &later, &departing), Ok(()));
    assert_eq!(world.members[&successor.node_id].node, successor);
    assert_eq!((world.told.len(), world.removed), (3, 1));

    // A leader that was replaced tells nobody.
    assert_eq!(
        complete_drain(&mut host, &mut world, &own, &departing),
        Err(CoordinatorRuntimeError::NotLeader)
    );
    world.leader = None;
    assert_eq!(
        complete_drain(&mut replacement, &mut world, &later, &departing),
        Err(CoordinatorRuntimeError::NotLeader)
    );
    assert_eq!(world.told.len(), 3);
    assert_eq!(confirm_leader(&own, &Some(later)), Err(CoordinatorRuntimeError::NotLeader));
}

#[test]
fn a_drain_stops_where_a_request_fails_and_hears_no_other_reply() {
    let mut host = host();
    let member = node("member", 1, 5);
    host.note_member(hello(&member), &association(&member));
    let mut drain = host
        .begin_membership_drain(
            "leave".to_string(),
            member.node_id.clone(),
            member.incarnation,
            true,
            &association(&member),
        )
        .unwrap();
    let asked = DrainProgress::Ask(DrainRequest::ReadMember { node_id: "member".to_string() });
    assert_eq!(host.complete_membership_drain(&mut drain, DrainReply::Done), Ok(asked));
    let leaving = DrainReply::Member(Some(record(&member, MemberStatus::Leaving)));
    assert_eq!(
        host.complete_membership_drain(&mut drain, leaving),
        Ok(DrainProgress::Ask(DrainRequest::Remove {
            node: member.clone(),
            reason: MemberRemovalReason::GracefulLeave
        }))
    );
    assert_eq!(
        host.complete_membership_drain(
            &mut drain,
            DrainReply::Failed(CoordinatorRuntimeError::ControlClosed)
        ),
        Err(CoordinatorRuntimeError::ControlClosed)
    );
    assert!(host.pending_member_hellos.contains_key(&member.incarnation));
}

#[test]
fn drains_are_refused_for_what_they_lack() {
    let mut host = host();
    let member = node("member", 1, 5);
    let key = association(&member);
    let stale = Err(CoordinatorRuntimeError::StaleMember);
    assert_eq!(host.check_drain(&String::new(), member.incarnation, true, &key), stale);
    assert_eq!(host.check_drain(&"x".repeat(257), member.incarnation, true, &key), stale);
    assert_eq!(host.check_drain(&"x".repeat(256), member.incarnation, true, &key), Ok(()));
    assert_eq!(
        host.check_drain(&"x".to_string(), NodeIncarnation::new(6).unwrap(), true, &key),
        stale
    );
    assert_eq!(host.check_drain(&"x".to_string(), member.incarnation, false, &key), stale);
    host.note_member(hello(&member), &key);
    assert_eq!(
        host.decide_drain(&member, &key, &Some(record(&member, MemberStatus::Joining))),
        Err(CoordinatorRuntimeError::MemberNotReady)
    );
    assert_eq!(
        host.decide_drain(&member, &key, &Some(record(&member, MemberStatus::Leaving))),
        Ok(DrainStep::Remove)
    );
    host.settle_membership(Err(CoordinatorRuntimeError::NotLeader), VERSION).unwrap();
    assert_eq!(
        host.check_drain(&"x".to_string(), member.incarnation, true, &key),
        Err(CoordinatorRuntimeError::NotLeader)
    );
}

#[test]
fn an_event_waits_for_a_snapshot_that_is_under_way() {
    let mut host = host();
    let quick = node("quick", 1, 5);
    let busy = node("busy", 2, 6);
    host.note_member(hello(&quick), &association(&quick));
    host.note_member(hello(&busy), &association(&busy));
    assert_eq!(host.begin_snapshot(&association(&busy)), SnapshotStep::Start(VERSION));
    assert_eq!(host.begin_snapshot(&association(&busy)), SnapshotStep::Follows);
    assert_eq!(host.members_to_tell(), vec![quick.incarnation]);
    assert_eq!(
        host.note_telling(busy.incarnation, &association(&busy), MemberDelivery::Refused),
        None
    );
    assert_eq!(
        host.note_telling(quick.incarnation, &association(&quick), MemberDelivery::Refused),
        Some(VERSION)
    );
    assert!(host.members_to_tell().is_empty());
    // What became stale on its way is cut again, once.
    assert!(host.end_snapshot(&association(&busy)));
    assert_eq!(host.begin_snapshot(&association(&busy)), SnapshotStep::Start(VERSION));
    assert!(!host.end_snapshot(&association(&busy)));
    assert!(host.end_snapshot(&association(&quick)));
    assert!(!host.end_snapshot(&association(&quick)));
    let gone = node("gone", 3, 7);
    host.note_member(hello(&gone), &association(&gone));
    assert_eq!(
        host.note_telling(gone.incarnation, &association(&gone), MemberDelivery::Missing),
        None
    );
    assert!(!host.membership_associations.contains_key(&gone.incarnation));
}

#[test]
fn domains_are_reconciled_one_pass_at_a_time() {
    let mut host = host();
    assert_eq!(host.begin_reconciliation(), vec!["a".to_string()]);
    assert!(host.begin_reconciliation().is_empty());
    host.end_reconciliation(&"a".to_string());
    assert_eq!(host.begin_reconciliation(), vec!["a".to_string()]);
    assert_eq!(host.domains_to_tell(), vec!["a".to_string()]);
    let participants = || vec![node("x", 1, 5), node("y", 2, 6), node("z", 3, 7)];
    assert_eq!(participants_of_pass(participants(), 2), vec![node("x", 1, 5), node("y", 2, 6)]);
    assert_eq!(participants_of_pass(participants(), 9).len(), 3);
    assert!(participants_of_pass(participants(), 0).is_empty());
    let member = node("member", 1, 5);
    assert!(globally_up(&member, &Some(record(&member, MemberStatus::Up))));
    assert!(!globally_up(&member, &Some(record(&member, MemberStatus::Leaving))));
    assert!(!globally_up(&member, &None));
}

fn test_affinity(handle: u64) -> AllocationStrategy {
    AllocationStrategy {
        policy: PolicyKey { policy_id: "test-affinity".to_string(), policy_version: 1 },
        handle,
    }
}

fn elected(config: &CoordinatorHostConfig) -> CoordinatorLeader {
    config
        .elect_domain_leader(
            DurableLimits {
                maximum_entity_configs: 16,
                maximum_singleton_configs: 16,
                maximum_admin_operation_records: 4,
                admin_operation_retention: TimeSpan::from_secs(60),
                maximum_reconciliation_work_per_pass: 4,
            },
            "minecraft".to_string(),
            CoordinatorTerm::new(1).unwrap(),
            1,
            MembershipVersion { term: 1, revision: 1 },
            &Vec::new(),
            &Vec::new(),
        )
        .unwrap_or_else(|_| panic!("a leader is elected"))
}

#[test]
fn host_installs_custom_strategies_into_elected_domain_leaders() {
    let config = CoordinatorHostConfig::default()
        .with_allocation_strategy(test_affinity(7))
        .unwrap_or_else(|_| panic!("the policy is new"));
    let leader = elected(&config);
    assert!(leader.strategies.contains_key(&test_affinity(7).policy));
    assert_eq!(leader.strategies.get(&test_affinity(7).policy), Some(&7));
    assert_eq!(leader.strategies.len(), 2);
    let built_in =
        PolicyKey { policy_id: "weighted-least-load".to_string(), policy_version: 1 };
    assert_eq!(leader.strategies.get(&built_in), Some(&BUILT_IN_STRATEGY));
    assert_eq!(leader.counters.leadership_loss_count, 0);
}

#[test]
fn strategies_are_added_and_replaced_by_policy() {
    let config = CoordinatorHostConfig::default()
        .with_allocation_strategy(test_affinity(7))
        .unwrap_or_else(|_| panic!("the policy is new"));
    let replaced = config
        .with_replaced_allocation_strategy(test_affinity(8))
        .unwrap_or_else(|_| panic!("the policy is known"));
    assert_eq!(replaced.allocation_strategies.get(&test_affinity(0).policy), Some(&8));
    assert_eq!(elected(&replaced).strategies.get(&test_affinity(0).policy), Some(&8));
    assert_eq!(
        replaced.with_allocation_strategy(test_affinity(9)).err(),
        Some(StrategyRegistrationError::Duplicate)
    );
    assert_eq!(
        CoordinatorHostConfig::default().with_replaced_allocation_strategy(test_affinity(9)).err(),
        Some(StrategyRegistrationError::Unknown)
    );
    // A leader reports a policy that it knew, and takes the new strategy all the same.
    let mut leader = elected(&CoordinatorHostConfig::default());
    assert_eq!(leader.register_strategy(test_affinity(3)), Ok(()));
    assert_eq!(
        leader.register_strategy(test_affinity(4)),
        Err(CoordinatorRuntimeError::DuplicateStrategy)
    );
    assert_eq!(leader.strategies.get(&test_affinity(0).policy), Some(&4));
}

#[test]
fn hosts_are_not_opened_under_a_faulty_configuration() {
    let local = node("host", 1, 1);
    let open = |config: CoordinatorHostConfig, names: &[&str]| {
        CoordinatorHost::open(local.clone(), &domains(names), &config).err()
    };
    assert_eq!(open(CoordinatorHostConfig::default(), &["a"]), None);
    let bad = Some(CoordinatorRuntimeError::InvalidConfig);
    assert_eq!(
        open(CoordinatorHostConfig { maximum_domains: 1, ..Default::default() }, &["a", "b"]),
        bad
    );
    assert_eq!(
        open(
            CoordinatorHostConfig {
                maximum_candidate_jitter: TimeSpan::from_secs(10),
                ..Default::default()
            },
            &[]
        ),
        bad
    );
    assert_eq!(
        open(
            CoordinatorHostConfig { election_interval: TimeSpan::zero(), ..Default::default() },
            &[]
        ),
        bad
    );
}
