//! The leader of a placement domain: its members, their configurations, its singletons.
use lattice_placement::keymap::Key;
use lattice_placement::region::EntityConfig;
use lattice_placement::runtime::allocation::{
    singleton_placement_rank, AllocationStep, SingletonPolicy, SingletonStep,
};
use lattice_placement::runtime::config::CoordinatorLeaderConfig;
use lattice_placement::runtime::control::{
    ControlAction, ControlEvent, CoordinatorScope, MemberRemovalReason, PlacementControlCommand,
};
use lattice_placement::runtime::election::candidate_delay_duration;
use lattice_placement::runtime::errors::CoordinatorRuntimeError;
use lattice_placement::runtime::handoff::ClaimLease;
use lattice_placement::runtime::host::built_in_strategy;
use lattice_placement::runtime::members::{
    AssociationKey, MemberRecord, MemberStatus, MembershipVersion, NodeHello, SingletonConfig,
};
use lattice_placement::runtime::registration::{DomainMemberStep, RegisterStep};
use lattice_placement::runtime::state::DurableLimits;
use lattice_placement::runtime::CoordinatorLeader;
use lattice_placement::sorted::SortedSet;
use lattice_placement::time::{MonotonicTime, TimeSpan};
use lattice_placement::types::{
    ConfigFingerprint, CoordinatorTerm, NodeAddress, NodeIncarnation, NodeKey, PlacementSlotState,
    PlacementVersion, ProtocolId, Revision, ShardId,
};

const DOMAIN: &str = "world";

fn node(name: &str, port: u16, incarnation: u128) -> NodeKey {
    NodeKey {
        node_id: name.to_string(),
        address: NodeAddress { host: "127.0.0.1".to_string(), port },
        incarnation: NodeIncarnation::new(incarnation).unwrap(),
    }
}

fn association(node: &NodeKey) -> AssociationKey {
    AssociationKey {
        cluster_id: "cluster".to_string(),
        local_incarnation: NodeIncarnation::new(1).unwrap(),
        remote_address: node.address.clone(),
        remote_incarnation: node.incarnation,
    }
}

fn texts(items: &[&str]) -> SortedSet<String> {
    let mut set = SortedSet::new();
    for item in items {
        set.insert(item.to_string());
    }
    set
}

fn entity_config(entity_type: &str, shard_count: u32) -> EntityConfig {
    EntityConfig::new(
        DOMAIN.to_string(),
        entity_type.to_string(),
        ProtocolId::new(5).unwrap(),
        shard_count,
        "weighted-least-load".to_string(),
        1,
        Vec::new(),
    )
    .unwrap()
}

fn singleton_config(kind: &str) -> SingletonConfig {
    SingletonConfig {
        domain: DOMAIN.to_string(),
        kind: kind.to_string(),
        protocol_id: ProtocolId::new(5).unwrap(),
        config_fingerprint: ConfigFingerprint::new([4; 32]),
    }
}

fn hello(node: &NodeKey) -> NodeHello {
    NodeHello {
        domain: DOMAIN.to_string(),
        node: node.clone(),
        hosted_entity_types: texts(&["entity"]),
        proxied_entity_types: SortedSet::new(),
        singleton_eligibility: texts(&["season"]),
        used_singletons: SortedSet::new(),
        entity_configs: vec![entity_config("entity", 8)],
        singleton_configs: vec![singleton_config("season")],
        capacity_units: 10,
    }
}

fn record(node: &NodeKey, release_id: u64) -> MemberRecord {
    MemberRecord {
        node: node.clone(),
        status: MemberStatus::Up,
        version: MembershipVersion { term: 2, revision: 3 },
        lease_id: 5,
        release_id,
        protocols: vec![ProtocolId::new(5).unwrap()],
    }
}

fn leader() -> CoordinatorLeader {
    CoordinatorLeader::elect(
        CoordinatorLeaderConfig::default(),
        DurableLimits {
            maximum_entity_configs: 1,
            maximum_singleton_configs: 1,
            maximum_admin_operation_records: 4,
            admin_operation_retention: TimeSpan::from_secs(60),
            maximum_reconciliation_work_per_pass: 4,
        },
        DOMAIN.to_string(),
        CoordinatorTerm::new(1).unwrap(),
        2,
        MembershipVersion { term: 1, revision: 1 },
        built_in_strategy(),
        &Vec::new(),
        &Vec::new(),
    )
    .unwrap_or_else(|_| panic!("a leader is elected"))
}

fn revision(leader: &CoordinatorLeader) -> u64 {
    leader.version.revision.get()
}

/// Registers a node, stores what is to be stored, and takes it up.
fn take_up(leader: &mut CoordinatorLeader, node: &NodeKey, release_id: u64) {
    let said = hello(node);
    let key = association(node);
    let stored = record(node, release_id);
    let step = leader.register(&said, &key, None, Some(stored.copy()), TimeSpan::zero());
    let record = match step {
        Ok(RegisterStep::Join { record }) => record,
        _ => panic!("the node joins"),
    };
    for config in &said.entity_configs {
        assert!(leader.persist_entity_config(config).is_ok());
        leader.adopt_entity_config(config);
    }
    for config in &said.singleton_configs {
        assert!(leader.persist_singleton_config(config).is_ok());
        leader.adopt_singleton_config(config);
    }
    let joined = leader.join_domain(
        said,
        &record,
        Some(stored),
        key,
        TimeSpan::zero(),
        MonotonicTime::from_millis(1),
    );
    assert_eq!(joined, Ok(()));
    let before = revision(leader);
    let member = match leader.ensure_domain_member_up(node.incarnation, None) {
        Ok(DomainMemberStep::Create { member }) => member,
        _ => panic!("the record is created"),
    };
    assert_eq!(member.version.revision.get(), before + 1);
    assert_eq!(leader.install_domain_member(node.incarnation, member), Ok(()));
    assert_eq!(revision(leader), before + 1);
}

#[test]
fn a_node_is_registered_as_the_membership_knows_it() {
    let mut leader = leader();
    let member = node("member", 1, 7);
    let key = association(&member);
    let mut attempt = |said: &NodeHello, key: &AssociationKey, stored: Option<MemberRecord>| {
        leader.register(said, key, None, stored, TimeSpan::zero()).err()
    };
    let said = hello(&member);
    assert_eq!(
        attempt(&said, &key, None),
        Some(CoordinatorRuntimeError::StaleMember)
    );
    let leaving = MemberRecord { status: MemberStatus::Leaving, ..record(&member, 1) };
    assert_eq!(
        attempt(&said, &key, Some(leaving)),
        Some(CoordinatorRuntimeError::StaleMember)
    );
    assert_eq!(
        attempt(&said, &association(&node("other", 2, 8)), Some(record(&member, 1))),
        Some(CoordinatorRuntimeError::UnauthorizedCommand)
    );
    let elsewhere = NodeHello { domain: "elsewhere".to_string(), ..hello(&member) };
    assert_eq!(
        attempt(&elsewhere, &key, Some(record(&member, 1))),
        Some(CoordinatorRuntimeError::UnauthorizedCommand)
    );
    assert_eq!(attempt(&said, &key, Some(record(&member, 1))), None);
}

#[test]
fn a_node_that_says_hello_again_is_refreshed() {
    let mut leader = leader();
    let member = node("member", 1, 7);
    take_up(&mut leader, &member, 1);
    assert_eq!(leader.membership_version, MembershipVersion { term: 2, revision: 3 });
    let said = hello(&member);
    let key = association(&member);
    let at = TimeSpan::from_secs(3);
    let again = leader.register(&said, &key, None, Some(record(&member, 1)), at);
    assert!(matches!(again, Ok(RegisterStep::Refreshed { .. })));
    assert_eq!(leader.sessions.get(&member.incarnation).unwrap().last_heartbeat, at);
    let changed = NodeHello { capacity_units: 11, ..hello(&member) };
    assert_eq!(
        leader.register(&changed, &key, None, Some(record(&member, 1)), at).err(),
        Some(CoordinatorRuntimeError::UnauthorizedCommand)
    );
}

#[test]
fn configurations_stand_once_they_are_stored() {
    let mut leader = leader();
    take_up(&mut leader, &node("member", 1, 7), 1);
    assert_eq!(leader.persist_entity_config(&entity_config("entity", 8)), Ok(false));
    assert_eq!(
        leader.persist_entity_config(&entity_config("entity", 9)),
        Err(CoordinatorRuntimeError::ConfigurationConflict)
    );
    assert_eq!(
        leader.persist_entity_config(&entity_config("more", 8)),
        Err(CoordinatorRuntimeError::ConfigurationCapacity)
    );
    assert_eq!(leader.persist_singleton_config(&singleton_config("season")), Ok(false));
    assert_eq!(
        leader.persist_singleton_config(&singleton_config("weather")),
        Err(CoordinatorRuntimeError::ConfigurationCapacity)
    );
}

#[test]
fn the_record_of_a_member_follows_its_hello() {
    let mut leader = leader();
    let member = node("member", 1, 7);
    take_up(&mut leader, &member, 1);
    let id = member.incarnation;
    let existing = |leader: &CoordinatorLeader| {
        leader.sessions.get(&id).unwrap().domain_record.as_ref().map(|record| record.copy())
    };
    assert!(matches!(
        leader.ensure_domain_member_up(id, existing(&leader)),
        Ok(DomainMemberStep::Keep { .. })
    ));
    let mut predecessor = existing(&leader).unwrap();
    predecessor.node = node("member", 1, 6);
    assert!(matches!(
        leader.ensure_domain_member_up(id, Some(predecessor)),
        Ok(DomainMemberStep::RemovePredecessor { .. })
    ));
    let mut older = existing(&leader).unwrap();
    older.hello.capacity_units = 9;
    assert!(matches!(
        leader.ensure_domain_member_up(id, Some(older)),
        Ok(DomainMemberStep::Update { .. })
    ));
    assert!(matches!(
        leader.ensure_domain_member_up(NodeIncarnation::new(9).unwrap(), None),
        Err(CoordinatorRuntimeError::UnknownSession)
    ));

    let wider = NodeHello { proxied_entity_types: texts(&["other"]), ..hello(&member) };
    assert_eq!(leader.check_domain_hello(id, &hello(&member), None), Ok(false));
    assert_eq!(leader.check_domain_hello(id, &wider, None), Ok(true));
    let update = leader
        .persist_domain_hello(id, &wider)
        .unwrap_or_else(|_| panic!("the hello is stored"));
    assert_eq!(update.expected_global_member.lease_id, 5);
    let stored = update.member;
    let recipient = leader.apply_domain_hello(id, wider, stored);
    assert_eq!(recipient, Ok(association(&member)));
    assert!(leader.sessions.get(&id).unwrap().hello.subscribes_to(&"other".to_string()));
}

#[test]
fn members_are_brought_up_to_date_in_the_shortest_way() {
    let mut leader = leader();
    let first = node("first", 1, 7);
    let second = node("second", 2, 8);
    take_up(&mut leader, &first, 1);
    let applied = leader.version.clone();
    let scope = || CoordinatorScope::Placement(DOMAIN.to_string());
    let event = |node: &NodeKey, command: PlacementControlCommand| ControlEvent::Command {
        association: association(node),
        scope: scope(),
        command,
    };
    let heard = leader.handle_domain_control(
        event(&first, PlacementControlCommand::AppliedRevision(applied)),
        TimeSpan::zero(),
    );
    assert!(matches!(heard, Ok(ControlAction::Transition { .. })));
    assert!(leader.ready_for_claims(first.incarnation).is_some());
    take_up(&mut leader, &second, 1);
    // The first has applied all but the last revision, the second nothing.
    let steps = leader.synchronize_sessions();
    assert_eq!(steps.len(), 2);
    assert_eq!(steps[0].association, association(&first));
    assert!(steps[0].by_delta);
    assert_eq!(steps[1].association, association(&second));
    assert!(!steps[1].by_delta);
    assert!(leader.ready_for_claims(first.incarnation).is_none());
    assert!(leader.ready_for_claims(second.incarnation).is_none());
}

#[test]
fn a_member_is_up_once_it_has_the_snapshot_it_was_sent() {
    let mut leader = leader();
    let member = node("member", 1, 7);
    take_up(&mut leader, &member, 1);
    let id = member.incarnation;
    let key = association(&member);
    let sent = MembershipVersion { term: 2, revision: 3 };
    assert_eq!(leader.mark_member_up(id, sent, &key), Ok(true));
    let older = MembershipVersion { term: 2, revision: 2 };
    assert_eq!(leader.mark_member_up(id, older, &key), Ok(false));
    let newer = MembershipVersion { term: 2, revision: 4 };
    assert_eq!(
        leader.mark_member_up(id, newer, &key),
        Err(CoordinatorRuntimeError::StaleMember)
    );
    assert_eq!(
        leader.mark_member_up(id, sent, &association(&node("other", 2, 7))),
        Err(CoordinatorRuntimeError::StaleMember)
    );
}

#[test]
fn a_domain_answers_for_itself_only() {
    let mut leader = leader();
    let member = node("member", 1, 7);
    take_up(&mut leader, &member, 1);
    let mut send = |scope: CoordinatorScope, command: PlacementControlCommand| {
        let event =
            ControlEvent::Command { association: association(&member), scope, command };
        leader.handle_domain_control(event, TimeSpan::zero())
    };
    let here = || CoordinatorScope::Placement(DOMAIN.to_string());
    let there = || CoordinatorScope::Placement("elsewhere".to_string());
    let resolve = |domain: &str| PlacementControlCommand::ResolveShard {
        domain: domain.to_string(),
        entity_type: "entity".to_string(),
        shard_id: ShardId::new(1),
    };
    assert!(matches!(send(here(), resolve(DOMAIN)), Ok(ControlAction::EnsureShard { .. })));
    assert!(send(here(), resolve("elsewhere")).is_err());
    assert!(send(there(), resolve(DOMAIN)).is_err());
    assert!(send(CoordinatorScope::Membership, resolve(DOMAIN)).is_err());
    assert!(matches!(
        send(here(), PlacementControlCommand::SubscribeSingleton("weather".to_string())),
        Ok(ControlAction::PersistHello { .. })
    ));
    assert!(send(here(), PlacementControlCommand::MemberHello).is_err());
    let other = NodeIncarnation::new(99).unwrap();
    let begin = PlacementControlCommand::BeginDrain {
        operation_id: "drain".to_string(),
        expected_incarnation: other,
    };
    match send(here(), begin) {
        Ok(ControlAction::BeginMemberDrain { session, operation_id, expected_incarnation }) => {
            assert_eq!(session, member.incarnation);
            assert_eq!(operation_id, "drain");
            assert_eq!(expected_incarnation, other);
        }
        _ => panic!("the drain begins"),
    }
    let complete = PlacementControlCommand::DrainComplete {
        operation_id: "drain".to_string(),
        expected_incarnation: other,
    };
    match send(here(), complete) {
        Ok(ControlAction::CompleteMemberDrain { session, operation_id, expected_incarnation }) => {
            assert_eq!(session, member.incarnation);
            assert_eq!(operation_id, "drain");
            assert_eq!(expected_incarnation, other);
        }
        _ => panic!("the drain completes"),
    }
    let removed = leader.handle_domain_control(
        ControlEvent::GlobalMemberRemoved {
            node: member.clone(),
            reason: MemberRemovalReason::ForceRemoved,
        },
        TimeSpan::zero(),
    );
    assert!(matches!(
        removed,
        Ok(ControlAction::RemoveMember { reason: MemberRemovalReason::ForceRemoved, .. })
    ));
    let reconciled = leader.handle_domain_control(
        ControlEvent::Reconcile { association: association(&member) },
        TimeSpan::zero(),
    );
    assert!(matches!(reconciled, Ok(ControlAction::SendSnapshot { .. })));
    assert!(leader.reconciliation_focused);
}

fn expected_rank(kind: &str, node: &NodeKey) -> Vec<u8> {
    let mut input = kind.as_bytes().to_vec();
    input.push(0);
    input.extend_from_slice(node.node_id.as_bytes());
    input.extend_from_slice(&node.incarnation.get().to_be_bytes());
    blake3::hash(&input).as_bytes()[..16].to_vec()
}

#[test]
fn singletons_are_spread_over_the_latest_release() {
    let mut leader = leader();
    let old = node("old", 1, 7);
    let left = node("left", 2, 8);
    let right = node("right", 3, 9);
    take_up(&mut leader, &old, 1);
    take_up(&mut leader, &left, 2);
    take_up(&mut leader, &right, 2);
    let kind = "season".to_string();
    let (left_rank, right_rank) =
        (singleton_placement_rank(&kind, &left), singleton_placement_rank(&kind, &right));
    assert_eq!(left_rank, expected_rank("season", &left));
    assert_eq!(right_rank, expected_rank("season", &right));
    let (first, second) =
        if left_rank < right_rank { (&left, &right) } else { (&right, &left) };
    let config = singleton_config("season");
    assert_eq!(leader.select_singleton_target(&kind, &config, &None).as_ref(), Ok(first));
    assert_eq!(
        leader.select_singleton_target(&kind, &config, &Some(first.clone())).as_ref(),
        Ok(second)
    );
    let placed = match leader.ensure_singleton_allocated(&kind, &None) {
        Ok(SingletonStep::Allocate(slot)) => slot,
        _ => panic!("the singleton is placed"),
    };
    assert_eq!(placed.owner.as_ref(), Some(first));
    assert_eq!(placed.state, PlacementSlotState::Allocating);

    let mut running = placed.clone();
    running.state = PlacementSlotState::Running;
    let moved = leader
        .begin_singleton_recovery_as(77, &running, SingletonPolicy::Ranked)
        .unwrap_or_else(|_| panic!("the singleton recovers"))
        .unwrap();
    assert_eq!(moved.target.as_ref(), Some(second));
    assert_eq!(moved.active_move, Some(77));
    assert_eq!(moved.barrier_sessions.to_vec().len(), 3);
    // One that is not running is left alone.
    assert!(matches!(
        leader.begin_singleton_recovery_as(78, &placed, SingletonPolicy::Ranked),
        Ok(None)
    ));
}

#[test]
fn an_allocation_of_unknown_outcome_is_looked_up() {
    let mut leader = leader();
    let member = node("member", 1, 7);
    take_up(&mut leader, &member, 1);
    let entity = "entity".to_string();
    assert!(matches!(
        leader.ensure_shard_allocated(&entity, ShardId::new(1), &None),
        Ok(AllocationStep::Allocate(_))
    ));
    let slot = leader.allocate_shard(&entity, ShardId::new(1), member.clone()).unwrap();
    let grant = leader.persist_initial_allocation(&slot).unwrap();
    assert_eq!(grant.ttl, TimeSpan::from_secs(15));
    let stored = |lease_id: i64| Some(ClaimLease { lease_id, grant: grant.clone() });
    assert!(leader.settle_unknown_allocation(&stored(4), 4, &grant));
    assert!(leader.reconciliation_focused);
    assert!(!leader.settle_unknown_allocation(&stored(5), 4, &grant));
    assert!(!leader.settle_unknown_allocation(&None, 4, &grant));
}

#[test]
fn candidates_wait_for_what_their_hash_says() {
    let member = node("candidate", 33009, 9);
    let scope = CoordinatorScope::Placement("games".to_string());
    let mut input = b"placement/games\0candidate".to_vec();
    input.extend_from_slice(&9_u128.to_be_bytes());
    let mut prefix = [0_u8; 8];
    prefix.copy_from_slice(&blake3::hash(&input).as_bytes()[..8]);
    let expected = u64::from_be_bytes(prefix) % 1_001;
    assert_eq!(
        candidate_delay_duration(&scope, &member, TimeSpan::from_millis(1_000)),
        TimeSpan::from_millis(expected)
    );
}

#[test]
fn versions_are_ordered_within_a_domain() {
    let version = |term: u64, revision: u64| PlacementVersion {
        domain: DOMAIN.to_string(),
        term: CoordinatorTerm::new(term).unwrap(),
        revision: Revision::new(revision).unwrap(),
    };
    assert!(version(2, 1).is_later_than(&version(1, 9)));
    assert!(version(1, 2).is_later_than(&version(1, 1)));
    assert!(!version(1, 1).is_later_than(&version(1, 1)));
    assert!(version(1, 1).satisfies(&version(1, 1)));
    assert_eq!(version(1, 1).next_revision(), Some(version(1, 2)));
    assert_eq!(version(1, u64::MAX).next_revision(), None);
}
