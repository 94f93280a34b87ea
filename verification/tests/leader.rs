//! A leader at work: registrations, allocations, handoffs, plans, recovery, operations.
use lattice_placement::plan::{
    MoveProgress, PlanError, PlanReason, PlanStatus, ProposedMove, RebalanceMove, RebalancePlan,
    RebalanceProposal, RebalanceTrigger,
};
use lattice_placement::region::EntityConfig;
use lattice_placement::runtime::admin::{ForceRemoveRequest, ManualRelocationRequest};
use lattice_placement::runtime::admin_record::{
    AdminOperationRecord, AdminOperationResult, AdminOperationStatus,
};
use lattice_placement::runtime::allocation::{AllocationStep, SingletonPolicy, SingletonStep};
use lattice_placement::runtime::claims::ResumeStep;
use lattice_placement::runtime::config::CoordinatorLeaderConfig;
use lattice_placement::runtime::control::{
    ControlAction, ControlEvent, CoordinatorScope, PlacementControlCommand,
};
use lattice_placement::runtime::errors::{CoordinatorRuntimeError, StorageError};
use lattice_placement::runtime::handoff::{
    Handoff, HandoffEffect, HandoffEvent, HandoffPhase,
};
use lattice_placement::runtime::handoffs::{
    may_source_claim, must_release_source_claim, HandoffTransition,
};
use lattice_placement::runtime::host::built_in_strategy;
use lattice_placement::runtime::members::{
    AssociationKey, MemberRecord, MemberStatus, MembershipVersion, NodeHello, SingletonConfig,
};
use lattice_placement::runtime::recovery::{CommitStyle, RecoveryAction};
use lattice_placement::runtime::snapshot::{
    cluster_slot_record_key, member_record_key, slot_record_key, snapshot_slots,
};
use lattice_placement::runtime::state::DurableLimits;
use lattice_placement::runtime::view::LoadReadings;
use lattice_placement::runtime::CoordinatorLeader;
use lattice_placement::sessions::SessionSet;
use lattice_placement::sorted::{SortedMap, SortedSet};
use lattice_placement::time::{MonotonicTime, TimeSpan};
use lattice_placement::types::{
    AssignmentGeneration, ConfigFingerprint, CoordinatorTerm, NodeAddress, NodeIncarnation,
    NodeKey, PlacementSlot, PlacementSlotKey, PlacementSlotState, PlacementVersion, PlanRevision,
    ProtocolId, Revision, ShardId,
};

const DOMAIN: &str = "world";

fn node(name: &str, port: u16, incarnation: u128) -> NodeKey {
    NodeKey {
        node_id: name.to_string(),
        address: NodeAddress { host: "127.0.0.1".to_string(), port },
        incarnation: NodeIncarnation::new(incarnation).unwrap(),
    }
}

fn association(node: &NodeKey) -> AssociationKey {
    AssociationKey {
        cluster_id: "cluster".to_string(),
        local_incarnation: NodeIncarnation::new(1).unwrap(),
        remote_address: node.address.clone(),
        remote_incarnation: node.incarnation,
    }
}

fn texts(items: &[&str]) -> SortedSet<String> {
    let mut set = SortedSet::new();
    for item in items {
        set.insert(item.to_string());
    }
    set
}

fn hello(node: &NodeKey) -> NodeHello {
    NodeHello {
        domain: DOMAIN.to_string(),
        node: node.clone(),
        hosted_entity_types: SortedSet::new(),
        proxied_entity_types: SortedSet::new(),
        singleton_eligibility: SortedSet::new(),
        used_singletons: SortedSet::new(),
        entity_configs: Vec::new(),
        singleton_configs: Vec::new(),
        capacity_units: 10,
    }
}

fn entity_config(entity_type: &str, protocol: u64) -> EntityConfig {
    EntityConfig::new(
        DOMAIN.to_string(),
        entity_type.to_string(),
        ProtocolId::new(protocol).unwrap(),
        8,
        "weighted-least-load".to_string(),
        1,
        Vec::new(),
    )
    .unwrap()
}

fn hosting(node: &NodeKey, entity_type: &str, protocol: u64) -> NodeHello {
    NodeHello {
        hosted_entity_types: texts(&[entity_type]),
        entity_configs: vec![entity_config(entity_type, protocol)],
        ..hello(node)
    }
}

fn singleton_config(kind: &str, protocol: u64) -> SingletonConfig {
    SingletonConfig {
        domain: DOMAIN.to_string(),
        kind: kind.to_string(),
        protocol_id: ProtocolId::new(protocol).unwrap(),
        config_fingerprint: ConfigFingerprint::new([4; 32]),
    }
}

fn record(node: &NodeKey, protocol: u64) -> MemberRecord {
    MemberRecord {
        node: node.clone(),
        status: MemberStatus::Up,
        version: MembershipVersion { term: 1, revision: 1 },
        lease_id: 5,
        release_id: 1,
        protocols: vec![ProtocolId::new(protocol).unwrap()],
    }
}

fn limits() -> DurableLimits {
    DurableLimits {
        maximum_entity_configs: 16,
        maximum_singleton_configs: 16,
        maximum_admin_operation_records: 4,
        admin_operation_retention: TimeSpan::from_secs(60),
        maximum_reconciliation_work_per_pass: 4,
    }
}

fn elect(
    config: CoordinatorLeaderConfig,
    slots: &Vec<PlacementSlot>,
    plans: &Vec<RebalancePlan>,
) -> CoordinatorLeader {
    CoordinatorLeader::elect(
        config,
        limits(),
        DOMAIN.to_string(),
        CoordinatorTerm::new(1).unwrap(),
        2,
        MembershipVersion { term: 1, revision: 1 },
        built_in_strategy(),
        slots,
        plans,
    )
    .unwrap_or_else(|_| panic!("a leader is elected"))
}

fn join(leader: &mut CoordinatorLeader, hello: NodeHello, protocol: u64) {
    let key = association(&hello.node);
    assert_eq!(leader.admit_hello(&hello, &key, None), Ok(None));
    let member = record(&hello.node, protocol);
    leader.join(hello, member, key, TimeSpan::zero(), MonotonicTime::from_millis(0));
}

fn shard_key(entity_type: &str, shard: u32) -> PlacementSlotKey {
    PlacementSlotKey::Shard {
        domain: DOMAIN.to_string(),
        entity_type: entity_type.to_string(),
        shard_id: ShardId::new(shard),
    }
}

fn version(revision: u64) -> PlacementVersion {
    PlacementVersion {
        domain: DOMAIN.to_string(),
        term: CoordinatorTerm::new(1).unwrap(),
        revision: Revision::new(revision).unwrap(),
    }
}

fn slot(key: PlacementSlotKey, owner: &NodeKey, state: PlacementSlotState) -> PlacementSlot {
    PlacementSlot {
        key,
        config_fingerprint: ConfigFingerprint::new([9; 32]),
        owner: Some(owner.clone()),
        target: None,
        assignment_generation: AssignmentGeneration::new(1).unwrap(),
        version: version(1),
        state,
        active_move: None,
        barrier_sessions: SessionSet::new(),
    }
}

fn handoff_of(slot: &PlacementSlot, phase: HandoffPhase) -> Handoff {
    Handoff {
        plan_id: slot.active_move.unwrap(),
        source: slot.owner.clone().unwrap(),
        target: slot.target.clone().unwrap(),
        source_generation: slot.assignment_generation,
        target_generation: slot.assignment_generation.next().unwrap(),
        phase,
        barrier_version: slot.version.clone(),
        required_sessions: slot.barrier_sessions.copy(),
    }
}

#[test]
fn persisted_handoff_barrier_replaces_claim_forward() {
    let source = node("source", 26101, 101);
    let target = node("target", 26102, 102);
    let entity = "handoff-entity";
    let key = shard_key(entity, 1);
    let stored = slot(key.clone(), &source, PlacementSlotState::Running);
    let mut leader = elect(CoordinatorLeaderConfig::default(), &vec![stored.clone()], &Vec::new());
    join(&mut leader, hosting(&source, entity, 77), 77);
    join(&mut leader, hosting(&target, entity, 77), 77);

    let relocation = |target: &NodeKey| ManualRelocationRequest {
        operation_id: "manual-1".to_string(),
        entity_type: entity.to_string(),
        shard_id: ShardId::new(1),
        expected_generation: AssignmentGeneration::new(1).unwrap(),
        target_node_id: target.node_id.clone(),
    };
    let request = relocation(&target);
    assert_eq!(leader.relocated_before(&request), Ok(None));
    let proposal = leader.manual_relocate(&request, &Some(stored.clone())).unwrap();
    let plan = leader.submit_rebalance(proposal, &entity.to_string()).unwrap();
    assert!(leader.revalidate_plan(&plan, &vec![Some(stored.clone())]).is_ok());
    let plan_id = plan.plan_id;
    leader.remember_plan(plan);
    let created = leader
        .new_admin_operation(
            "manual-1".to_string(),
            lattice_placement::runtime::admin::relocation_fingerprint(&request),
            AdminOperationResult::PlanCreated { plan_id },
            leader.version.clone(),
            1,
        )
        .unwrap();
    leader.record_admin_operation(created);
    assert_eq!(leader.relocated_before(&request), Ok(Some(plan_id)));
    assert_eq!(
        leader.relocated_before(&relocation(&source)),
        Err(CoordinatorRuntimeError::IdempotencyConflict)
    );

    assert_eq!(leader.can_start_move(plan_id, ShardId::new(1)), Ok(true));
    let reservation = leader.begin_move(plan_id, ShardId::new(1), Some(stored)).unwrap();
    let entered = reservation.slot;
    assert_eq!(entered.state, PlacementSlotState::BeginHandoff);
    assert_eq!(entered.barrier_sessions.to_vec().len(), 2);
    leader.remember_plan(reservation.plan);
    leader.note_version(entered.version.clone());
    leader.install_handoff(key.clone(), handoff_of(&entered, HandoffPhase::Invalidating));

    let draining = HandoffTransition::Moves {
        next: handoff_of(&entered, HandoffPhase::Draining),
        effects: vec![HandoffEffect::DrainSource],
    };
    assert_eq!(
        leader.transition_handoff(&key, draining),
        Ok(vec![HandoffEffect::DrainSource])
    );
    let stopping = leader.drain_source(&key, Some(entered)).unwrap();
    assert_eq!(stopping.state, PlacementSlotState::Stopping);
    leader.note_version(stopping.version.clone());
    assert_eq!(leader.drain_recipient(&key), Some(association(&source)));

    let replaced = leader.replace_authority(&key, Some(stopping), None);
    assert!(replaced.fault.is_none());
    assert_eq!(replaced.slots.len(), 2);
    assert_eq!(replaced.slots[0].state, PlacementSlotState::Fenced);
    let allocating = replaced.slots[1].clone();
    assert_eq!(allocating.state, PlacementSlotState::Allocating);
    assert_eq!(allocating.owner.as_ref(), Some(&target));
    leader.note_version(allocating.version.clone());
    let grant = leader.grant_target_claim(&key).unwrap();
    assert_eq!(grant.owner, target);
    assert_eq!(leader.install_claim(grant, 9), Ok(association(&target)));
    assert_eq!(leader.claim_lease(&key), Some(9));

    let active = leader.publish_active(&key, Some(allocating)).unwrap();
    assert_eq!(active.state, PlacementSlotState::Running);
    assert!(active.active_move.is_none());
    let completed = leader.complete_plan_move(plan_id, ShardId::new(1)).unwrap();
    assert_eq!(completed.plan.status, PlanStatus::Completed);
    leader.remember_plan(completed.plan);
    leader.finish_handoff(&key, active.version.clone(), MonotonicTime::from_millis(7));
    assert_eq!(
        leader.transition_handoff(&key, HandoffTransition::Rejected("late".to_string())),
        Err(CoordinatorRuntimeError::UnknownHandoff)
    );
}

#[test]
fn first_resolution_allocates_shard_and_singleton_to_declared_host() {
    let proxy = node("proxy", 26201, 201);
    let host = node("host", 26202, 202);
    let entity = "allocated-entity";
    let kind = "allocated-singleton";
    let mut leader = elect(CoordinatorLeaderConfig::default(), &Vec::new(), &Vec::new());
    join(
        &mut leader,
        NodeHello {
            proxied_entity_types: texts(&[entity]),
            used_singletons: texts(&[kind]),
            capacity_units: 1,
            ..hello(&proxy)
        },
        55,
    );
    join(
        &mut leader,
        NodeHello {
            singleton_eligibility: texts(&[kind]),
            singleton_configs: vec![singleton_config(kind, 55)],
            ..hosting(&host, entity, 55)
        },
        55,
    );
    let step = leader.ensure_cluster_shard_allocated(&entity.to_string(), ShardId::new(3), &None);
    match step.unwrap() {
        AllocationStep::Allocate(request) => {
            assert_eq!(request.shard_id, ShardId::new(3));
            assert_eq!(request.required_protocol, ProtocolId::new(55).unwrap());
        }
        _ => panic!("a strategy is asked"),
    }
    let shard = leader
        .allocate_shard(&entity.to_string(), ShardId::new(3), host.clone())
        .unwrap();
    assert_eq!(shard.owner.as_ref(), Some(&host));
    assert_eq!(shard.state, PlacementSlotState::Allocating);
    let grant = leader.persist_initial_allocation(&shard).unwrap();
    assert_eq!(grant.owner, host);
    leader.note_version(shard.version.clone());
    let generation = shard.assignment_generation;
    let running = leader.complete_initial_ready(&host, generation, Some(shard)).unwrap();
    assert_eq!(running.state, PlacementSlotState::Running);
    leader.note_running(&running.key, running.version.clone(), MonotonicTime::from_millis(1));
    assert!(matches!(
        leader.ensure_cluster_shard_allocated(
            &entity.to_string(),
            ShardId::new(3),
            &Some(running)
        ),
        Ok(AllocationStep::Settled)
    ));

    let singleton =
        match leader.ensure_cluster_singleton_allocated(&kind.to_string(), &None).unwrap() {
            SingletonStep::Allocate(slot) => slot,
            _ => panic!("the singleton is placed"),
        };
    assert_eq!(singleton.owner.as_ref(), Some(&host));
    leader.note_version(singleton.version.clone());
    let generation = singleton.assignment_generation;
    let running = leader.complete_initial_ready(&host, generation, Some(singleton)).unwrap();
    assert_eq!(running.state, PlacementSlotState::Running);
}

#[test]
fn what_cannot_be_allocated_is_refused() {
    let leader = elect(CoordinatorLeaderConfig::default(), &Vec::new(), &Vec::new());
    let unknown = "unknown".to_string();
    assert!(matches!(
        leader.ensure_shard_allocated(&unknown, ShardId::new(0), &None),
        Err(CoordinatorRuntimeError::UnknownEntityConfig)
    ));
    let host = node("host", 1, 7);
    let mut leader = elect(CoordinatorLeaderConfig::default(), &Vec::new(), &Vec::new());
    join(&mut leader, hosting(&host, "entity", 5), 5);
    assert!(matches!(
        leader.ensure_shard_allocated(&"entity".to_string(), ShardId::new(8), &None),
        Err(CoordinatorRuntimeError::ShardOutOfRange)
    ));
    let mut fenced = slot(shard_key("entity", 1), &host, PlacementSlotState::Fenced);
    assert!(matches!(
        leader.ensure_shard_allocated(
            &"entity".to_string(),
            ShardId::new(1),
            &Some(fenced.clone())
        ),
        Ok(AllocationStep::Reinstall)
    ));
    fenced.active_move = Some(3);
    assert!(matches!(
        leader.ensure_shard_allocated(&"entity".to_string(), ShardId::new(1), &Some(fenced)),
        Err(CoordinatorRuntimeError::StaleHandoff)
    ));
}

#[test]
fn admin_pause_is_idempotent_fingerprinted_and_inspectable() {
    let mut leader = elect(CoordinatorLeaderConfig::default(), &Vec::new(), &Vec::new());
    let entity_type = Some("admin-entity".to_string());
    assert!(leader.set_automatic_paused("pause-1".to_string(), &entity_type, true).is_ok());
    assert!(leader.set_automatic_paused("pause-1".to_string(), &entity_type, true).is_ok());
    assert_eq!(
        leader.set_automatic_paused("pause-1".to_string(), &entity_type, false),
        Err(CoordinatorRuntimeError::IdempotencyConflict)
    );
    assert_eq!(
        leader.prior_admin_operation(
            &"pause-1".to_string(),
            &"automatic:admin-entity:true".to_string(),
        ),
        Ok(Some(AdminOperationResult::AutomaticBalanceUpdated))
    );
    let inspection = leader.inspect(Vec::new(), Vec::new());
    assert_eq!(inspection.version.term, CoordinatorTerm::new(1).unwrap());
    assert_eq!(inspection.paused_entity_types, vec!["admin-entity".to_string()]);
    assert_eq!(inspection.retained_admin_operations, 1);

    let record = leader
        .new_admin_operation(
            "relocate-1".to_string(),
            "move:a".to_string(),
            AdminOperationResult::PlanCreated { plan_id: 42 },
            leader.version.clone(),
            1,
        )
        .unwrap();
    leader.record_admin_operation(record);
    assert_eq!(
        leader.prior_admin_operation(&"relocate-1".to_string(), &"move:a".to_string()),
        Ok(Some(AdminOperationResult::PlanCreated { plan_id: 42 }))
    );
    assert_eq!(
        leader.prior_admin_operation(&"relocate-1".to_string(), &"move:b".to_string()),
        Err(CoordinatorRuntimeError::IdempotencyConflict)
    );
}

fn closed_plan(id: u128) -> RebalancePlan {
    RebalancePlan {
        plan_id: id,
        domain: DOMAIN.to_string(),
        entity_type: "history-entity".to_string(),
        reason: PlanReason::Manual,
        coordinator_term: CoordinatorTerm::new(1).unwrap(),
        base_version: version(id as u64),
        record_revision: PlanRevision::new(1).unwrap(),
        policy_id: "test".to_string(),
        policy_version: 1,
        status: PlanStatus::Completed,
        moves: Vec::new(),
    }
}

#[test]
fn terminal_plan_history_compacts_oldest_persisted_record() {
    let mut leader = elect(
        CoordinatorLeaderConfig {
            maximum_completed_plan_history: 2,
            ..CoordinatorLeaderConfig::default()
        },
        &Vec::new(),
        &Vec::new(),
    );
    for id in 1..=3_u128 {
        leader.remember_plan(closed_plan(id));
    }
    let forgotten = leader.compact_plan_history();
    assert_eq!(forgotten, vec![1]);
    for id in forgotten {
        leader.forget_plan(id);
    }
    assert!(leader.plans.get(&1).is_none());
    assert!(leader.plans.get(&2).is_some());
    assert!(leader.plans.get(&3).is_some());
    assert_eq!(leader.plans.len(), 2);
}

fn proposal(source: &NodeKey, target: &NodeKey, entity: &str, generation: u64) -> RebalanceProposal {
    RebalanceProposal {
        domain: DOMAIN.to_string(),
        policy_id: "test".to_string(),
        policy_version: 1,
        base_version: version(1),
        trigger: RebalanceTrigger::Manual {
            source: Some(source.clone()),
            target: Some(target.clone()),
            bypass_improvement: true,
        },
        moves: vec![ProposedMove {
            domain: DOMAIN.to_string(),
            entity_type: entity.to_string(),
            shard_id: ShardId::new(4),
            expected_generation: AssignmentGeneration::new(generation).unwrap(),
            source: source.clone(),
            target: target.clone(),
            estimated_weight: 1,
        }],
    }
}

#[test]
fn leader_recovery_resumes_handoff_and_cancels_stale_pending_move() {
    let source = node("source", 26301, 301);
    let target = node("target", 26302, 302);
    let entity = "recovery-entity";
    let shard_id = ShardId::new(4);
    let term = CoordinatorTerm::new(1).unwrap();
    let mut started = RebalancePlan::from_proposal(
        proposal(&source, &target, entity, 1),
        entity.to_string(),
        term,
        4,
    )
    .unwrap();
    started
        .begin_move(shard_id, AssignmentGeneration::new(1).unwrap(), None)
        .unwrap();
    started.install_barrier(shard_id, version(2), SessionSet::new()).unwrap();
    let stale = RebalancePlan::from_proposal(
        proposal(&source, &target, entity, 9),
        entity.to_string(),
        term,
        4,
    )
    .unwrap();
    let stale_id = stale.plan_id;
    let key = shard_key(entity, 4);
    let stored = PlacementSlot {
        target: Some(target.clone()),
        version: version(2),
        active_move: Some(started.plan_id),
        ..slot(key.clone(), &source, PlacementSlotState::BeginHandoff)
    };
    let mut leader = elect(
        CoordinatorLeaderConfig::default(),
        &vec![stored.clone()],
        &vec![started, stale],
    );
    assert_eq!(leader.version.revision, Revision::new(2).unwrap());
    let mut slots = SortedMap::new();
    slots.insert(key.clone(), stored.clone());
    let (actions, fault) = leader.recover_persisted_plans(slots, CommitStyle::Separate);
    assert!(fault.is_none());
    let mut resumed = 0;
    for action in &actions {
        match action {
            RecoveryAction::ResumeHandoff(seed) => {
                resumed += 1;
                assert_eq!(seed.source, source);
                assert_eq!(seed.target, target);
            }
            RecoveryAction::UpdatePlan(update) => assert_eq!(update.plan.plan_id, stale_id),
            _ => panic!("nothing else is written"),
        }
    }
    assert_eq!(resumed, 1);
    assert_eq!(leader.plans.get(&stale_id).unwrap().status, PlanStatus::Cancelled);

    // No session is waited for, so the source is asked to stop at once.
    leader.install_handoff(key.clone(), handoff_of(&stored, HandoffPhase::Draining));
    let stopping = leader.drain_source(&key, Some(stored)).unwrap();
    assert_eq!(stopping.state, PlacementSlotState::Stopping);
}

/// A plan in which the one move has begun, and one in which it has not.
fn rival_plans(source: &NodeKey, target: &NodeKey, entity: &str) -> (RebalancePlan, RebalancePlan) {
    let term = CoordinatorTerm::new(1).unwrap();
    let make = || {
        RebalancePlan::from_proposal(
            proposal(source, target, entity, 1),
            entity.to_string(),
            term,
            4,
        )
        .unwrap()
    };
    let mut begun = make();
    let generation = AssignmentGeneration::new(1).unwrap();
    begun.begin_move(ShardId::new(4), generation, None).unwrap();
    begun.install_barrier(ShardId::new(4), version(2), SessionSet::new()).unwrap();
    begun.plan_id = 1;
    let mut pending = make();
    pending.plan_id = 2;
    (begun, pending)
}

#[test]
fn recovery_cancels_a_move_of_a_shard_that_an_earlier_plan_has_begun_again() {
    let source = node("source", 26301, 301);
    let target = node("target", 26302, 302);
    let entity = "recovery-entity";
    let key = shard_key(entity, 4);
    for style in [CommitStyle::Separate, CommitStyle::Joint] {
        let (begun, pending) = rival_plans(&source, &target, entity);
        let stored = slot(key.clone(), &source, PlacementSlotState::Running);
        let mut leader = elect(
            CoordinatorLeaderConfig::default(),
            &vec![stored.clone()],
            &vec![begun, pending],
        );
        let mut slots = SortedMap::new();
        slots.insert(key.clone(), stored);
        let (actions, fault) = leader.recover_persisted_plans(slots, style);
        assert!(fault.is_none());
        match (style, &actions[..]) {
            (
                CommitStyle::Separate,
                [RecoveryAction::PutSlot(written), RecoveryAction::ResumeHandoff(seed), RecoveryAction::UpdatePlan(first), RecoveryAction::UpdatePlan(second)],
            ) => {
                assert_eq!(written.slot.state, PlacementSlotState::BeginHandoff);
                assert_eq!(written.slot.active_move, Some(1));
                assert_eq!(seed.plan_id, 1);
                assert_eq!(first.plan.plan_id, 1);
                assert_eq!(second.plan.plan_id, 2);
                assert_eq!(second.plan.moves[0].progress, MoveProgress::Cancelled);
            }
            (
                CommitStyle::Joint,
                [RecoveryAction::ReserveMove(reservation), RecoveryAction::ResumeHandoff(seed), RecoveryAction::UpdatePlan(update)],
            ) => {
                assert_eq!(reservation.slot.state, PlacementSlotState::BeginHandoff);
                assert_eq!(reservation.slot.active_move, Some(1));
                assert_eq!(seed.plan_id, 1);
                assert_eq!(update.plan.plan_id, 2);
                assert_eq!(update.plan.moves[0].progress, MoveProgress::Cancelled);
            }
            _ => panic!("recovery does something else"),
        }
        assert_eq!(leader.plans.get(&2).unwrap().status, PlanStatus::Cancelled);
    }
}

#[test]
fn recovery_begins_a_shard_again_for_one_plan_only() {
    let source = node("source", 26301, 301);
    let target = node("target", 26302, 302);
    let entity = "recovery-entity";
    let key = shard_key(entity, 4);
    for style in [CommitStyle::Separate, CommitStyle::Joint] {
        let (first, _) = rival_plans(&source, &target, entity);
        let (mut second, _) = rival_plans(&source, &target, entity);
        second.plan_id = 2;
        let stored = slot(key.clone(), &source, PlacementSlotState::Running);
        let mut leader = elect(
            CoordinatorLeaderConfig::default(),
            &vec![stored.clone()],
            &vec![first, second],
        );
        let mut slots = SortedMap::new();
        slots.insert(key.clone(), stored);
        let (actions, fault) = leader.recover_persisted_plans(slots, style);
        assert!(fault.is_none());
        let mut written = 0;
        let mut seeds = Vec::new();
        for action in &actions {
            match action {
                RecoveryAction::PutSlot(_) | RecoveryAction::ReserveMove(_) => written += 1,
                RecoveryAction::ResumeHandoff(seed) => seeds.push(seed),
                RecoveryAction::UpdatePlan(update) => assert_eq!(update.plan.plan_id, 1),
            }
        }
        assert_eq!(written, 1);
        assert_eq!(seeds.len(), 2);
        assert_eq!(seeds[0].plan_id, 1);
        assert_eq!(seeds[1].plan_id, 2);
        assert_eq!(seeds[1].slot.active_move, Some(1));
        assert_eq!(seeds[1].slot.version, seeds[0].slot.version);
        assert_eq!(seeds[1].barrier_version, seeds[0].barrier_version);
    }
}

#[test]
fn source_is_released_once_its_claim_is_proven() {
    let source = node("source", 1, 1);
    let target = node("target", 2, 2);
    let key = shard_key("entity", 4);
    let stopping = PlacementSlot {
        target: Some(target.clone()),
        active_move: Some(7),
        ..slot(key.clone(), &source, PlacementSlotState::Stopping)
    };
    let mut leader = elect(
        CoordinatorLeaderConfig::default(),
        &vec![stopping.clone()],
        &Vec::new(),
    );
    let unknown = leader.replace_authority(&key, Some(stopping.clone()), None);
    assert_eq!(unknown.fault, Some(CoordinatorRuntimeError::UnknownHandoff));
    assert!(!must_release_source_claim(true, &unknown.fault));
    leader.install_handoff(key.clone(), handoff_of(&stopping, HandoffPhase::Draining));

    let gone = leader.replace_authority(&key, None, None);
    assert_eq!(gone.fault, Some(CoordinatorRuntimeError::UnknownSlot));
    assert!(!may_source_claim(&None));
    assert!(!must_release_source_claim(true, &gone.fault));

    let mut foreign = leader.grant_target_claim(&key).unwrap();
    let refused = leader.replace_authority(&key, Some(stopping.clone()), Some(foreign.clone()));
    assert_eq!(refused.fault, Some(CoordinatorRuntimeError::ClaimNotProven));
    assert!(!must_release_source_claim(true, &refused.fault));

    foreign.owner = source.clone();
    foreign.assignment_generation = stopping.assignment_generation;
    let proven = leader.replace_authority(&key, Some(stopping.clone()), Some(foreign.clone()));
    assert_eq!(proven.fault, None);
    assert_eq!(proven.withdrawn.as_ref(), Some(&foreign));
    assert!(may_source_claim(&Some(stopping.clone())));
    assert!(must_release_source_claim(true, &proven.fault));

    let stale = PlacementSlot { active_move: Some(8), ..stopping.clone() };
    let late = leader.replace_authority(&key, Some(stale), Some(foreign.clone()));
    assert_eq!(late.fault, Some(CoordinatorRuntimeError::StaleHandoff));
    assert_eq!(late.withdrawn.as_ref(), Some(&foreign));
    assert!(must_release_source_claim(true, &late.fault));

    let fenced = PlacementSlot { state: PlacementSlotState::Fenced, ..stopping };
    assert!(!may_source_claim(&Some(fenced)));
    assert!(!must_release_source_claim(false, &proven.fault));
}

#[test]
fn domain_inspection_shows_how_reconciliation_stands() {
    let mut leader = elect(CoordinatorLeaderConfig::default(), &Vec::new(), &Vec::new());
    let limits = leader.limits;
    let now = TimeSpan::from_millis(5_000);
    let fresh = leader.inspect_domain(Vec::new(), Vec::new(), limits, now);
    assert_eq!(fresh.reconciliation_backlog, 0);
    assert_eq!(fresh.reconciliation_oldest_pending_millis, None);
    assert_eq!(fresh.reconciliation_last_success_age_millis, None);
    assert!(fresh.quarantined_records.is_empty());
    assert!(!leader.reconciliation.is_degraded());

    leader.reconciliation.backlog = 3;
    leader.reconciliation.oldest_pending = Some(TimeSpan::from_nanos_saturating(1_000_500_000));
    leader.reconciliation.last_success = Some(TimeSpan::from_millis(6_000));
    leader.reconciliation.quarantined.insert("slot/b".to_string(), "unreadable".to_string());
    leader.reconciliation.quarantined.insert("slot/a".to_string(), "foreign".to_string());
    let shown = leader.inspect_domain(Vec::new(), vec![closed_plan(1)], limits, now);
    assert_eq!(shown.leader.version, leader.version);
    assert_eq!(shown.leader.plans.len(), 1);
    assert_eq!(shown.reconciliation_backlog, 3);
    assert_eq!(shown.reconciliation_oldest_pending_millis, Some(3_999));
    assert_eq!(shown.reconciliation_last_success_age_millis, Some(0));
    assert_eq!(
        shown.quarantined_records,
        vec![
            ("slot/a".to_string(), "foreign".to_string()),
            ("slot/b".to_string(), "unreadable".to_string()),
        ]
    );
    assert_eq!(shown.durable_limits, limits);
    assert!(leader.reconciliation.is_degraded());

    leader.reconciliation.oldest_pending = Some(TimeSpan::zero());
    let longest = TimeSpan::from_nanos_saturating(u128::MAX);
    let late = leader.inspect_domain(Vec::new(), Vec::new(), limits, longest);
    assert_eq!(late.reconciliation_oldest_pending_millis, Some(u64::MAX));
}

#[test]
fn cluster_operations_are_recorded_up_to_their_limit() {
    let mut leader = elect(
        CoordinatorLeaderConfig { maximum_operations: 1, ..CoordinatorLeaderConfig::default() },
        &Vec::new(),
        &Vec::new(),
    );
    let created = AdminOperationResult::PlanCreated { plan_id: 42 };
    assert_eq!(
        leader.record_cluster_operation("first".to_string(), "move:a".to_string(), created),
        Ok(())
    );
    assert_eq!(
        leader.prior_admin_operation(&"first".to_string(), &"move:a".to_string()),
        Ok(Some(AdminOperationResult::PlanCreated { plan_id: 42 }))
    );
    let created = AdminOperationResult::PlanCreated { plan_id: 43 };
    assert_eq!(
        leader.record_cluster_operation("second".to_string(), "move:b".to_string(), created),
        Err(CoordinatorRuntimeError::OperationCapacity)
    );
    assert_eq!(
        leader.prior_admin_operation(&"second".to_string(), &"move:b".to_string()),
        Ok(None)
    );
}

#[test]
fn singleton_owner_loss_recovers_forward_after_leader_restart() {
    let source = node("source", 26401, 401);
    let target = node("target", 26402, 402);
    let kind = "recovering-singleton".to_string();
    let mut leader = elect(
        CoordinatorLeaderConfig {
            member_heartbeat_timeout: TimeSpan::from_millis(10),
            ..CoordinatorLeaderConfig::default()
        },
        &Vec::new(),
        &Vec::new(),
    );
    for member in [&source, &target] {
        join(
            &mut leader,
            NodeHello {
                singleton_eligibility: texts(&[&kind]),
                used_singletons: texts(&[&kind]),
                singleton_configs: vec![singleton_config(&kind, 77)],
                ..hello(member)
            },
            77,
        );
    }
    let initial = match leader.ensure_cluster_singleton_allocated(&kind, &None).unwrap() {
        SingletonStep::Allocate(slot) => slot,
        _ => panic!("the singleton is placed"),
    };
    assert_eq!(initial.owner.as_ref(), Some(&source));
    let key = initial.key.clone();
    leader.note_version(initial.version.clone());
    let generation = initial.assignment_generation;
    let running = leader.complete_initial_ready(&source, generation, Some(initial)).unwrap();
    leader.note_version(running.version.clone());

    assert_eq!(
        leader.expired_sessions(TimeSpan::from_millis(11)),
        vec![source.incarnation, target.incarnation]
    );
    let departure = leader.remove_session(source.incarnation).unwrap();
    assert_eq!(departure.node, source);
    let persisted =
        leader.begin_singleton_recovery(&running, SingletonPolicy::First).unwrap().unwrap();
    assert_eq!(persisted.state, PlacementSlotState::BeginHandoff);
    assert_eq!(persisted.target.as_ref(), Some(&target));
    leader.note_version(persisted.version.clone());

    // A new leader finds the handoff in the slot.
    let mut slots = SortedMap::new();
    slots.insert(key.clone(), persisted.clone());
    let (actions, fault) = leader.recover_persisted_plans(slots, CommitStyle::Separate);
    assert!(fault.is_none());
    assert!(matches!(&actions[..], [RecoveryAction::ResumeHandoff(_)]));
    leader.install_handoff(key.clone(), handoff_of(&persisted, HandoffPhase::Draining));
    let stopping = leader.drain_source(&key, Some(persisted)).unwrap();
    leader.note_version(stopping.version.clone());
    assert!(matches!(
        leader.conclude_source_gone(&key, &None),
        Some(HandoffEvent::SourceAuthorityInvalid { .. })
    ));
    let replaced = leader.replace_authority(&key, Some(stopping), None);
    let allocating = replaced.slots.last().unwrap().clone();
    assert_eq!(allocating.state, PlacementSlotState::Allocating);
    assert_eq!(allocating.owner.as_ref(), Some(&target));
    assert_eq!(allocating.assignment_generation.get(), 2);
    leader.note_version(allocating.version.clone());
    assert_eq!(leader.grant_target_claim(&key).unwrap().owner, target);
    let active = leader.publish_active(&key, Some(allocating)).unwrap();
    assert_eq!(active.state, PlacementSlotState::Running);
    assert!(active.active_move.is_none());
    assert!(active.barrier_sessions.is_empty());
}

#[test]
fn plans_refuse_what_does_not_fit() {
    let source = node("source", 1, 1);
    let target = node("target", 2, 2);
    let term = CoordinatorTerm::new(1).unwrap();
    let make = |maximum: usize, entity: &str| {
        RebalancePlan::from_proposal(
            proposal(&source, &target, "entity", 1),
            entity.to_string(),
            term,
            maximum,
        )
    };
    assert_eq!(make(0, "entity").err(), Some(PlanError::InvalidMoveCount));
    assert!(make(1, "another").is_err());
    let mut plan = make(1, "entity").unwrap();
    let shard = ShardId::new(4);
    let generation = AssignmentGeneration::new(1).unwrap();
    assert_eq!(plan.begin_move(ShardId::new(5), generation, None), Err(PlanError::UnknownShard));
    assert_eq!(plan.begin_move(shard, generation, Some(1)), Err(PlanError::MoveConflict));
    assert_eq!(plan.complete_move(shard), Err(PlanError::IllegalProgress));
    assert_eq!(
        plan.begin_move(shard, AssignmentGeneration::new(2).unwrap(), None),
        Err(PlanError::StaleGeneration)
    );
    assert!(plan.begin_move(shard, generation, None).is_ok());
    assert_eq!(plan.cancel_pending_move(shard), Err(PlanError::CannotRollbackHandoff));
    assert_eq!(plan.target_reservations(), vec![(target.clone(), 1)]);
    assert_eq!(plan.recover_forward_shards(), vec![shard]);
    assert!(plan.complete_move(shard).is_ok());
    assert_eq!(plan.status, PlanStatus::Completed);
    assert_eq!(plan.moves[0].progress, MoveProgress::Completed);
    assert!(plan.target_reservations().is_empty());
}

#[test]
fn fresh_plans_have_fresh_identities() {
    let source = node("source", 1, 1);
    let target = node("target", 2, 2);
    let make = || {
        RebalancePlan::from_proposal(
            proposal(&source, &target, "entity", 1),
            "entity".to_string(),
            CoordinatorTerm::new(1).unwrap(),
            4,
        )
        .unwrap()
    };
    let one = make();
    let other = make();
    assert_ne!(one.plan_id, other.plan_id);
    assert_eq!((one.plan_id >> 76) & 0xf, 4);
    assert_eq!((one.plan_id >> 62) & 0x3, 2);
}

#[test]
fn a_more_urgent_plan_takes_precedence_over_pending_moves_only() {
    let source = node("source", 1, 1);
    let target = node("target", 2, 2);
    let mut leader = elect(CoordinatorLeaderConfig::default(), &Vec::new(), &Vec::new());
    let plan = RebalancePlan::from_proposal(
        proposal(&source, &target, "entity", 1),
        "entity".to_string(),
        CoordinatorTerm::new(1).unwrap(),
        4,
    )
    .unwrap();
    leader.remember_plan(plan);
    let (none, fault) = leader.preempt_lower_priority(&PlanReason::Automatic);
    assert!(none.is_empty() && fault.is_none());
    let (updates, fault) = leader.preempt_lower_priority(&PlanReason::Recovery);
    assert!(fault.is_none());
    assert_eq!(updates.len(), 1);
    assert_eq!(updates[0].plan.moves[0].progress, MoveProgress::Cancelled);
    assert_eq!(updates[0].plan.status, PlanStatus::Cancelled);
}

#[test]
fn a_node_that_is_not_as_it_says_is_turned_away() {
    let member = node("member", 1, 7);
    let mut leader = elect(CoordinatorLeaderConfig::default(), &Vec::new(), &Vec::new());
    let stranger = association(&node("stranger", 2, 8));
    assert_eq!(
        leader.admit_hello(&hello(&member), &stranger, None),
        Err(CoordinatorRuntimeError::UnauthorizedCommand)
    );
    assert_eq!(
        leader.admit_hello(&hello(&member), &association(&member), Some("bad".to_string())),
        Err(CoordinatorRuntimeError::Coordinator("bad".to_string()))
    );
    join(&mut leader, hosting(&member, "entity", 5), 5);
    let other = node("other", 3, 9);
    assert_eq!(
        leader.admit_hello(&hosting(&other, "entity", 6), &association(&other), None),
        Err(CoordinatorRuntimeError::ConfigurationConflict)
    );
}

fn command(
    leader: &mut CoordinatorLeader,
    from: &NodeKey,
    command: PlacementControlCommand,
    now: u64,
) -> Result<ControlAction, CoordinatorRuntimeError> {
    leader.handle_control(
        ControlEvent::Command {
            association: association(from),
            scope: CoordinatorScope::Placement(DOMAIN.to_string()),
            command,
        },
        TimeSpan::from_millis(now),
    )
}

#[test]
fn commands_are_taken_from_members_only() {
    let member = node("member", 1, 7);
    let stranger = node("stranger", 2, 8);
    let mut leader = elect(CoordinatorLeaderConfig::default(), &Vec::new(), &Vec::new());
    join(&mut leader, hosting(&member, "entity", 5), 5);
    let beat = |from: &NodeKey, sequence: u64| PlacementControlCommand::NodeHeartbeat {
        incarnation: from.incarnation,
        sequence,
    };
    assert!(matches!(
        command(&mut leader, &member, beat(&member, 1), 5),
        Ok(ControlAction::KeepLease { lease_id: 5 })
    ));
    // A beat that was heard before renews nothing; one that counts nothing is refused.
    assert!(matches!(
        command(&mut leader, &member, beat(&member, 1), 6),
        Ok(ControlAction::Nothing)
    ));
    assert!(command(&mut leader, &member, beat(&member, 0), 6).is_err());
    assert!(command(&mut leader, &stranger, beat(&stranger, 1), 6).is_err());
    assert!(command(&mut leader, &member, PlacementControlCommand::Other, 6).is_err());
    assert!(leader.expired_sessions(TimeSpan::from_secs(15)).is_empty());
    assert_eq!(leader.expired_sessions(TimeSpan::from_secs(16)), vec![member.incarnation]);
}

#[test]
fn claims_go_to_the_owner_with_a_growing_sequence() {
    let owner = node("owner", 1, 7);
    let other = node("other", 2, 8);
    let leader = elect(CoordinatorLeaderConfig::default(), &Vec::new(), &Vec::new());
    let placed = slot(shard_key("entity", 1), &owner, PlacementSlotState::Running);
    let first = leader.reconcile_claim(&owner, &placed, &None).unwrap().unwrap();
    assert_eq!(first.grant_sequence.get(), 1);
    let second = leader.reconcile_claim(&owner, &placed, &Some(first)).unwrap().unwrap();
    assert_eq!(second.grant_sequence.get(), 2);
    assert_eq!(leader.reconcile_claim(&other, &placed, &None), Ok(None));
}

#[test]
fn a_lost_leadership_ends_the_leader() {
    let mut leader = elect(CoordinatorLeaderConfig::default(), &Vec::new(), &Vec::new());
    let lost: Result<(), _> = Err(CoordinatorRuntimeError::Storage(StorageError::LeadershipLost));
    assert_eq!(
        leader.conclude_operation(&lost),
        Err(CoordinatorRuntimeError::Storage(StorageError::LeadershipLost))
    );
    assert_eq!(leader.conclude_operation(&Ok(())), Ok(()));
    assert_eq!(leader.counters.leadership_loss_count, 1);
    assert_eq!(
        leader.surrender_lease(StorageError::LeadershipLost),
        CoordinatorRuntimeError::Storage(StorageError::LeadershipLost)
    );
    assert_eq!(leader.counters.leadership_loss_count, 2);
    let key = shard_key("entity", 1);
    assert_eq!(leader.note_claim_renewal(&key, &Err(StorageError::Deadline)), Ok(false));
    assert!(leader.reconciliation_focus.contains(&key));
    assert_eq!(leader.note_claim_renewal(&key, &Ok(())), Ok(true));
}

#[test]
fn operations_are_kept_for_as_long_as_they_may_be_asked_again() {
    let mut leader = elect(CoordinatorLeaderConfig::default(), &Vec::new(), &Vec::new());
    for (name, now) in [("a", 1_u64), ("b", 2), ("c", 3), ("d", 4)] {
        let record = leader
            .new_admin_operation(
                name.to_string(),
                "f".to_string(),
                AdminOperationResult::AutomaticBalanceUpdated,
                version(1),
                now,
            )
            .unwrap();
        assert_eq!(record.status, AdminOperationStatus::Completed);
        assert_eq!(record.expires_unix_millis, now + 60_000);
        leader.record_admin_operation(record);
    }
    assert!(leader.reserve_admin_operation_capacity().is_err());
    let forgotten: Vec<AdminOperationRecord> =
        leader.compact_admin_operation_history_for(0, 60_002);
    assert_eq!(forgotten.len(), 2);
    assert_eq!(forgotten[0].operation_id, "a");
    for record in forgotten {
        leader.forget_admin_operation(&record.operation_id);
    }
    assert!(leader.reserve_admin_operation_capacity().is_ok());
}

#[test]
fn operations_that_were_carried_out_are_found_again() {
    let mut leader = elect(CoordinatorLeaderConfig::default(), &Vec::new(), &Vec::new());
    let mut record = |id: &str, fingerprint: &str, result: AdminOperationResult| {
        let record = leader
            .new_admin_operation(id.to_string(), fingerprint.to_string(), result, version(1), 1)
            .unwrap();
        leader.record_admin_operation(record);
    };
    record("evaluate", "evaluate:entity", AdminOperationResult::EvaluationCompleted { plan: None });
    let cancel = lattice_placement::runtime::admin::cancel_fingerprint(7, ShardId::new(2));
    record(
        "cancel",
        &cancel,
        AdminOperationResult::PendingMoveCancelled { plan_id: 7, shard_id: ShardId::new(2) },
    );
    let text = |text: &str| text.to_string();
    assert_eq!(
        leader.evaluated_before(&text("evaluate"), &text("evaluate:entity")),
        Ok(Some(None))
    );
    assert_eq!(leader.evaluated_before(&text("another"), &text("evaluate:entity")), Ok(None));
    assert_eq!(
        leader.evaluated_before(&text("evaluate"), &text("evaluate:other")),
        Err(CoordinatorRuntimeError::IdempotencyConflict)
    );
    assert_eq!(
        leader.evaluated_before(&text("cancel"), &cancel),
        Err(CoordinatorRuntimeError::IdempotencyConflict)
    );
    assert_eq!(leader.cancelled_before(&text("cancel"), 7, ShardId::new(2)), Ok(true));
    assert_eq!(leader.cancelled_before(&text("anew"), 7, ShardId::new(2)), Ok(false));
    assert_eq!(
        leader.cancelled_before(&text("cancel"), 7, ShardId::new(3)),
        Err(CoordinatorRuntimeError::IdempotencyConflict)
    );
    assert_eq!(
        leader.cancelled_before(&String::new(), 7, ShardId::new(2)),
        Err(CoordinatorRuntimeError::InvalidAdminOperation)
    );
}

#[test]
fn a_forced_removal_names_the_boot_it_removes() {
    let member = node("member", 1, 7);
    let leader = elect(CoordinatorLeaderConfig::default(), &Vec::new(), &Vec::new());
    let request = |incarnation: u128| ForceRemoveRequest {
        operation_id: "remove-1".to_string(),
        node_id: "member".to_string(),
        expected_incarnation: NodeIncarnation::new(incarnation).unwrap(),
    };
    assert_eq!(leader.removed_before(&request(7)), Ok(false));
    assert!(leader.force_remove(&request(7), &Some(record(&member, 5))).is_ok());
    assert!(leader.force_remove(&request(8), &Some(record(&member, 5))).is_err());
}

#[test]
fn a_handoff_is_taken_up_again_with_a_node_that_returns() {
    let source = node("source", 1, 7);
    let target = node("target", 2, 8);
    let mut leader = elect(CoordinatorLeaderConfig::default(), &Vec::new(), &Vec::new());
    join(&mut leader, hosting(&source, "entity", 5), 5);
    let key = shard_key("entity", 1);
    let stopping = PlacementSlot {
        target: Some(target.clone()),
        active_move: Some(3),
        ..slot(key.clone(), &source, PlacementSlotState::Stopping)
    };
    leader.install_handoff(key.clone(), handoff_of(&stopping, HandoffPhase::Draining));
    assert_eq!(leader.resume_handoffs_for(&source), vec![key.clone()]);
    let step = leader.resume_handoff(&key, &source, &Some(stopping), &None);
    assert!(matches!(
        step,
        Ok(ResumeStep::Transition(HandoffEvent::SourceAuthorityInvalid { .. }))
            | Ok(ResumeStep::SendDrain { .. })
    ));
}

#[test]
fn a_view_shows_who_can_take_what() {
    let member = node("member", 1, 7);
    let mut leader = elect(CoordinatorLeaderConfig::default(), &Vec::new(), &Vec::new());
    join(&mut leader, hosting(&member, "entity", 5), 5);
    let placed = slot(shard_key("entity", 1), &member, PlacementSlotState::Running);
    let loads = LoadReadings { nodes: SortedMap::new(), shards: SortedMap::new() };
    let view = leader.placement_view(
        &DOMAIN.to_string(),
        &vec![placed],
        &loads,
        MonotonicTime::from_millis(9),
    );
    assert_eq!(view.nodes.len(), 1);
    assert_eq!(view.nodes[0].key, member);
    assert!(view.nodes[0].ready);
    assert_eq!(view.shards.len(), 1);
    assert_eq!(view.shards[0].owner, member);
    assert_eq!(view.active_cluster_moves, 0);
    assert!(!view.reconciled);
    assert!(!view.degraded);
}

#[test]
fn a_view_of_a_cluster_shows_every_member_as_ready() {
    let member = node("member", 1, 7);
    let mut leader = elect(CoordinatorLeaderConfig::default(), &Vec::new(), &Vec::new());
    join(&mut leader, hosting(&member, "entity", 5), 5);
    leader.reconciliation.quarantined.insert("slot/a".to_string(), "foreign".to_string());
    let (begun, pending) = rival_plans(&member, &node("target", 2, 8), "entity");
    leader.remember_plan(begun);
    leader.remember_plan(pending);
    let placed = slot(shard_key("entity", 1), &member, PlacementSlotState::Running);
    let elsewhere = PlacementSlot {
        key: PlacementSlotKey::Shard {
            domain: "another".to_string(),
            entity_type: "entity".to_string(),
            shard_id: ShardId::new(2),
        },
        ..placed.clone()
    };
    let unplaced = PlacementSlot { owner: None, ..placed.clone() };
    let loads = LoadReadings { nodes: SortedMap::new(), shards: SortedMap::new() };
    assert!(leader.reserved_weights_fit());
    let view = leader.cluster_placement_view(
        &vec![placed, unplaced, elsewhere],
        &loads,
        MonotonicTime::from_millis(9),
    );
    assert!(view.reconciled);
    assert!(!view.degraded);
    assert_eq!(view.nodes.len(), 1);
    assert!(view.nodes[0].ready);
    assert_eq!(view.shards.len(), 2);
    assert_eq!(view.shards[1].domain, "another");
    assert_eq!(view.active_cluster_moves, 1);
    assert_eq!(view.active_source_moves.get(&member), Some(&1));
}

#[test]
fn records_of_a_snapshot_have_their_keys() {
    let member = node("member", 1, 7);
    assert_eq!(member_record_key(&member), "member/member");
    let shard = shard_key("entity", 120);
    assert_eq!(slot_record_key(&shard), "domain/world/shard/entity/120");
    assert_eq!(cluster_slot_record_key(&shard), "shard/entity/120");
    let singleton =
        PlacementSlotKey::Singleton { domain: DOMAIN.to_string(), kind: "season".to_string() };
    assert_eq!(slot_record_key(&singleton), "domain/world/singleton/season");
    assert_eq!(cluster_slot_record_key(&singleton), "singleton/season");
    let seen = slot(shard, &member, PlacementSlotState::Running);
    let unseen = slot(shard_key("another", 0), &member, PlacementSlotState::Running);
    let shown = snapshot_slots(&hosting(&member, "entity", 5), &vec![unseen, seen]);
    assert_eq!(shown.len(), 1);
    assert_eq!(shown[0].key, shard_key("entity", 120));
}

#[test]
fn a_leader_is_not_elected_under_a_faulty_configuration() {
    let attempt = |config: CoordinatorLeaderConfig, generation: u64| {
        CoordinatorLeader::elect(
            config,
            limits(),
            DOMAIN.to_string(),
            CoordinatorTerm::new(1).unwrap(),
            generation,
            MembershipVersion { term: 1, revision: 1 },
            built_in_strategy(),
            &Vec::new(),
            &Vec::new(),
        )
        .err()
    };
    assert_eq!(attempt(CoordinatorLeaderConfig::default(), 1), None);
    assert_eq!(
        attempt(CoordinatorLeaderConfig::default(), 0),
        Some(CoordinatorRuntimeError::InvalidConfig)
    );
    assert_eq!(
        attempt(
            CoordinatorLeaderConfig {
                renewal_interval: TimeSpan::from_secs(10),
                ..CoordinatorLeaderConfig::default()
            },
            1
        ),
        Some(CoordinatorRuntimeError::InvalidConfig)
    );
}

#[test]
fn nodes_that_drain_are_leaving() {
    let member = node("member", 1, 7);
    let mut leader = elect(CoordinatorLeaderConfig::default(), &Vec::new(), &Vec::new());
    join(&mut leader, hosting(&member, "entity", 5), 5);
    assert!(leader.leaving_sessions().is_empty());
    let drain = PlacementControlCommand::BeginDrain {
        operation_id: "drain".to_string(),
        expected_incarnation: member.incarnation,
    };
    match command(&mut leader, &member, drain, 1) {
        Ok(ControlAction::EvaluateDrain { node, entity_types }) => {
            assert_eq!(node, member);
            assert_eq!(entity_types, vec!["entity".to_string()]);
        }
        _ => panic!("what the node hosts is moved"),
    }
    assert_eq!(leader.leaving_sessions(), vec![member.incarnation]);
}

#[test]
fn weights_that_are_on_their_way_are_counted_or_not() {
    let source = node("source", 1, 7);
    let target = node("target", 2, 8);
    let mut leader = elect(CoordinatorLeaderConfig::default(), &Vec::new(), &Vec::new());
    assert!(leader.reserved_weights_fit());
    let moving = |id: u128, weight: u64| RebalancePlan {
        status: PlanStatus::Running,
        moves: vec![RebalanceMove {
            shard_id: ShardId::new(id as u32),
            expected_generation: AssignmentGeneration::new(1).unwrap(),
            source: source.clone(),
            target: target.clone(),
            estimated_weight: weight,
            progress: MoveProgress::Pending,
            barrier_version: None,
            barrier_sessions: SessionSet::new(),
        }],
        ..closed_plan(id)
    };
    leader.remember_plan(moving(1, u64::MAX));
    assert!(leader.reserved_weights_fit());
    assert!(leader.domain_weights_fit(&DOMAIN.to_string()));
    leader.remember_plan(moving(2, 1));
    assert!(!leader.reserved_weights_fit());
    assert!(!leader.domain_weights_fit(&DOMAIN.to_string()));
    assert!(leader.domain_weights_fit(&"elsewhere".to_string()));
}
