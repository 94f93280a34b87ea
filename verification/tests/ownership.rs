//! Ownership: what a node may answer for, through watches, resyncs and fences.
use lattice_placement::epoch_floor::{
    EpochFloorRecord, OwnershipEpochFloorProof, OwnershipProofContext, OwnershipProofError,
};
use lattice_placement::ownership::gate::{
    OwnershipGate, OwnershipPlacement, OwnershipRejectionKind, OwnershipRejectionReason,
    OwnershipRequest,
};
use lattice_placement::ownership::resync::{
    OwnershipSnapshotRecord, OwnershipViewRecord, OwnershipViewSnapshot,
};
use lattice_placement::ownership::watch::{OwnershipWatchBatch, OwnershipWatchEvent};
use lattice_placement::ownership::{
    actor_key, singleton_key, virtual_shard_key, AbsenceEvidence, LocalOwnershipSnapshot,
    LocalOwnershipSnapshotConfig, LocalOwnershipState, OwnershipFenceReason, OwnershipRevision,
    OwnershipSnapshotError, SnapshotAvailability, StoreObservation, VersionedRecord,
};
use lattice_placement::records::{
    ActorId, ActorKind, ActorPlacementKey, ActorPlacementRecord, Epoch, InstanceRecord,
    InstanceState, LeaseId, OwnershipKey, OwnershipRecordBinding, PlacementRevision,
    PlacementState, RouteKey, ServiceKind, SingletonKey, SingletonPlacementRecord, VirtualShardId,
    VirtualShardPlacementKey, VirtualShardPlacementRecord,
};
use lattice_placement::sharding::VirtualShardMapper;

const INSTANCE_LEASE: LeaseId = LeaseId(11);

fn actor_entry<'a>(
    state: &'a LocalOwnershipState,
    key: &ActorPlacementKey,
) -> &'a VersionedRecord {
    state.placement(&OwnershipKey::Explicit(key.clone())).unwrap()
}

fn virtual_shard_entry<'a>(
    state: &'a LocalOwnershipState,
    key: &VirtualShardPlacementKey,
) -> &'a VersionedRecord {
    state.placement(&OwnershipKey::VirtualShard(key.clone())).unwrap()
}

fn singleton_entry<'a>(state: &'a LocalOwnershipState, key: &SingletonKey) -> &'a VersionedRecord {
    state.placement(&OwnershipKey::Singleton(key.clone())).unwrap()
}

fn entries(state: &LocalOwnershipState, wanted: fn(&OwnershipKey) -> bool) -> Vec<&VersionedRecord> {
    let mut found = Vec::new();
    for key in state.placement_keys() {
        if wanted(&key) {
            found.push(state.placement(&key).unwrap());
        }
    }
    found
}

fn actors(state: &LocalOwnershipState) -> Vec<&VersionedRecord> {
    entries(state, |key| matches!(key, OwnershipKey::Explicit(_)))
}

fn virtual_shards(state: &LocalOwnershipState) -> Vec<&VersionedRecord> {
    entries(state, |key| matches!(key, OwnershipKey::VirtualShard(_)))
}

fn singletons(state: &LocalOwnershipState) -> Vec<&VersionedRecord> {
    entries(state, |key| matches!(key, OwnershipKey::Singleton(_)))
}

fn assert_present_local(entry: &VersionedRecord) {
    assert!(
        matches!(&entry.observation, StoreObservation::PresentLocal(_)),
        "expected PresentLocal, got {:?}",
        entry.observation
    );
}

fn assert_present_remote(entry: &VersionedRecord) {
    assert!(
        matches!(&entry.observation, StoreObservation::PresentRemote(_)),
        "expected PresentRemote, got {:?}",
        entry.observation
    );
}

fn assert_lifecycle_fenced(entry: &VersionedRecord) {
    assert!(
        matches!(&entry.observation, StoreObservation::LifecycleFenced(_)),
        "expected LifecycleFenced, got {:?}",
        entry.observation
    );
}

fn assert_absent(entry: &VersionedRecord, expected_evidence: AbsenceEvidence) {
    assert!(
        matches!(
            &entry.observation,
            StoreObservation::Absent { evidence, .. } if *evidence == expected_evidence
        ),
        "expected Absent with {expected_evidence:?}, got {:?}",
        entry.observation
    );
}

#[test]
fn gate_starts_fenced_and_requires_epoch_after_resync() {
    let service = "World".to_string();
    let other_service = "Other".to_string();
    let actor = "World".to_string();
    let route_key = RouteKey::U64(7);
    let placement = OwnershipPlacement::Explicit;
    let mut snapshot = LocalOwnershipSnapshot::new(
        service.clone(),
        "world-a".to_string(),
        "world-a-boot".to_string(),
    );

    let cold = snapshot
        .gate()
        .authorize(request(
            &service,
            &actor,
            &actor,
            &route_key,
            Some(Epoch(3)),
            &placement,
        ))
        .unwrap_err();
    assert_eq!(cold.kind, OwnershipRejectionKind::Fenced);
    assert_eq!(
        cold.reason,
        OwnershipRejectionReason::SnapshotUnavailable {
            reason: OwnershipFenceReason::Initializing
        }
    );

    install_ready_instance(&mut snapshot, INSTANCE_LEASE);
    resync(&mut snapshot, INSTANCE_LEASE, Vec::new());
    snapshot
        .apply_actor(
            OwnershipRevision(1),
            actor_record(7, "world-a", 3, INSTANCE_LEASE, PlacementState::Running),
        )
        .unwrap();

    let wrong_service = snapshot
        .gate()
        .authorize(request(
            &other_service,
            &actor,
            &actor,
            &route_key,
            Some(Epoch(3)),
            &placement,
        ))
        .unwrap_err();
    assert_eq!(wrong_service.kind, OwnershipRejectionKind::NotOwner);
    assert!(matches!(
        wrong_service.reason,
        OwnershipRejectionReason::ServiceMismatch { .. }
    ));

    let missing_epoch = snapshot
        .gate()
        .authorize(request(
            &service, &actor, &actor, &route_key, None, &placement,
        ))
        .unwrap_err();
    assert_eq!(missing_epoch.kind, OwnershipRejectionKind::Fenced);
    assert_eq!(missing_epoch.reason, OwnershipRejectionReason::MissingEpoch);
}

#[test]
fn explicit_gate_revokes_grant_on_owner_change() {
    let mut snapshot = ready_snapshot(8);
    snapshot
        .apply_actor(
            OwnershipRevision(1),
            actor_record(7, "world-a", 3, INSTANCE_LEASE, PlacementState::Running),
        )
        .unwrap();
    let service = "World".to_string();
    let actor = "World".to_string();
    let route_key = RouteKey::U64(7);
    let placement = OwnershipPlacement::Explicit;

    let grant = snapshot
        .gate()
        .authorize(request(
            &service,
            &actor,
            &actor,
            &route_key,
            Some(Epoch(3)),
            &placement,
        ))
        .unwrap();
    assert!(snapshot.gate().is_current(&grant));

    snapshot
        .apply_actor(
            OwnershipRevision(2),
            actor_record(7, "world-b", 4, LeaseId(12), PlacementState::Running),
        )
        .unwrap();
    assert!(
        !snapshot
            .apply_actor(
                OwnershipRevision(1),
                actor_record(7, "world-a", 3, INSTANCE_LEASE, PlacementState::Running,),
            )
            .unwrap()
    );
    assert!(!snapshot.gate().is_current(&grant));
    let rejected = snapshot
        .gate()
        .authorize(request(
            &service,
            &actor,
            &actor,
            &route_key,
            Some(Epoch(3)),
            &placement,
        ))
        .unwrap_err();
    assert_eq!(rejected.kind, OwnershipRejectionKind::NotOwner);
    assert_eq!(rejected.reason, OwnershipRejectionReason::PlacementMissing);

    assert!(
        !snapshot
            .apply_actor(
                OwnershipRevision(4),
                actor_record(8, "world-b", 4, LeaseId(12), PlacementState::Running),
            )
            .unwrap()
    );
    assert!(
        !snapshot
            .apply_actor(
                OwnershipRevision(3),
                actor_record(8, "world-a", 3, INSTANCE_LEASE, PlacementState::Running,),
            )
            .unwrap()
    );
    let absent_route = RouteKey::U64(8);
    let absent_rejected = snapshot
        .gate()
        .authorize(request(
            &service,
            &actor,
            &actor,
            &absent_route,
            Some(Epoch(3)),
            &placement,
        ))
        .unwrap_err();
    assert_eq!(absent_rejected.kind, OwnershipRejectionKind::NotOwner);
    assert_eq!(
        absent_rejected.reason,
        OwnershipRejectionReason::PlacementMissing
    );
}

#[test]
fn explicit_gate_rejects_target_state_lease_and_epoch_mismatches() {
    let mut snapshot = ready_snapshot(8);
    let service = "World".to_string();
    let actor = "World".to_string();
    let other_actor = "Other".to_string();
    let route_key = RouteKey::U64(7);
    let placement = OwnershipPlacement::Explicit;
    snapshot
        .apply_actor(
            OwnershipRevision(1),
            actor_record(7, "world-a", 3, INSTANCE_LEASE, PlacementState::Running),
        )
        .unwrap();

    let wrong_kind = snapshot
        .gate()
        .authorize(request(
            &service,
            &actor,
            &other_actor,
            &route_key,
            Some(Epoch(3)),
            &placement,
        ))
        .unwrap_err();
    assert_eq!(wrong_kind.kind, OwnershipRejectionKind::NotOwner);
    assert!(matches!(
        wrong_kind.reason,
        OwnershipRejectionReason::ActorKindMismatch { .. }
    ));

    let stale = snapshot
        .gate()
        .authorize(request(
            &service,
            &actor,
            &actor,
            &route_key,
            Some(Epoch(2)),
            &placement,
        ))
        .unwrap_err();
    assert_eq!(stale.kind, OwnershipRejectionKind::Fenced);
    assert_eq!(stale.reason, OwnershipRejectionReason::EpochMismatch);
    assert_eq!(stale.current_epoch, Some(Epoch(3)));

    snapshot
        .apply_actor(
            OwnershipRevision(2),
            actor_record(7, "world-a", 3, INSTANCE_LEASE, PlacementState::Migrating),
        )
        .unwrap();
    let migrating = snapshot
        .gate()
        .authorize(request(
            &service,
            &actor,
            &actor,
            &route_key,
            Some(Epoch(3)),
            &placement,
        ))
        .unwrap_err();
    assert_eq!(
        migrating.reason,
        OwnershipRejectionReason::PlacementNotRunning {
            state: PlacementState::Migrating
        }
    );

    snapshot
        .apply_actor(
            OwnershipRevision(3),
            actor_record(7, "world-a", 4, LeaseId(99), PlacementState::Running),
        )
        .unwrap();
    let invalid_lease = snapshot
        .gate()
        .authorize(request(
            &service,
            &actor,
            &actor,
            &route_key,
            Some(Epoch(4)),
            &placement,
        ))
        .unwrap_err();
    assert_eq!(
        invalid_lease.reason,
        OwnershipRejectionReason::OwnerLeaseInvalid {
            lease_id: LeaseId(99)
        }
    );

    assert!(snapshot.update_instance_state(INSTANCE_LEASE, InstanceState::Draining));
    let draining_instance = snapshot
        .gate()
        .authorize(request(
            &service,
            &actor,
            &actor,
            &route_key,
            Some(Epoch(3)),
            &placement,
        ))
        .unwrap_err();
    assert_eq!(
        draining_instance.reason,
        OwnershipRejectionReason::InstanceNotReady {
            state: InstanceState::Draining
        }
    );
}

#[test]
fn virtual_shard_gate_uses_local_assignment_and_instance_lease() {
    let mut snapshot = ready_snapshot(8);
    let service = "World".to_string();
    let actor = "Player".to_string();
    let route_key = RouteKey::U64(42);
    let mapper = VirtualShardMapper::new(16).unwrap();
    let placement = OwnershipPlacement::VirtualShard { mapper };
    let shard_id = mapper.shard_for_route_key(&route_key);
    snapshot
        .apply_virtual_shard(
            OwnershipRevision(1),
            VirtualShardPlacementRecord {
                service_kind: service.clone(),
                actor_kind: actor.clone(),
                shard_id,
                owner: "world-a".to_string(),
                epoch: Epoch(5),
            },
        )
        .unwrap();

    let grant = snapshot
        .gate()
        .authorize(request(
            &service,
            &actor,
            &actor,
            &route_key,
            Some(Epoch(5)),
            &placement,
        ))
        .unwrap();
    assert!(matches!(grant.key(), OwnershipKey::VirtualShard(_)));
    assert_eq!(grant.lease_id(), INSTANCE_LEASE);
}

#[test]
fn singleton_gate_requires_string_scope_running_state_and_live_owner_lease() {
    let mut snapshot = ready_snapshot(8);
    let service = "World".to_string();
    let actor = "Season".to_string();
    let route_key = RouteKey::Str("global".to_string());
    let placement = OwnershipPlacement::Singleton;
    let singleton_lease = LeaseId(21);
    snapshot
        .set_owner_lease_valid(singleton_lease, true)
        .unwrap();
    snapshot
        .apply_singleton(
            OwnershipRevision(1),
            SingletonPlacementRecord {
                service_kind: service.clone(),
                singleton_kind: actor.clone(),
                scope: "global".to_string(),
                owner: "world-a".to_string(),
                owner_incarnation: "world-a-boot".to_string(),
                epoch: Epoch(9),
                lease_id: singleton_lease,
                state: PlacementState::Running,
            },
        )
        .unwrap();

    let grant = snapshot
        .gate()
        .authorize(request(
            &service,
            &actor,
            &actor,
            &route_key,
            Some(Epoch(9)),
            &placement,
        ))
        .unwrap();
    assert_eq!(grant.lease_id(), singleton_lease);

    snapshot
        .set_owner_lease_valid(singleton_lease, false)
        .unwrap();
    let fenced = snapshot
        .gate()
        .authorize(request(
            &service,
            &actor,
            &actor,
            &route_key,
            Some(Epoch(9)),
            &placement,
        ))
        .unwrap_err();
    assert_eq!(
        fenced.reason,
        OwnershipRejectionReason::OwnerLeaseInvalid {
            lease_id: singleton_lease
        }
    );

    let numeric_scope = RouteKey::U64(1);
    let invalid_route = snapshot
        .gate()
        .authorize(request(
            &service,
            &actor,
            &actor,
            &numeric_scope,
            Some(Epoch(9)),
            &placement,
        ))
        .unwrap_err();
    assert_eq!(
        invalid_route.reason,
        OwnershipRejectionReason::InvalidSingletonRoute
    );
}

#[test]
fn singleton_gate_rejects_a_record_from_a_previous_owner_boot() {
    let mut snapshot = ready_snapshot(4);
    let singleton_lease = LeaseId(22);
    snapshot
        .set_owner_lease_valid(singleton_lease, true)
        .unwrap();
    snapshot
        .apply_singleton(
            OwnershipRevision(1),
            SingletonPlacementRecord {
                service_kind: "World".to_string(),
                singleton_kind: "Season".to_string(),
                scope: "global".to_string(),
                owner: "world-a".to_string(),
                owner_incarnation: "world-a-previous-boot".to_string(),
                epoch: Epoch(10),
                lease_id: singleton_lease,
                state: PlacementState::Running,
            },
        )
        .unwrap();

    let rejection = snapshot
        .gate()
        .authorize(request(
            &"World".to_string(),
            &"Season".to_string(),
            &"Season".to_string(),
            &RouteKey::Str("global".to_string()),
            Some(Epoch(10)),
            &OwnershipPlacement::Singleton,
        ))
        .unwrap_err();
    assert_eq!(
        rejection.reason,
        OwnershipRejectionReason::OwnerIncarnationMismatch
    );
}

#[test]
fn lease_loss_and_capacity_overflow_fence_the_snapshot() {
    let mut snapshot = ready_snapshot(1);
    snapshot
        .apply_actor(
            OwnershipRevision(1),
            actor_record(7, "world-a", 3, INSTANCE_LEASE, PlacementState::Running),
        )
        .unwrap();
    let overflow = snapshot
        .apply_virtual_shard(
            OwnershipRevision(2),
            VirtualShardPlacementRecord {
                service_kind: "World".to_string(),
                actor_kind: "Player".to_string(),
                shard_id: VirtualShardId(0),
                owner: "world-a".to_string(),
                epoch: Epoch(1),
            },
        )
        .unwrap_err();
    assert_eq!(
        overflow,
        OwnershipSnapshotError::CapacityExceeded { max_entries: 1 }
    );

    let service = "World".to_string();
    let actor = "World".to_string();
    let route_key = RouteKey::U64(7);
    let placement = OwnershipPlacement::Explicit;
    let capacity_fence = snapshot
        .gate()
        .authorize(request(
            &service,
            &actor,
            &actor,
            &route_key,
            Some(Epoch(3)),
            &placement,
        ))
        .unwrap_err();
    assert_eq!(
        capacity_fence.reason,
        OwnershipRejectionReason::SnapshotUnavailable {
            reason: OwnershipFenceReason::CapacityExceeded
        }
    );

    resync(
        &mut snapshot,
        INSTANCE_LEASE,
        vec![snapshot_actor(
            3,
            3,
            actor_record(7, "world-a", 3, INSTANCE_LEASE, PlacementState::Running),
        )],
    );
    snapshot
        .set_owner_lease_valid(INSTANCE_LEASE, false)
        .unwrap();
    let lease_fence = snapshot
        .gate()
        .authorize(request(
            &service,
            &actor,
            &actor,
            &route_key,
            Some(Epoch(3)),
            &placement,
        ))
        .unwrap_err();
    assert_eq!(
        lease_fence.reason,
        OwnershipRejectionReason::SnapshotUnavailable {
            reason: OwnershipFenceReason::LeaseLost
        }
    );

    install_ready_instance(&mut snapshot, LeaseId(12));
    assert_eq!(
        snapshot.set_owner_lease_valid(INSTANCE_LEASE, true),
        Ok(true)
    );
    let stale_view = snapshot
        .gate()
        .authorize(request(
            &service,
            &actor,
            &actor,
            &route_key,
            Some(Epoch(3)),
            &placement,
        ))
        .unwrap_err();
    assert_eq!(
        stale_view.reason,
        OwnershipRejectionReason::SnapshotUnavailable {
            reason: OwnershipFenceReason::Initializing
        }
    );
}

#[test]
fn resync_rejects_concurrent_updates_and_bounds_all_scanned_records() {
    let mut snapshot = ready_snapshot(2);
    let token = snapshot.begin_resync(INSTANCE_LEASE).unwrap();
    snapshot
        .apply_actor(
            OwnershipRevision(1),
            actor_record(7, "world-a", 3, INSTANCE_LEASE, PlacementState::Running),
        )
        .unwrap();

    let stale_resync = snapshot
        .replace_from_resync(
            token,
            OwnershipRevision(1),
            Vec::new(),
        )
        .unwrap_err();
    assert!(matches!(
        stale_resync,
        OwnershipSnapshotError::StaleResync { .. }
    ));
    let service = "World".to_string();
    let actor = "World".to_string();
    let route_key = RouteKey::U64(7);
    let placement = OwnershipPlacement::Explicit;
    let fenced = snapshot
        .gate()
        .authorize(request(
            &service,
            &actor,
            &actor,
            &route_key,
            Some(Epoch(3)),
            &placement,
        ))
        .unwrap_err();
    assert_eq!(
        fenced.reason,
        OwnershipRejectionReason::SnapshotUnavailable {
            reason: OwnershipFenceReason::Resyncing
        }
    );

    let mut bounded = LocalOwnershipSnapshot::with_config(
        "World".to_string(),
        "world-a".to_string(),
        "world-a-boot".to_string(),
        LocalOwnershipSnapshotConfig::try_new(1).unwrap(),
    );
    install_ready_instance(&mut bounded, INSTANCE_LEASE);
    let token = bounded.begin_resync(INSTANCE_LEASE).unwrap();
    let overflow = bounded
        .replace_from_resync(
            token,
            OwnershipRevision(1),
            vec![
                snapshot_actor(
                    1,
                    1,
                    actor_record(1, "world-b", 1, LeaseId(20), PlacementState::Running),
                ),
                snapshot_actor(
                    1,
                    1,
                    actor_record(2, "world-b", 1, LeaseId(20), PlacementState::Running),
                ),
            ],
        )
        .unwrap_err();
    assert_eq!(
        overflow,
        OwnershipSnapshotError::CapacityExceeded { max_entries: 1 }
    );
}

#[test]
fn watch_batch_applies_every_same_revision_event_and_invalidates_once() {
    let mut snapshot = ready_snapshot(8);
    let existing = actor_record(2, "world-a", 1, INSTANCE_LEASE, PlacementState::Running);
    resync(
        &mut snapshot,
        INSTANCE_LEASE,
        vec![snapshot_actor(1, 1, existing)],
    );

    let service = "World".to_string();
    let actor_kind = "World".to_string();
    let explicit = OwnershipPlacement::Explicit;
    let old_route = RouteKey::U64(2);
    let old_grant = snapshot
        .gate()
        .authorize(request(
            &service,
            &actor_kind,
            &actor_kind,
            &old_route,
            Some(Epoch(1)),
            &explicit,
        ))
        .unwrap();

    let actor = actor_record(1, "world-a", 3, INSTANCE_LEASE, PlacementState::Running);
    let actor_placement_key = actor_key(&actor);
    let mapper = VirtualShardMapper::new(16).unwrap();
    let shard_route = RouteKey::U64(42);
    let shard = VirtualShardPlacementRecord {
        service_kind: service.clone(),
        actor_kind: "Player".to_string(),
        shard_id: mapper.shard_for_route_key(&shard_route),
        owner: "world-a".to_string(),
        epoch: Epoch(4),
    };
    let shard_key = virtual_shard_key(&shard);
    let singleton = SingletonPlacementRecord {
        service_kind: service.clone(),
        singleton_kind: "Season".to_string(),
        scope: "global".to_string(),
        owner: "world-a".to_string(),
        owner_incarnation: "world-a-boot".to_string(),
        epoch: Epoch(5),
        lease_id: INSTANCE_LEASE,
        state: PlacementState::Running,
    };
    let singleton_key = singleton_key(&singleton);
    let deleted_actor = actor_record(2, "world-a", 1, INSTANCE_LEASE, PlacementState::Running);
    let before_generation = snapshot.state().generation();

    assert!(
        snapshot
            .apply_watch_batch(watch_batch(
                2,
                vec![
                    actor_upsert(2, actor_placement_key.clone(), actor),
                    actor_delete(2, 1, actor_key(&deleted_actor), deleted_actor),
                    virtual_shard_upsert(2, shard_key.clone(), shard),
                    singleton_upsert(2, singleton_key.clone(), singleton),
                ],
            ))
            .unwrap()
    );

    let state = snapshot.state();
    assert_eq!(state.revision(), Some(OwnershipRevision(2)));
    assert_eq!(
        state.generation(),
        before_generation.wrapping_add(1),
        "one backend transaction invalidates grants once"
    );
    assert_present_local(actor_entry(state, &actor_placement_key));
    assert_absent(
        actor_entry(state, &actor_key(&actor_record(
            2,
            "world-a",
            1,
            INSTANCE_LEASE,
            PlacementState::Running,
        ))),
        AbsenceEvidence::ExactDelete,
    );
    assert_present_local(virtual_shard_entry(state, &shard_key));
    assert_present_local(singleton_entry(state, &singleton_key));
    assert!(!snapshot.gate().is_current(&old_grant));

    let actor_route = RouteKey::U64(1);
    snapshot.gate().authorize(request(
        &service,
        &actor_kind,
        &actor_kind,
        &actor_route,
        Some(Epoch(3)),
        &explicit,
    ))
    .unwrap();
    let player = "Player".to_string();
    let shard_placement = OwnershipPlacement::VirtualShard { mapper };
    snapshot.gate().authorize(request(
        &service,
        &player,
        &player,
        &shard_route,
        Some(Epoch(4)),
        &shard_placement,
    ))
    .unwrap();
    let season = "Season".to_string();
    let singleton_route = RouteKey::Str("global".to_string());
    snapshot.gate().authorize(request(
        &service,
        &season,
        &season,
        &singleton_route,
        Some(Epoch(5)),
        &OwnershipPlacement::Singleton,
    ))
    .unwrap();
}

#[test]
fn the_order_of_the_events_of_a_batch_is_immaterial() {
    let events = |order: [usize; 4]| {
        let actor = actor_record(1, "world-a", 3, INSTANCE_LEASE, PlacementState::Running);
        let shard = virtual_shard_record(3, "world-b", 4);
        let held = actor_record(2, "world-a", 1, INSTANCE_LEASE, PlacementState::Running);
        let mut listed = vec![
            Some(OwnershipWatchEvent::InstanceDeleted {
                record: instance_record("World", "world-a", INSTANCE_LEASE, InstanceState::Ready),
            }),
            Some(actor_upsert(2, actor_key(&actor), actor)),
            Some(virtual_shard_upsert(2, virtual_shard_key(&shard), shard)),
            Some(actor_delete(2, 1, actor_key(&held), held)),
        ];
        order.iter().map(|at| listed[*at].take().unwrap()).collect::<Vec<_>>()
    };
    let apply = |order: [usize; 4], max_entries: usize| {
        let mut snapshot = ready_snapshot(max_entries);
        let held = actor_record(2, "world-a", 1, INSTANCE_LEASE, PlacementState::Running);
        resync(&mut snapshot, INSTANCE_LEASE, vec![snapshot_actor(1, 1, held)]);
        let result = snapshot.apply_watch_batch(watch_batch(2, events(order)));
        let state = snapshot.state();
        let shard = virtual_shard_record(3, "world-b", 4);
        let actor = actor_record(1, "world-a", 3, INSTANCE_LEASE, PlacementState::Running);
        let described = format!(
            "{:?} {:?} {:?} {:?} {} {:?} {:?}",
            state.generation(),
            state.revision(),
            state.availability(),
            state.instance(),
            state.owner_lease_count(),
            state.placement(&OwnershipKey::Explicit(actor_key(&actor))),
            state.placement(&OwnershipKey::VirtualShard(virtual_shard_key(&shard))),
        );
        (result.is_ok(), described)
    };
    let first = apply([0, 1, 2, 3], 8);
    assert!(first.0);
    for order in [[3, 2, 1, 0], [1, 0, 3, 2], [2, 3, 0, 1], [1, 2, 3, 0]] {
        assert_eq!(apply(order, 8), first);
        assert!(!apply(order, 2).0);
    }
}

#[test]
fn watch_batch_remote_updates_and_deletes_revoke_all_local_grants() {
    let mut snapshot = ready_snapshot(8);
    let service = "World".to_string();
    let world = "World".to_string();
    let actor = actor_record(1, "world-a", 1, INSTANCE_LEASE, PlacementState::Running);
    let actor_key = actor_key(&actor);
    let mapper = VirtualShardMapper::new(8).unwrap();
    let shard_route = RouteKey::U64(9);
    let shard = VirtualShardPlacementRecord {
        service_kind: service.clone(),
        actor_kind: "Player".to_string(),
        shard_id: mapper.shard_for_route_key(&shard_route),
        owner: "world-a".to_string(),
        epoch: Epoch(1),
    };
    let shard_key = virtual_shard_key(&shard);
    let singleton = SingletonPlacementRecord {
        service_kind: service.clone(),
        singleton_kind: "Season".to_string(),
        scope: "global".to_string(),
        owner: "world-a".to_string(),
        owner_incarnation: "world-a-boot".to_string(),
        epoch: Epoch(1),
        lease_id: INSTANCE_LEASE,
        state: PlacementState::Running,
    };
    let singleton_key = singleton_key(&singleton);
    resync(
        &mut snapshot,
        INSTANCE_LEASE,
        vec![
            snapshot_actor(1, 1, actor.clone()),
            snapshot_virtual_shard(1, 1, shard.clone()),
            snapshot_singleton(1, 1, singleton.clone()),
        ],
    );
    let actor_route = RouteKey::U64(1);
    let actor_grant = snapshot
        .gate()
        .authorize(request(
            &service,
            &world,
            &world,
            &actor_route,
            Some(Epoch(1)),
            &OwnershipPlacement::Explicit,
        ))
        .unwrap();
    let player = "Player".to_string();
    let shard_grant = snapshot
        .gate()
        .authorize(request(
            &service,
            &player,
            &player,
            &shard_route,
            Some(Epoch(1)),
            &OwnershipPlacement::VirtualShard { mapper },
        ))
        .unwrap();
    let season = "Season".to_string();
    let singleton_route = RouteKey::Str("global".to_string());
    let singleton_grant = snapshot
        .gate()
        .authorize(request(
            &service,
            &season,
            &season,
            &singleton_route,
            Some(Epoch(1)),
            &OwnershipPlacement::Singleton,
        ))
        .unwrap();
    let before_generation = snapshot.state().generation();

    let mut remote_actor = actor;
    remote_actor.owner = "world-b".to_string();
    remote_actor.epoch = Epoch(2);
    remote_actor.lease_id = LeaseId(22);
    let mut remote_singleton = singleton;
    remote_singleton.owner = "world-b".to_string();
    remote_singleton.epoch = Epoch(2);
    remote_singleton.lease_id = LeaseId(22);
    snapshot
        .apply_watch_batch(watch_batch(
            2,
            vec![
                actor_upsert(2, actor_key.clone(), remote_actor),
                virtual_shard_delete(2, 1, shard_key.clone(), shard),
                singleton_upsert(2, singleton_key.clone(), remote_singleton),
            ],
        ))
        .unwrap();

    let state = snapshot.state();
    assert_present_remote(actor_entry(state, &actor_key));
    assert_absent(
        virtual_shard_entry(state, &shard_key),
        AbsenceEvidence::ExactDelete,
    );
    assert_present_remote(singleton_entry(state, &singleton_key));
    assert_eq!(state.generation(), before_generation.wrapping_add(1));
    assert!(!snapshot.gate().is_current(&actor_grant));
    assert!(!snapshot.gate().is_current(&shard_grant));
    assert!(!snapshot.gate().is_current(&singleton_grant));
}

#[test]
fn invalid_and_over_capacity_watch_batches_commit_no_records_and_fence() {
    let mut mismatched = ready_snapshot(2);
    let record = actor_record(2, "world-a", 1, INSTANCE_LEASE, PlacementState::Running);
    let mismatch = mismatched
        .apply_watch_batch(watch_batch(
            1,
            vec![actor_upsert(
                1,
                actor_key(&actor_record(
                    1,
                    "world-a",
                    1,
                    INSTANCE_LEASE,
                    PlacementState::Running,
                )),
                record,
            )],
        ))
        .unwrap_err();
    assert!(matches!(
        mismatch,
        OwnershipSnapshotError::PlacementKeyMismatch { .. }
    ));
    let state = mismatched.state();
    assert_eq!(state.revision(), Some(OwnershipRevision(0)));
    assert!(actors(state).is_empty());
    assert_eq!(
        state.availability(),
        SnapshotAvailability::Unavailable(OwnershipFenceReason::WatchLost)
    );

    let mut duplicate = ready_snapshot(2);
    let record = actor_record(1, "world-a", 1, INSTANCE_LEASE, PlacementState::Running);
    let key = actor_key(&record);
    assert!(matches!(
        duplicate.apply_watch_batch(watch_batch(
            1,
            vec![
                actor_upsert(1, key.clone(), record.clone()),
                actor_delete(1, 0, key, record),
            ],
        )),
        Err(OwnershipSnapshotError::DuplicatePlacementEvent { .. })
    ));
    assert!(actors(duplicate.state()).is_empty());

    let mut duplicate_instance = ready_snapshot(2);
    assert_eq!(
        duplicate_instance.apply_watch_batch(watch_batch(
            1,
            vec![
                OwnershipWatchEvent::InstanceUpserted {
                    record: instance_record(
                        "World",
                        "world-a",
                        INSTANCE_LEASE,
                        InstanceState::Ready,
                    ),
                },
                OwnershipWatchEvent::InstanceDeleted {
                    record: instance_record(
                        "World",
                        "world-a",
                        INSTANCE_LEASE,
                        InstanceState::Ready,
                    ),
                },
            ],
        )),
        Err(OwnershipSnapshotError::DuplicateInstanceEvent)
    );
    let state = duplicate_instance.state();
    assert_eq!(state.revision(), Some(OwnershipRevision(0)));
    assert!(state.instance().is_some());
    assert_eq!(
        state.availability(),
        SnapshotAvailability::Unavailable(OwnershipFenceReason::WatchLost)
    );

    let mut bounded = ready_snapshot(2);
    let existing = actor_record(1, "world-a", 1, INSTANCE_LEASE, PlacementState::Running);
    resync(
        &mut bounded,
        INSTANCE_LEASE,
        vec![snapshot_actor(1, 1, existing.clone())],
    );
    let new_actor = actor_record(2, "world-a", 1, INSTANCE_LEASE, PlacementState::Running);
    let shard = VirtualShardPlacementRecord {
        service_kind: "World".to_string(),
        actor_kind: "Player".to_string(),
        shard_id: VirtualShardId(0),
        owner: "world-a".to_string(),
        epoch: Epoch(1),
    };
    let before_generation = bounded.state().generation();
    assert_eq!(
        bounded.apply_watch_batch(watch_batch(
            2,
            vec![
                actor_upsert(2, actor_key(&new_actor), new_actor),
                virtual_shard_upsert(2, virtual_shard_key(&shard), shard),
            ],
        )),
        Err(OwnershipSnapshotError::CapacityExceeded { max_entries: 2 })
    );
    let state = bounded.state();
    assert_eq!(state.revision(), Some(OwnershipRevision(1)));
    assert_eq!(actors(state).len(), 1);
    assert_present_local(actor_entry(state, &actor_key(&existing)));
    assert!(virtual_shards(state).is_empty());
    assert_eq!(state.generation(), before_generation.wrapping_add(1));
    assert_eq!(
        state.availability(),
        SnapshotAvailability::Unavailable(OwnershipFenceReason::CapacityExceeded)
    );
}

#[test]
fn opaque_floor_proofs_are_record_context_and_delete_previous_bound() {
    let mut watch_snapshot = ready_snapshot(1);
    let proven = actor_record(1, "world-a", 1, INSTANCE_LEASE, PlacementState::Running);
    let proof = test_proof(
        OwnershipProofContext::Upsert,
        1,
        1,
        &OwnershipRecordBinding::Actor(proven.clone()),
    );
    let mut altered = proven.clone();
    altered.state = PlacementState::Stopped;
    assert!(matches!(
        watch_snapshot.apply_watch_batch(watch_batch(
            1,
            vec![OwnershipWatchEvent::ActorUpserted {
                key: actor_key(&altered),
                record: altered,
                proof,
            }],
        )),
        Err(OwnershipSnapshotError::Proof {
            error: OwnershipProofError::RecordBindingMismatch { .. }
        })
    ));
    let state = watch_snapshot.state();
    assert_eq!(state.revision(), Some(OwnershipRevision(0)));
    assert!(actors(state).is_empty());
    assert_eq!(
        state.availability(),
        SnapshotAvailability::Unavailable(OwnershipFenceReason::WatchLost)
    );

    let mut snapshot = LocalOwnershipSnapshot::with_config(
        "World".to_string(),
        "world-a".to_string(),
        "world-a-boot".to_string(),
        LocalOwnershipSnapshotConfig::try_new(1).unwrap(),
    );
    install_ready_instance(&mut snapshot, INSTANCE_LEASE);
    let token = snapshot.begin_resync(INSTANCE_LEASE).unwrap();
    let proof = test_proof(
        OwnershipProofContext::Snapshot,
        1,
        1,
        &OwnershipRecordBinding::Actor(proven.clone()),
    );
    let mut altered = proven.clone();
    altered.owner = "world-b".to_string();
    assert!(matches!(
        snapshot.replace_from_resync(
            token,
            OwnershipRevision(1),
            vec![OwnershipSnapshotRecord::Actor {
                version: OwnershipRevision(1),
                record: altered,
                proof,
            }],
        ),
        Err(OwnershipSnapshotError::Proof {
            error: OwnershipProofError::RecordBindingMismatch { .. }
        })
    ));
    assert!(actors(snapshot.state()).is_empty());

    let mut deleted = ready_snapshot(1);
    deleted
        .apply_watch_batch(watch_batch(
            1,
            vec![actor_upsert(1, actor_key(&proven), proven.clone())],
        ))
        .unwrap();
    let mut wrong_previous = proven;
    wrong_previous.lease_id = LeaseId(99);
    assert!(matches!(
        deleted.apply_watch_batch(watch_batch(
            2,
            vec![actor_delete(
                2,
                1,
                actor_key(&wrong_previous),
                wrong_previous,
            )],
        )),
        Err(OwnershipSnapshotError::Proof {
            error: OwnershipProofError::DeletePreviousMismatch { .. }
        })
    ));
    let state = deleted.state();
    assert_eq!(state.revision(), Some(OwnershipRevision(1)));
    assert_present_local(actors(state)[0]);
}

#[test]
fn unrelated_stale_and_resync_watch_batches_preserve_global_ordering() {
    let mut snapshot = ready_snapshot(2);
    let actor = actor_record(1, "world-a", 1, INSTANCE_LEASE, PlacementState::Running);
    snapshot
        .apply_actor(OwnershipRevision(1), actor.clone())
        .unwrap();
    let service = "World".to_string();
    let kind = "World".to_string();
    let route = RouteKey::U64(1);
    let grant = snapshot
        .gate()
        .authorize(request(
            &service,
            &kind,
            &kind,
            &route,
            Some(Epoch(1)),
            &OwnershipPlacement::Explicit,
        ))
        .unwrap();
    let before_generation = snapshot.state().generation();
    let unrelated = ActorPlacementRecord {
        service_kind: "Other".to_string(),
        actor_kind: "Other".to_string(),
        actor_id: ActorId::U64(7),
        owner: "other-a".to_string(),
        epoch: Epoch(1),
        lease_id: LeaseId(77),
        state: PlacementState::Running,
    };
    snapshot
        .apply_watch_batch(watch_batch(
            5,
            vec![
                OwnershipWatchEvent::InstanceUpserted {
                    record: instance_record(
                        "World",
                        "world-b",
                        LeaseId(22),
                        InstanceState::Ready,
                    ),
                },
                actor_upsert(5, actor_key(&unrelated), unrelated.clone()),
            ],
        ))
        .unwrap();
    let state = snapshot.state();
    assert_eq!(state.revision(), Some(OwnershipRevision(5)));
    assert_eq!(state.generation(), before_generation);
    assert!(snapshot.gate().is_current(&grant));

    assert!(
        !snapshot
            .apply_watch_batch(watch_batch(5, Vec::new()))
            .unwrap()
    );
    assert!(snapshot.gate().is_current(&grant));

    let token = snapshot.begin_resync(INSTANCE_LEASE).unwrap();
    let resync_generation = snapshot.state().generation();
    snapshot
        .apply_watch_batch(watch_batch(
            8,
            vec![actor_upsert(8, actor_key(&unrelated), unrelated)],
        ))
        .unwrap();
    let state = snapshot.state();
    assert_eq!(state.generation(), resync_generation.wrapping_add(1));
    assert_eq!(
        state.availability(),
        SnapshotAvailability::Unavailable(OwnershipFenceReason::Resyncing)
    );
    assert!(matches!(
        snapshot.replace_from_resync(
            token,
            OwnershipRevision(8),
            Vec::new(),
        ),
        Err(OwnershipSnapshotError::StaleResync { .. })
    ));

    let before_empty = snapshot.state().generation();
    assert_eq!(
        snapshot.apply_watch_batch(watch_batch(9, Vec::new())),
        Err(OwnershipSnapshotError::EmptyWatchBatch)
    );
    let state = snapshot.state();
    assert_eq!(state.revision(), Some(OwnershipRevision(8)));
    assert_eq!(state.generation(), before_empty.wrapping_add(1));
    assert_eq!(
        state.availability(),
        SnapshotAvailability::Unavailable(OwnershipFenceReason::WatchLost)
    );
}

#[test]
fn instance_events_preserve_explicit_lease_validation_and_fence_deletes() {
    let mut snapshot = ready_snapshot(2);
    let actor = actor_record(1, "world-a", 1, INSTANCE_LEASE, PlacementState::Running);
    snapshot
        .apply_watch_batch(watch_batch(
            1,
            vec![
                OwnershipWatchEvent::InstanceUpserted {
                    record: instance_record(
                        "World",
                        "world-a",
                        INSTANCE_LEASE,
                        InstanceState::Draining,
                    ),
                },
                actor_upsert(1, actor_key(&actor), actor),
            ],
        ))
        .unwrap();
    let state = snapshot.state();
    assert_eq!(actors(state).len(), 1);
    assert!(state.owner_lease_is_valid(INSTANCE_LEASE));
    assert_eq!(
        state.instance().unwrap().state,
        InstanceState::Draining
    );

    let service = "World".to_string();
    let kind = "World".to_string();
    let route = RouteKey::U64(1);
    let rejected = snapshot
        .gate()
        .authorize(request(
            &service,
            &kind,
            &kind,
            &route,
            Some(Epoch(1)),
            &OwnershipPlacement::Explicit,
        ))
        .unwrap_err();
    assert_eq!(
        rejected.reason,
        OwnershipRejectionReason::InstanceNotReady {
            state: InstanceState::Draining
        }
    );

    let new_lease = LeaseId(22);
    snapshot
        .apply_watch_batch(watch_batch(
            2,
            vec![OwnershipWatchEvent::InstanceUpserted {
                record: instance_record("World", "world-a", new_lease, InstanceState::Ready),
            }],
        ))
        .unwrap();
    let state = snapshot.state();
    assert_eq!(actors(state).len(), 1);
    assert_lifecycle_fenced(actors(state)[0]);
    assert!(state.owner_lease_count() == 0);
    assert_eq!(state.instance().unwrap().lease_id, new_lease);
    assert_eq!(
        state.availability(),
        SnapshotAvailability::Unavailable(OwnershipFenceReason::Initializing)
    );

    snapshot.set_owner_lease_valid(new_lease, true).unwrap();
    let token = snapshot.begin_resync(new_lease).unwrap();
    snapshot
        .replace_from_resync(
            token,
            OwnershipRevision(2),
            Vec::new(),
        )
        .unwrap();
    let unknown_lease_actor =
        actor_record(2, "world-a", 1, LeaseId(99), PlacementState::Running);
    snapshot
        .apply_watch_batch(watch_batch(
            3,
            vec![actor_upsert(
                3,
                actor_key(&unknown_lease_actor),
                unknown_lease_actor,
            )],
        ))
        .unwrap();
    let route = RouteKey::U64(2);
    let rejected = snapshot
        .gate()
        .authorize(request(
            &service,
            &kind,
            &kind,
            &route,
            Some(Epoch(1)),
            &OwnershipPlacement::Explicit,
        ))
        .unwrap_err();
    assert_eq!(
        rejected.reason,
        OwnershipRejectionReason::OwnerLeaseInvalid {
            lease_id: LeaseId(99)
        }
    );

    snapshot
        .apply_watch_batch(watch_batch(
            4,
            vec![OwnershipWatchEvent::InstanceDeleted {
                record: instance_record(
                    "World",
                    "world-a",
                    INSTANCE_LEASE,
                    InstanceState::Ready,
                ),
            }],
        ))
        .unwrap();
    let state = snapshot.state();
    assert!(state.instance().is_none());
    assert_eq!(actors(state).len(), 2);
    assert!(
        actors(state).iter()
            .all(|entry| entry.observation.local_record().is_none())
    );
    assert!(state.owner_lease_count() == 0);
    assert_eq!(
        state.availability(),
        SnapshotAvailability::Unavailable(OwnershipFenceReason::LeaseLost)
    );

    let mut matching_delete = ready_snapshot(1);
    matching_delete
        .apply_watch_batch(watch_batch(
            1,
            vec![OwnershipWatchEvent::InstanceDeleted {
                record: instance_record(
                    "World",
                    "world-a",
                    INSTANCE_LEASE,
                    InstanceState::Ready,
                ),
            }],
        ))
        .unwrap();
    assert_eq!(
        matching_delete.state().availability(),
        SnapshotAvailability::Unavailable(OwnershipFenceReason::LeaseLost)
    );

    let mut same_lease_invalid = ready_snapshot(1);
    same_lease_invalid
        .set_owner_lease_valid(INSTANCE_LEASE, false)
        .unwrap();
    same_lease_invalid
        .apply_watch_batch(watch_batch(
            1,
            vec![OwnershipWatchEvent::InstanceUpserted {
                record: instance_record(
                    "World",
                    "world-a",
                    INSTANCE_LEASE,
                    InstanceState::Ready,
                ),
            }],
        ))
        .unwrap();
    let state = same_lease_invalid.state();
    assert!(!state.owner_lease_is_valid(INSTANCE_LEASE));
    assert_eq!(
        state.availability(),
        SnapshotAvailability::Unavailable(OwnershipFenceReason::LeaseLost)
    );
}

#[test]
fn epoch_regression_and_equal_epoch_authority_changes_fence_without_commit() {
    let current = actor_record(1, "world-a", 5, INSTANCE_LEASE, PlacementState::Running);
    let key = actor_key(&current);
    let make_snapshot = || {
        let mut snapshot = ready_snapshot(2);
        resync(
            &mut snapshot,
            INSTANCE_LEASE,
            vec![snapshot_actor(1, 1, current.clone())],
        );
        snapshot
    };

    let mut regressed = make_snapshot();
    let lower = actor_record(1, "world-a", 4, INSTANCE_LEASE, PlacementState::Running);
    assert!(matches!(
        regressed.apply_watch_batch(watch_batch(2, vec![actor_upsert(2, key.clone(), lower)],)),
        Err(OwnershipSnapshotError::EpochRegression { .. })
    ));
    let state = regressed.state();
    assert_eq!(state.revision(), Some(OwnershipRevision(1)));
    assert_eq!(
        actor_entry(state, &key).observation.local_record().unwrap().epoch(),
        Epoch(5)
    );
    assert_eq!(
        state.availability(),
        SnapshotAvailability::Unavailable(OwnershipFenceReason::WatchLost)
    );

    let mut conflicted = make_snapshot();
    let equal_epoch_remote =
        actor_record(1, "world-b", 5, LeaseId(22), PlacementState::Running);
    assert!(matches!(
        conflicted.apply_watch_batch(watch_batch(
            2,
            vec![actor_upsert(2, key.clone(), equal_epoch_remote)],
        )),
        Err(OwnershipSnapshotError::EpochAuthorityConflict { .. })
    ));
    assert_present_local(actor_entry(conflicted.state(), &key));
}

#[test]
fn all_placement_floors_reject_lower_and_equal_conflicts_but_allow_higher_returns() {
    let moved_actor = || {
        let mut snapshot = ready_snapshot(1);
        snapshot
            .apply_actor(
                OwnershipRevision(1),
                actor_record(1, "world-a", 5, INSTANCE_LEASE, PlacementState::Running),
            )
            .unwrap();
        snapshot
            .apply_actor(
                OwnershipRevision(2),
                actor_record(1, "world-b", 6, LeaseId(22), PlacementState::Running),
            )
            .unwrap();
        snapshot
    };
    let mut actor_lower = moved_actor();
    assert!(matches!(
        actor_lower.apply_actor(
            OwnershipRevision(3),
            actor_record(1, "world-a", 5, INSTANCE_LEASE, PlacementState::Running),
        ),
        Err(OwnershipSnapshotError::EpochRegression { .. })
    ));
    assert_eq!(
        actor_lower.state().revision(),
        Some(OwnershipRevision(2))
    );

    let mut actor_equal = moved_actor();
    assert!(matches!(
        actor_equal.apply_actor(
            OwnershipRevision(3),
            actor_record(1, "world-a", 6, INSTANCE_LEASE, PlacementState::Running),
        ),
        Err(OwnershipSnapshotError::EpochAuthorityConflict { .. })
    ));

    let mut actor_higher = moved_actor();
    actor_higher
        .apply_actor(
            OwnershipRevision(3),
            actor_record(1, "world-a", 7, INSTANCE_LEASE, PlacementState::Running),
        )
        .unwrap();
    let actor_key = actor_key(&actor_record(
        1,
        "world-a",
        7,
        INSTANCE_LEASE,
        PlacementState::Running,
    ));
    assert_eq!(
        actor_entry(actor_higher.state(), &actor_key)
            .observation
            .local_record()
            .unwrap()
            .epoch(),
        Epoch(7)
    );

    let moved_shard = || {
        let mut snapshot = ready_snapshot(1);
        snapshot
            .apply_virtual_shard(OwnershipRevision(1), virtual_shard_record(1, "world-a", 5))
            .unwrap();
        snapshot
            .apply_virtual_shard(OwnershipRevision(2), virtual_shard_record(1, "world-b", 6))
            .unwrap();
        snapshot
    };
    let mut shard_lower = moved_shard();
    assert!(matches!(
        shard_lower
            .apply_virtual_shard(OwnershipRevision(3), virtual_shard_record(1, "world-a", 5),),
        Err(OwnershipSnapshotError::EpochRegression { .. })
    ));

    let mut shard_equal = moved_shard();
    let equal_shard = virtual_shard_record(1, "world-a", 6);
    assert!(matches!(
        shard_equal.apply_watch_batch(watch_batch(
            3,
            vec![virtual_shard_upsert(
                3,
                virtual_shard_key(&equal_shard),
                equal_shard,
            )],
        )),
        Err(OwnershipSnapshotError::EpochAuthorityConflict { .. })
    ));
    assert_eq!(
        shard_equal.state().revision(),
        Some(OwnershipRevision(2))
    );

    let mut shard_higher = moved_shard();
    shard_higher
        .apply_virtual_shard(OwnershipRevision(3), virtual_shard_record(1, "world-a", 7))
        .unwrap();
    let shard_key = virtual_shard_key(&virtual_shard_record(1, "world-a", 7));
    assert_eq!(
        virtual_shard_entry(shard_higher.state(), &shard_key)
            .observation
            .local_record()
            .unwrap()
            .epoch(),
        Epoch(7)
    );

    let moved_singleton = || {
        let mut snapshot = ready_snapshot(1);
        snapshot
            .apply_singleton(
                OwnershipRevision(1),
                singleton_record(
                    "global",
                    "world-a",
                    5,
                    INSTANCE_LEASE,
                    PlacementState::Running,
                ),
            )
            .unwrap();
        snapshot
            .apply_singleton(
                OwnershipRevision(2),
                singleton_record("global", "world-b", 6, LeaseId(22), PlacementState::Running),
            )
            .unwrap();
        snapshot
    };
    let mut singleton_lower = moved_singleton();
    assert!(matches!(
        singleton_lower.apply_singleton(
            OwnershipRevision(3),
            singleton_record(
                "global",
                "world-a",
                5,
                INSTANCE_LEASE,
                PlacementState::Running,
            ),
        ),
        Err(OwnershipSnapshotError::EpochRegression { .. })
    ));

    let mut singleton_equal = moved_singleton();
    assert!(matches!(
        singleton_equal.apply_singleton(
            OwnershipRevision(3),
            singleton_record(
                "global",
                "world-a",
                6,
                INSTANCE_LEASE,
                PlacementState::Running,
            ),
        ),
        Err(OwnershipSnapshotError::EpochAuthorityConflict { .. })
    ));

    let mut singleton_higher = moved_singleton();
    singleton_higher
        .apply_singleton(
            OwnershipRevision(3),
            singleton_record(
                "global",
                "world-a",
                7,
                INSTANCE_LEASE,
                PlacementState::Running,
            ),
        )
        .unwrap();
    let singleton_key = singleton_key(&singleton_record(
        "global",
        "world-a",
        7,
        INSTANCE_LEASE,
        PlacementState::Running,
    ));
    assert_eq!(
        singleton_entry(singleton_higher.state(), &singleton_key)
            .observation
            .local_record()
            .unwrap()
            .epoch(),
        Epoch(7)
    );

    let mut state_only = ready_snapshot(1);
    state_only
        .apply_singleton(
            OwnershipRevision(1),
            singleton_record(
                "state-only",
                "world-a",
                5,
                INSTANCE_LEASE,
                PlacementState::Running,
            ),
        )
        .unwrap();
    state_only
        .apply_singleton(
            OwnershipRevision(2),
            singleton_record(
                "state-only",
                "world-a",
                5,
                INSTANCE_LEASE,
                PlacementState::Draining,
            ),
        )
        .unwrap();
    assert!(matches!(
        singletons(state_only.state())[0].observation.local_record(),
        Some(OwnershipRecordBinding::Singleton(record)) if record.state == PlacementState::Draining
    ));
}

#[test]
fn deleted_placements_require_higher_epochs_to_reactivate_atomically() {
    let deleted = || {
        let mut snapshot = ready_snapshot(3);
        let actor = actor_record(1, "world-a", 5, INSTANCE_LEASE, PlacementState::Running);
        let shard = virtual_shard_record(1, "world-a", 5);
        let singleton = singleton_record(
            "global",
            "world-a",
            5,
            INSTANCE_LEASE,
            PlacementState::Running,
        );
        snapshot
            .apply_watch_batch(watch_batch(
                1,
                vec![
                    actor_upsert(1, actor_key(&actor), actor.clone()),
                    virtual_shard_upsert(1, virtual_shard_key(&shard), shard.clone()),
                    singleton_upsert(1, singleton_key(&singleton), singleton.clone()),
                ],
            ))
            .unwrap();
        let service = "World".to_string();
        let kind = "World".to_string();
        let route = RouteKey::U64(1);
        let grant = snapshot
            .gate()
            .authorize(request(
                &service,
                &kind,
                &kind,
                &route,
                Some(Epoch(5)),
                &OwnershipPlacement::Explicit,
            ))
            .unwrap();
        snapshot
            .apply_watch_batch(watch_batch(
                2,
                vec![
                    actor_delete(2, 1, actor_key(&actor), actor.clone()),
                    virtual_shard_delete(2, 1, virtual_shard_key(&shard), shard.clone()),
                    singleton_delete(2, 1, singleton_key(&singleton), singleton.clone()),
                ],
            ))
            .unwrap();
        assert!(!snapshot.gate().is_current(&grant));
        (snapshot, actor, shard, singleton)
    };

    let (mut same_epoch, actor, _, _) = deleted();
    assert!(matches!(
        same_epoch.apply_watch_batch(watch_batch(
            3,
            vec![actor_upsert(3, actor_key(&actor), actor)],
        )),
        Err(OwnershipSnapshotError::EpochReactivation { .. })
    ));
    let state = same_epoch.state();
    assert_eq!(state.revision(), Some(OwnershipRevision(2)));
    assert!(actors(state).iter().all(|entry| matches!(
        &entry.observation,
        StoreObservation::Absent {
            evidence: AbsenceEvidence::ExactDelete,
            ..
        }
    )));
    assert!(virtual_shards(state).iter().all(|entry| matches!(
        &entry.observation,
        StoreObservation::Absent {
            evidence: AbsenceEvidence::ExactDelete,
            ..
        }
    )));
    assert!(singletons(state).iter().all(|entry| matches!(
        &entry.observation,
        StoreObservation::Absent {
            evidence: AbsenceEvidence::ExactDelete,
            ..
        }
    )));

    let (mut resynced_absence, _, _, _) = deleted();
    let token = resynced_absence.begin_resync(INSTANCE_LEASE).unwrap();
    resynced_absence
        .replace_from_resync(
            token,
            OwnershipRevision(3),
            Vec::new(),
        )
        .unwrap();
    let state = resynced_absence.state();
    assert!(actors(state).iter().all(|entry| matches!(
        &entry.observation,
        StoreObservation::Absent {
            evidence: AbsenceEvidence::ExactDelete,
            ..
        }
    ) && entry.version == OwnershipRevision(3)));
    assert!(virtual_shards(state).iter().all(|entry| matches!(
        &entry.observation,
        StoreObservation::Absent {
            evidence: AbsenceEvidence::ExactDelete,
            ..
        }
    ) && entry.version
        == OwnershipRevision(3)));
    assert!(singletons(state).iter().all(|entry| matches!(
        &entry.observation,
        StoreObservation::Absent {
            evidence: AbsenceEvidence::ExactDelete,
            ..
        }
    ) && entry.version == OwnershipRevision(3)));

    let (mut same_shard, _, shard, _) = deleted();
    assert!(matches!(
        same_shard.apply_watch_batch(watch_batch(
            3,
            vec![virtual_shard_upsert(3, virtual_shard_key(&shard), shard)],
        )),
        Err(OwnershipSnapshotError::EpochReactivation { .. })
    ));
    assert_eq!(
        same_shard.state().revision(),
        Some(OwnershipRevision(2))
    );

    let (mut same_singleton, _, _, singleton) = deleted();
    assert!(matches!(
        same_singleton.apply_watch_batch(watch_batch(
            3,
            vec![singleton_upsert(3, singleton_key(&singleton), singleton)],
        )),
        Err(OwnershipSnapshotError::EpochReactivation { .. })
    ));
    assert_eq!(
        same_singleton.state().revision(),
        Some(OwnershipRevision(2))
    );

    let (mut higher, _, _, _) = deleted();
    let actor = actor_record(1, "world-a", 6, INSTANCE_LEASE, PlacementState::Running);
    let shard = virtual_shard_record(1, "world-a", 6);
    let singleton = singleton_record(
        "global",
        "world-a",
        6,
        INSTANCE_LEASE,
        PlacementState::Running,
    );
    higher
        .apply_watch_batch(watch_batch(
            3,
            vec![
                actor_upsert(3, actor_key(&actor), actor),
                virtual_shard_upsert(3, virtual_shard_key(&shard), shard),
                singleton_upsert(3, singleton_key(&singleton), singleton),
            ],
        ))
        .unwrap();
    let state = higher.state();
    assert!(
        actors(state).iter()
            .all(|entry| matches!(&entry.observation, StoreObservation::PresentLocal(_)))
    );
    assert!(
        virtual_shards(state).iter()
            .all(|entry| matches!(&entry.observation, StoreObservation::PresentLocal(_)))
    );
    assert!(
        singletons(state).iter()
            .all(|entry| matches!(&entry.observation, StoreObservation::PresentLocal(_)))
    );

    let mut legacy = ready_snapshot(1);
    let actor = actor_record(9, "world-a", 4, INSTANCE_LEASE, PlacementState::Running);
    let key = OwnershipKey::Explicit(actor_key(&actor));
    legacy
        .apply_actor(OwnershipRevision(1), actor.clone())
        .unwrap();
    assert!(legacy.remove(&key, OwnershipRevision(2)));
    assert!(matches!(
        legacy.apply_actor(OwnershipRevision(3), actor),
        Err(OwnershipSnapshotError::EpochReactivation { .. })
    ));
    assert_eq!(
        legacy.state().revision(),
        Some(OwnershipRevision(2))
    );

    let mut bounded_deleted = ready_snapshot(1);
    let first = actor_record(1, "world-a", 1, INSTANCE_LEASE, PlacementState::Running);
    bounded_deleted
        .apply_actor(OwnershipRevision(1), first.clone())
        .unwrap();
    assert!(bounded_deleted.remove(
        &OwnershipKey::Explicit(actor_key(&first)),
        OwnershipRevision(2),
    ));
    assert_eq!(
        bounded_deleted.apply_actor(
            OwnershipRevision(3),
            actor_record(2, "world-a", 1, INSTANCE_LEASE, PlacementState::Running),
        ),
        Err(OwnershipSnapshotError::CapacityExceeded { max_entries: 1 })
    );
    let state = bounded_deleted.state();
    assert_eq!(actors(state).len(), 1);
    assert_absent(
        actors(state)[0],
        AbsenceEvidence::ExactDelete,
    );
}

#[test]
fn resync_merges_remote_and_missing_records_into_monotonic_authority_floors() {
    let moved_by_resync = || {
        let mut snapshot = ready_snapshot(3);
        resync(
            &mut snapshot,
            INSTANCE_LEASE,
            vec![
                snapshot_actor(
                    1,
                    1,
                    actor_record(1, "world-a", 1, INSTANCE_LEASE, PlacementState::Running),
                ),
                snapshot_virtual_shard(1, 1, virtual_shard_record(1, "world-a", 1)),
                snapshot_singleton(
                    1,
                    1,
                    singleton_record(
                        "global",
                        "world-a",
                        1,
                        INSTANCE_LEASE,
                        PlacementState::Running,
                    ),
                ),
            ],
        );
        let token = snapshot.begin_resync(INSTANCE_LEASE).unwrap();
        snapshot
            .replace_from_resync(
                token,
                OwnershipRevision(10),
                vec![
                    snapshot_actor(
                        10,
                        8,
                        actor_record(1, "world-b", 2, LeaseId(22), PlacementState::Running),
                    ),
                    snapshot_virtual_shard(10, 9, virtual_shard_record(1, "world-b", 2)),
                    snapshot_singleton(
                        10,
                        10,
                        singleton_record(
                            "global",
                            "world-b",
                            2,
                            LeaseId(22),
                            PlacementState::Running,
                        ),
                    ),
                ],
            )
            .unwrap();
        snapshot
    };

    let mut lower = moved_by_resync();
    let token = lower.begin_resync(INSTANCE_LEASE).unwrap();
    assert!(matches!(
        lower.replace_from_resync(
            token,
            OwnershipRevision(11),
            vec![snapshot_actor(
                11,
                11,
                actor_record(1, "world-a", 1, INSTANCE_LEASE, PlacementState::Running,),
            )],
        ),
        Err(OwnershipSnapshotError::EpochRegression { .. })
    ));
    let state = lower.state();
    assert_eq!(state.revision(), Some(OwnershipRevision(10)));
    assert_eq!(
        actors(state)[0].authority.epoch,
        Epoch(2)
    );
    assert_present_remote(actors(state)[0]);
    assert_eq!(
        state.availability(),
        SnapshotAvailability::Unavailable(OwnershipFenceReason::Resyncing)
    );

    let mut equal_conflict = moved_by_resync();
    let token = equal_conflict.begin_resync(INSTANCE_LEASE).unwrap();
    assert!(matches!(
        equal_conflict.replace_from_resync(
            token,
            OwnershipRevision(11),
            vec![snapshot_virtual_shard(
                11,
                11,
                virtual_shard_record(1, "world-a", 2),
            )],
        ),
        Err(OwnershipSnapshotError::EpochAuthorityConflict { .. })
    ));
    assert_eq!(
        equal_conflict.state().revision(),
        Some(OwnershipRevision(10))
    );

    let mut missing = moved_by_resync();
    let token = missing.begin_resync(INSTANCE_LEASE).unwrap();
    missing
        .replace_from_resync(
            token,
            OwnershipRevision(11),
            Vec::new(),
        )
        .unwrap();
    let state = missing.state();
    assert_eq!(state.entry_count(), 3);
    assert!(actors(state).iter().all(|entry| matches!(
        &entry.observation,
        StoreObservation::Absent {
            evidence: AbsenceEvidence::CoherentSnapshot,
            ..
        }
    )));
    assert!(virtual_shards(state).iter().all(|entry| matches!(
        &entry.observation,
        StoreObservation::Absent {
            evidence: AbsenceEvidence::CoherentSnapshot,
            ..
        }
    )));
    assert!(singletons(state).iter().all(|entry| matches!(
        &entry.observation,
        StoreObservation::Absent {
            evidence: AbsenceEvidence::CoherentSnapshot,
            ..
        }
    )));
    assert!(matches!(
        missing.apply_singleton(
            OwnershipRevision(12),
            singleton_record(
                "global",
                "world-a",
                1,
                INSTANCE_LEASE,
                PlacementState::Running,
            ),
        ),
        Err(OwnershipSnapshotError::EpochRegression { .. })
    ));

    let mut higher = moved_by_resync();
    higher
        .apply_actor(
            OwnershipRevision(11),
            actor_record(1, "world-a", 3, INSTANCE_LEASE, PlacementState::Running),
        )
        .unwrap();
    higher
        .apply_virtual_shard(OwnershipRevision(12), virtual_shard_record(1, "world-a", 3))
        .unwrap();
    higher
        .apply_singleton(
            OwnershipRevision(13),
            singleton_record(
                "global",
                "world-a",
                3,
                INSTANCE_LEASE,
                PlacementState::Running,
            ),
        )
        .unwrap();
    let state = higher.state();
    assert!(
        actors(state).iter()
            .all(|entry| matches!(&entry.observation, StoreObservation::PresentLocal(_)))
    );
    assert!(
        virtual_shards(state).iter()
            .all(|entry| matches!(&entry.observation, StoreObservation::PresentLocal(_)))
    );
    assert!(
        singletons(state).iter()
            .all(|entry| matches!(&entry.observation, StoreObservation::PresentLocal(_)))
    );
    let service = "World".to_string();
    let kind = "World".to_string();
    let route = RouteKey::U64(1);
    assert!(
        higher.gate().authorize(request(
            &service,
            &kind,
            &kind,
            &route,
            Some(Epoch(3)),
            &OwnershipPlacement::Explicit,
        ))
        .is_ok()
    );

    let mut never_local = ready_snapshot(1);
    resync(
        &mut never_local,
        INSTANCE_LEASE,
        vec![snapshot_actor(
            5,
            5,
            actor_record(9, "world-b", 5, LeaseId(22), PlacementState::Running),
        )],
    );
    assert!(matches!(
        never_local.apply_actor(
            OwnershipRevision(6),
            actor_record(9, "world-a", 4, INSTANCE_LEASE, PlacementState::Running),
        ),
        Err(OwnershipSnapshotError::EpochRegression { .. })
    ));
    assert_present_remote(
        actors(never_local.state())[0],
    );
}

#[test]
fn resync_rejects_duplicate_logical_keys_for_every_placement_family() {
    let mut actor_snapshot = ready_snapshot(2);
    let token = actor_snapshot.begin_resync(INSTANCE_LEASE).unwrap();
    assert!(matches!(
        actor_snapshot.replace_from_resync(
            token,
            OwnershipRevision(2),
            vec![
                snapshot_actor(
                    2,
                    1,
                    actor_record(1, "world-a", 1, INSTANCE_LEASE, PlacementState::Running,),
                ),
                snapshot_actor(
                    2,
                    2,
                    actor_record(1, "world-b", 2, LeaseId(22), PlacementState::Running,),
                ),
            ],
        ),
        Err(OwnershipSnapshotError::DuplicatePlacementEvent { .. })
    ));
    assert_eq!(
        actor_snapshot.state().revision(),
        Some(OwnershipRevision(0))
    );

    let mut shard_snapshot = ready_snapshot(2);
    let token = shard_snapshot.begin_resync(INSTANCE_LEASE).unwrap();
    assert!(matches!(
        shard_snapshot.replace_from_resync(
            token,
            OwnershipRevision(2),
            vec![
                snapshot_virtual_shard(2, 1, virtual_shard_record(1, "world-a", 1)),
                snapshot_virtual_shard(2, 2, virtual_shard_record(1, "world-b", 2)),
            ],
        ),
        Err(OwnershipSnapshotError::DuplicatePlacementEvent { .. })
    ));
    assert_eq!(
        shard_snapshot.state().revision(),
        Some(OwnershipRevision(0))
    );

    let mut singleton_snapshot = ready_snapshot(2);
    let token = singleton_snapshot.begin_resync(INSTANCE_LEASE).unwrap();
    assert!(matches!(
        singleton_snapshot.replace_from_resync(
            token,
            OwnershipRevision(2),
            vec![
                snapshot_singleton(
                    2,
                    1,
                    singleton_record(
                        "global",
                        "world-a",
                        1,
                        INSTANCE_LEASE,
                        PlacementState::Running,
                    ),
                ),
                snapshot_singleton(
                    2,
                    2,
                    singleton_record(
                        "global",
                        "world-b",
                        2,
                        LeaseId(22),
                        PlacementState::Running,
                    ),
                ),
            ],
        ),
        Err(OwnershipSnapshotError::DuplicatePlacementEvent { .. })
    ));
    assert_eq!(
        singleton_snapshot.state().revision(),
        Some(OwnershipRevision(0))
    );
}

#[test]
fn instance_incarnation_change_fences_even_if_a_backend_reuses_the_lease_id() {
    let mut snapshot = ready_snapshot(1);
    let actor = actor_record(1, "world-a", 1, INSTANCE_LEASE, PlacementState::Running);
    snapshot
        .apply_actor(OwnershipRevision(1), actor.clone())
        .unwrap();
    let grant = snapshot
        .gate()
        .authorize(request(
            &"World".to_string(),
            &"World".to_string(),
            &"World".to_string(),
            &RouteKey::U64(1),
            Some(Epoch(1)),
            &OwnershipPlacement::Explicit,
        ))
        .unwrap();

    let mut replacement =
        instance_record("World", "world-a", INSTANCE_LEASE, InstanceState::Ready);
    replacement.incarnation = "world-a-replacement-boot".to_string();
    snapshot
        .apply_watch_batch(watch_batch(
            2,
            vec![OwnershipWatchEvent::InstanceUpserted {
                record: replacement,
            }],
        ))
        .unwrap();

    assert!(!snapshot.gate().is_current(&grant));
    let state = snapshot.state();
    assert_lifecycle_fenced(actor_entry(state, &actor_key(&actor)));
    assert_eq!(
        state.availability(),
        SnapshotAvailability::Unavailable(OwnershipFenceReason::LeaseLost)
    );
}

#[test]
fn instance_reincarnation_preserves_floors_and_global_revision() {
    let mut snapshot = ready_snapshot(3);
    let actor = actor_record(1, "world-a", 5, INSTANCE_LEASE, PlacementState::Running);
    let shard = virtual_shard_record(1, "world-a", 5);
    let singleton = singleton_record(
        "global",
        "world-a",
        5,
        INSTANCE_LEASE,
        PlacementState::Running,
    );
    snapshot
        .apply_watch_batch(watch_batch(
            10,
            vec![
                actor_upsert(10, actor_key(&actor), actor.clone()),
                virtual_shard_upsert(10, virtual_shard_key(&shard), shard.clone()),
                singleton_upsert(10, singleton_key(&singleton), singleton.clone()),
            ],
        ))
        .unwrap();
    let service = "World".to_string();
    let kind = "World".to_string();
    let route = RouteKey::U64(1);
    let grant = snapshot
        .gate()
        .authorize(request(
            &service,
            &kind,
            &kind,
            &route,
            Some(Epoch(5)),
            &OwnershipPlacement::Explicit,
        ))
        .unwrap();

    let new_lease = LeaseId(22);
    snapshot
        .install_local_instance(
            instance_record("World", "world-a", new_lease, InstanceState::Ready),
            true,
        )
        .unwrap();
    let actor_key = actor_key(&actor);
    let shard_key = virtual_shard_key(&shard);
    let singleton_key = singleton_key(&singleton);
    let state = snapshot.state();
    assert_eq!(state.revision(), Some(OwnershipRevision(10)));
    assert_eq!(actor_entry(state, &actor_key).version, OwnershipRevision(10));
    assert_eq!(actor_entry(state, &actor_key).authority.epoch, Epoch(5));
    assert_lifecycle_fenced(actor_entry(state, &actor_key));
    assert_eq!(
        virtual_shard_entry(state, &shard_key).version,
        OwnershipRevision(10)
    );
    assert_eq!(virtual_shard_entry(state, &shard_key).authority.epoch, Epoch(5));
    assert_lifecycle_fenced(virtual_shard_entry(state, &shard_key));
    assert_eq!(
        singleton_entry(state, &singleton_key).version,
        OwnershipRevision(10)
    );
    assert_eq!(singleton_entry(state, &singleton_key).authority.epoch, Epoch(5));
    assert_lifecycle_fenced(singleton_entry(state, &singleton_key));
    assert!(!snapshot.gate().is_current(&grant));

    assert!(
        !snapshot
            .apply_actor(
                OwnershipRevision(9),
                actor_record(1, "world-a", 9, new_lease, PlacementState::Running),
            )
            .unwrap()
    );
    assert!(
        !snapshot
            .apply_virtual_shard(OwnershipRevision(9), virtual_shard_record(1, "world-a", 9),)
            .unwrap()
    );
    assert!(
        !snapshot
            .apply_singleton(
                OwnershipRevision(9),
                singleton_record("global", "world-a", 9, new_lease, PlacementState::Running,),
            )
            .unwrap()
    );
    let state = snapshot.state();
    assert_eq!(state.revision(), Some(OwnershipRevision(10)));
    assert_eq!(actor_entry(state, &actor_key).authority.epoch, Epoch(5));
    assert_eq!(actor_entry(state, &actor_key).version, OwnershipRevision(10));
    assert_eq!(virtual_shard_entry(state, &shard_key).authority.epoch, Epoch(5));
    assert_eq!(singleton_entry(state, &singleton_key).authority.epoch, Epoch(5));

    assert!(matches!(
        snapshot.apply_actor(
            OwnershipRevision(11),
            actor_record(1, "world-a", 5, new_lease, PlacementState::Running),
        ),
        Err(OwnershipSnapshotError::EpochAuthorityConflict { .. })
    ));
    assert!(matches!(
        snapshot
            .apply_virtual_shard(OwnershipRevision(11), virtual_shard_record(1, "world-a", 5),),
        Err(OwnershipSnapshotError::EpochReactivation { .. })
    ));
    assert!(matches!(
        snapshot.apply_singleton(
            OwnershipRevision(11),
            singleton_record("global", "world-a", 5, new_lease, PlacementState::Running,),
        ),
        Err(OwnershipSnapshotError::EpochAuthorityConflict { .. })
    ));
    assert_eq!(
        snapshot.state().revision(),
        Some(OwnershipRevision(10))
    );

    let mut atomic_actor = ready_snapshot(1);
    atomic_actor
        .apply_actor(OwnershipRevision(10), actor.clone())
        .unwrap();
    assert!(matches!(
        atomic_actor.apply_watch_batch(watch_batch(
            11,
            vec![
                OwnershipWatchEvent::InstanceUpserted {
                    record: instance_record(
                        "World",
                        "world-a",
                        new_lease,
                        InstanceState::Ready,
                    ),
                },
                actor_upsert(11, actor_key, actor),
            ],
        )),
        Err(OwnershipSnapshotError::EpochReactivation { .. })
    ));
    let state = atomic_actor.state();
    assert_eq!(state.revision(), Some(OwnershipRevision(10)));
    assert_eq!(state.instance().unwrap().lease_id, INSTANCE_LEASE);
    assert_present_local(actors(state)[0]);

    let mut atomic_shard = ready_snapshot(1);
    atomic_shard
        .apply_virtual_shard(OwnershipRevision(10), shard.clone())
        .unwrap();
    assert!(matches!(
        atomic_shard.apply_watch_batch(watch_batch(
            11,
            vec![
                OwnershipWatchEvent::InstanceUpserted {
                    record: instance_record(
                        "World",
                        "world-a",
                        new_lease,
                        InstanceState::Ready,
                    ),
                },
                virtual_shard_upsert(11, shard_key, shard),
            ],
        )),
        Err(OwnershipSnapshotError::EpochReactivation { .. })
    ));
    let state = atomic_shard.state();
    assert_eq!(state.revision(), Some(OwnershipRevision(10)));
    assert_eq!(state.instance().unwrap().lease_id, INSTANCE_LEASE);
    assert_present_local(virtual_shards(state)[0]);

    let mut atomic_singleton = ready_snapshot(1);
    atomic_singleton
        .apply_singleton(OwnershipRevision(10), singleton.clone())
        .unwrap();
    assert!(matches!(
        atomic_singleton.apply_watch_batch(watch_batch(
            11,
            vec![
                OwnershipWatchEvent::InstanceUpserted {
                    record: instance_record(
                        "World",
                        "world-a",
                        new_lease,
                        InstanceState::Ready,
                    ),
                },
                singleton_upsert(11, singleton_key, singleton),
            ],
        )),
        Err(OwnershipSnapshotError::EpochReactivation { .. })
    ));
    let state = atomic_singleton.state();
    assert_eq!(state.revision(), Some(OwnershipRevision(10)));
    assert_eq!(state.instance().unwrap().lease_id, INSTANCE_LEASE);
    assert_present_local(singletons(state)[0]);
}

#[test]
fn remote_floor_updates_invalidate_an_active_resync_without_staling_ready_grants() {
    let mut snapshot = ready_snapshot(2);
    snapshot
        .apply_actor(
            OwnershipRevision(1),
            actor_record(1, "world-a", 1, INSTANCE_LEASE, PlacementState::Running),
        )
        .unwrap();
    let service = "World".to_string();
    let kind = "World".to_string();
    let route = RouteKey::U64(1);
    let grant = snapshot
        .gate()
        .authorize(request(
            &service,
            &kind,
            &kind,
            &route,
            Some(Epoch(1)),
            &OwnershipPlacement::Explicit,
        ))
        .unwrap();
    assert!(
        !snapshot
            .apply_actor(
                OwnershipRevision(2),
                actor_record(2, "world-b", 5, LeaseId(22), PlacementState::Running),
            )
            .unwrap()
    );
    assert!(snapshot.gate().is_current(&grant));
    assert!(matches!(
        snapshot.apply_actor(
            OwnershipRevision(3),
            actor_record(2, "world-a", 4, INSTANCE_LEASE, PlacementState::Running),
        ),
        Err(OwnershipSnapshotError::EpochRegression { .. })
    ));
    let remote_key = actor_key(&actor_record(
        2,
        "world-b",
        5,
        LeaseId(22),
        PlacementState::Running,
    ));
    let state = snapshot.state();
    assert_eq!(state.revision(), Some(OwnershipRevision(2)));
    assert_eq!(actor_entry(state, &remote_key).authority.epoch, Epoch(5));
    assert_present_remote(actor_entry(state, &remote_key));

    let token = snapshot.begin_resync(INSTANCE_LEASE).unwrap();
    assert!(
        !snapshot
            .apply_actor(
                OwnershipRevision(3),
                actor_record(2, "world-b", 6, LeaseId(22), PlacementState::Running),
            )
            .unwrap()
    );
    assert!(matches!(
        snapshot.replace_from_resync(
            token,
            OwnershipRevision(3),
            Vec::new(),
        ),
        Err(OwnershipSnapshotError::StaleResync { .. })
    ));
    let state = snapshot.state();
    assert_eq!(actors(state).len(), 2);
    assert_eq!(actor_entry(state, &remote_key).authority.epoch, Epoch(6));
    assert_present_remote(actor_entry(state, &remote_key));
}

#[test]
fn remote_authority_floors_are_bounded_and_existing_remote_updates_revoke() {
    let mut snapshot = ready_snapshot(2);
    let local = actor_record(1, "world-a", 1, INSTANCE_LEASE, PlacementState::Running);
    snapshot
        .apply_watch_batch(watch_batch(
            1,
            vec![actor_upsert(1, actor_key(&local), local.clone())],
        ))
        .unwrap();
    let service = "World".to_string();
    let kind = "World".to_string();
    let route = RouteKey::U64(1);
    let grant = snapshot
        .gate()
        .authorize(request(
            &service,
            &kind,
            &kind,
            &route,
            Some(Epoch(1)),
            &OwnershipPlacement::Explicit,
        ))
        .unwrap();
    let absent_remote = actor_record(2, "world-b", 1, LeaseId(22), PlacementState::Running);
    let absent_remote_key = actor_key(&absent_remote);
    snapshot
        .apply_watch_batch(watch_batch(
            2,
            vec![actor_upsert(2, actor_key(&absent_remote), absent_remote)],
        ))
        .unwrap();
    let state = snapshot.state();
    assert_eq!(actors(state).len(), 2);
    assert_present_remote(actor_entry(state, &absent_remote_key));
    assert_eq!(actor_entry(state, &absent_remote_key).authority.epoch, Epoch(1));
    assert!(snapshot.gate().is_current(&grant));

    let mut remote = local;
    remote.owner = "world-b".to_string();
    remote.epoch = Epoch(2);
    remote.lease_id = LeaseId(22);
    snapshot
        .apply_watch_batch(watch_batch(
            3,
            vec![actor_upsert(3, actor_key(&remote), remote)],
        ))
        .unwrap();
    assert_present_remote(
        actor_entry(snapshot.state(), &actor_key(&actor_record(
            1,
            "world-a",
            1,
            INSTANCE_LEASE,
            PlacementState::Running,
        ))),
    );
    assert!(!snapshot.gate().is_current(&grant));

    let mut bounded = ready_snapshot(1);
    bounded
        .apply_actor(
            OwnershipRevision(1),
            actor_record(1, "world-a", 1, INSTANCE_LEASE, PlacementState::Running),
        )
        .unwrap();
    assert_eq!(
        bounded.apply_actor(
            OwnershipRevision(2),
            actor_record(2, "world-b", 9, LeaseId(22), PlacementState::Running),
        ),
        Err(OwnershipSnapshotError::CapacityExceeded { max_entries: 1 })
    );
    let state = bounded.state();
    assert_eq!(state.revision(), Some(OwnershipRevision(1)));
    assert_eq!(actors(state).len(), 1);
    assert_eq!(
        state.availability(),
        SnapshotAvailability::Unavailable(OwnershipFenceReason::CapacityExceeded)
    );
}

#[test]
fn lifecycle_fencing_preserves_every_local_record_and_does_not_reclaim_capacity() {
    let mut snapshot = ready_snapshot(3);
    let actor = actor_record(1, "world-a", 1, INSTANCE_LEASE, PlacementState::Running);
    let shard = virtual_shard_record(1, "world-a", 1);
    let singleton = singleton_record(
        "global",
        "world-a",
        1,
        INSTANCE_LEASE,
        PlacementState::Running,
    );
    let actor_key = actor_key(&actor);
    let shard_key = virtual_shard_key(&shard);
    let singleton_key = singleton_key(&singleton);
    snapshot
        .apply_watch_batch(watch_batch(
            1,
            vec![
                actor_upsert(1, actor_key.clone(), actor.clone()),
                virtual_shard_upsert(1, shard_key.clone(), shard.clone()),
                singleton_upsert(1, singleton_key.clone(), singleton.clone()),
            ],
        ))
        .unwrap();

    {
        let state = snapshot.state();
        assert_present_local(actor_entry(state, &actor_key));
        assert_present_local(virtual_shard_entry(state, &shard_key));
        assert_present_local(singleton_entry(state, &singleton_key));
    }

    let new_lease = LeaseId(22);
    snapshot
        .install_local_instance(
            instance_record("World", "world-a", new_lease, InstanceState::Ready),
            true,
        )
        .unwrap();

    let state = snapshot.state();
    assert_eq!(state.entry_count(), 3);
    assert_lifecycle_fenced(actor_entry(state, &actor_key));
    assert_lifecycle_fenced(virtual_shard_entry(state, &shard_key));
    assert_lifecycle_fenced(singleton_entry(state, &singleton_key));
    assert_eq!(
        actor_entry(state, &actor_key).observation.store_present_record(),
        Some(&OwnershipRecordBinding::Actor(actor.clone()))
    );
    assert_eq!(
        virtual_shard_entry(state, &shard_key)
            .observation
            .store_present_record(),
        Some(&OwnershipRecordBinding::VirtualShard(shard.clone()))
    );
    assert_eq!(
        singleton_entry(state, &singleton_key)
            .observation
            .store_present_record(),
        Some(&OwnershipRecordBinding::Singleton(singleton.clone()))
    );

    assert_eq!(
        snapshot.apply_actor(
            OwnershipRevision(2),
            actor_record(2, "world-a", 1, new_lease, PlacementState::Running),
        ),
        Err(OwnershipSnapshotError::CapacityExceeded { max_entries: 3 })
    );
    assert_eq!(snapshot.state().entry_count(), 3);
}

#[test]
fn resync_resurrection_requires_a_newer_record_revision_for_every_family() {
    let mut snapshot = ready_snapshot(3);
    let actor = actor_record(1, "world-a", 1, INSTANCE_LEASE, PlacementState::Running);
    let shard = virtual_shard_record(1, "world-a", 1);
    let singleton = singleton_record(
        "global",
        "world-a",
        1,
        INSTANCE_LEASE,
        PlacementState::Running,
    );
    let actor_key = actor_key(&actor);
    let shard_key = virtual_shard_key(&shard);
    let singleton_key = singleton_key(&singleton);
    snapshot
        .apply_watch_batch(watch_batch(
            1,
            vec![
                actor_upsert(1, actor_key.clone(), actor),
                virtual_shard_upsert(1, shard_key.clone(), shard),
                singleton_upsert(1, singleton_key.clone(), singleton),
            ],
        ))
        .unwrap();
    let token = snapshot.begin_resync(INSTANCE_LEASE).unwrap();
    snapshot
        .replace_from_resync(
            token,
            OwnershipRevision(10),
            Vec::new(),
        )
        .unwrap();

    {
        let state = snapshot.state();
        assert_absent(actor_entry(state, &actor_key), AbsenceEvidence::CoherentSnapshot);
        assert_absent(
            virtual_shard_entry(state, &shard_key),
            AbsenceEvidence::CoherentSnapshot,
        );
        assert_absent(
            singleton_entry(state, &singleton_key),
            AbsenceEvidence::CoherentSnapshot,
        );
        assert_eq!(actor_entry(state, &actor_key).version, OwnershipRevision(10));
        assert_eq!(
            virtual_shard_entry(state, &shard_key).version,
            OwnershipRevision(10)
        );
        assert_eq!(
            singleton_entry(state, &singleton_key).version,
            OwnershipRevision(10)
        );
    }

    let stale_actor = actor_record(1, "world-a", 2, INSTANCE_LEASE, PlacementState::Running);
    let token = snapshot.begin_resync(INSTANCE_LEASE).unwrap();
    assert!(matches!(
        snapshot.replace_from_resync(
            token,
            OwnershipRevision(11),
            vec![snapshot_actor(11, 10, stale_actor)],
        ),
        Err(OwnershipSnapshotError::ResurrectionRevisionNotAdvanced {
            key,
            absence: OwnershipRevision(10),
            incoming: OwnershipRevision(10),
        }) if *key == OwnershipKey::Explicit(actor_key.clone())
    ));

    let stale_shard = virtual_shard_record(1, "world-a", 2);
    let token = snapshot.begin_resync(INSTANCE_LEASE).unwrap();
    assert!(matches!(
        snapshot.replace_from_resync(
            token,
            OwnershipRevision(11),
            vec![snapshot_virtual_shard(11, 10, stale_shard)],
        ),
        Err(OwnershipSnapshotError::ResurrectionRevisionNotAdvanced {
            key,
            absence: OwnershipRevision(10),
            incoming: OwnershipRevision(10),
        }) if *key == OwnershipKey::VirtualShard(shard_key.clone())
    ));

    let stale_singleton = singleton_record(
        "global",
        "world-a",
        2,
        INSTANCE_LEASE,
        PlacementState::Running,
    );
    let token = snapshot.begin_resync(INSTANCE_LEASE).unwrap();
    assert!(matches!(
        snapshot.replace_from_resync(
            token,
            OwnershipRevision(11),
            vec![snapshot_singleton(11, 10, stale_singleton)],
        ),
        Err(OwnershipSnapshotError::ResurrectionRevisionNotAdvanced {
            key,
            absence: OwnershipRevision(10),
            incoming: OwnershipRevision(10),
        }) if *key == OwnershipKey::Singleton(singleton_key.clone())
    ));

    let state = snapshot.state();
    assert_eq!(state.revision(), Some(OwnershipRevision(10)));
    assert_absent(actor_entry(state, &actor_key), AbsenceEvidence::CoherentSnapshot);
    assert_absent(
        virtual_shard_entry(state, &shard_key),
        AbsenceEvidence::CoherentSnapshot,
    );
    assert_absent(
        singleton_entry(state, &singleton_key),
        AbsenceEvidence::CoherentSnapshot,
    );

    let actor = actor_record(1, "world-a", 2, INSTANCE_LEASE, PlacementState::Running);
    let shard = virtual_shard_record(1, "world-a", 2);
    let singleton = singleton_record(
        "global",
        "world-a",
        2,
        INSTANCE_LEASE,
        PlacementState::Running,
    );
    let token = snapshot.begin_resync(INSTANCE_LEASE).unwrap();
    snapshot
        .replace_from_resync(
            token,
            OwnershipRevision(11),
            vec![
                snapshot_actor(11, 11, actor),
                snapshot_virtual_shard(11, 11, shard),
                snapshot_singleton(11, 11, singleton),
            ],
        )
        .unwrap();
    let state = snapshot.state();
    assert_present_local(actor_entry(state, &actor_key));
    assert_present_local(virtual_shard_entry(state, &shard_key));
    assert_present_local(singleton_entry(state, &singleton_key));
}

#[test]
fn a_coherent_view_is_installed_with_its_instance() {
    let mut snapshot = LocalOwnershipSnapshot::new(
        "World".to_string(),
        "world-a".to_string(),
        "world-a-boot".to_string(),
    );
    let actor = actor_record(1, "world-a", 4, INSTANCE_LEASE, PlacementState::Running);
    let binding = OwnershipRecordBinding::Actor(actor.clone());
    let view = |instance: Option<InstanceRecord>| OwnershipViewSnapshot {
        local_instance: instance,
        revision: PlacementRevision(9),
        records: vec![OwnershipViewRecord::Actor {
            revision: PlacementRevision(6),
            record: actor.clone(),
            proof: test_proof(OwnershipProofContext::Snapshot, 9, 6, &binding),
        }],
    };
    assert_eq!(
        snapshot.replace_from_view_snapshot(view(None), true),
        Err(OwnershipSnapshotError::MissingLocalInstanceRecord)
    );
    let instance = instance_record("World", "world-a", INSTANCE_LEASE, InstanceState::Ready);
    assert_eq!(snapshot.replace_from_view_snapshot(view(Some(instance)), true), Ok(()));
    assert_eq!(snapshot.state().availability(), SnapshotAvailability::Ready);
    assert_eq!(snapshot.state().revision(), Some(OwnershipRevision(9)));
    let entry = actor_entry(snapshot.state(), &actor_key(&actor));
    assert_present_local(entry);
    assert_eq!(entry.version, OwnershipRevision(6));
    let elsewhere = instance_record("Other", "world-a", INSTANCE_LEASE, InstanceState::Ready);
    assert!(matches!(
        snapshot.replace_from_view_snapshot(view(Some(elsewhere)), true),
        Err(OwnershipSnapshotError::ServiceMismatch { .. })
    ));
    assert_eq!(snapshot.state().availability(), SnapshotAvailability::Ready);
}

fn resync(
    snapshot: &mut LocalOwnershipSnapshot,
    lease_id: LeaseId,
    records: Vec<OwnershipSnapshotRecord>,
) {
    let snapshot_revision = records
        .iter()
        .map(|record| match record {
            OwnershipSnapshotRecord::Actor { version, .. }
            | OwnershipSnapshotRecord::VirtualShard { version, .. }
            | OwnershipSnapshotRecord::Singleton { version, .. } => *version,
        })
        .max()
        .unwrap_or(OwnershipRevision(0));
    let token = snapshot.begin_resync(lease_id).unwrap();
    snapshot
        .replace_from_resync(token, snapshot_revision, records)
        .unwrap();
}

fn ready_snapshot(max_entries: usize) -> LocalOwnershipSnapshot {
    let mut snapshot = LocalOwnershipSnapshot::with_config(
        "World".to_string(),
        "world-a".to_string(),
        "world-a-boot".to_string(),
        LocalOwnershipSnapshotConfig::try_new(max_entries).unwrap(),
    );
    install_ready_instance(&mut snapshot, INSTANCE_LEASE);
    resync(&mut snapshot, INSTANCE_LEASE, Vec::new());
    snapshot
}

fn install_ready_instance(snapshot: &mut LocalOwnershipSnapshot, lease_id: LeaseId) {
    snapshot
        .install_local_instance(
            instance_record("World", "world-a", lease_id, InstanceState::Ready),
            true,
        )
        .unwrap();
}

fn instance_record(
    service: &str,
    instance: &str,
    lease_id: LeaseId,
    state: InstanceState,
) -> InstanceRecord {
    InstanceRecord {
        service_kind: service.to_string(),
        instance_id: instance.to_string(),
        incarnation: format!("{instance}-boot"),
        lease_id,
        advertised_endpoint: "http://127.0.0.1:18080".to_string(),
        state,
    }
}

fn watch_batch(revision: u64, events: Vec<OwnershipWatchEvent>) -> OwnershipWatchBatch {
    OwnershipWatchBatch {
        revision: PlacementRevision(revision),
        events,
    }
}

fn snapshot_actor(
    snapshot_revision: u64,
    record_revision: u64,
    record: ActorPlacementRecord,
) -> OwnershipSnapshotRecord {
    let binding = OwnershipRecordBinding::Actor(record.clone());
    OwnershipSnapshotRecord::Actor {
        version: OwnershipRevision(record_revision),
        proof: test_proof(
            OwnershipProofContext::Snapshot,
            snapshot_revision,
            record_revision,
            &binding,
        ),
        record,
    }
}

fn snapshot_virtual_shard(
    snapshot_revision: u64,
    record_revision: u64,
    record: VirtualShardPlacementRecord,
) -> OwnershipSnapshotRecord {
    let binding = OwnershipRecordBinding::VirtualShard(record.clone());
    OwnershipSnapshotRecord::VirtualShard {
        version: OwnershipRevision(record_revision),
        proof: test_proof(
            OwnershipProofContext::Snapshot,
            snapshot_revision,
            record_revision,
            &binding,
        ),
        record,
    }
}

fn snapshot_singleton(
    snapshot_revision: u64,
    record_revision: u64,
    record: SingletonPlacementRecord,
) -> OwnershipSnapshotRecord {
    let binding = OwnershipRecordBinding::Singleton(record.clone());
    OwnershipSnapshotRecord::Singleton {
        version: OwnershipRevision(record_revision),
        proof: test_proof(
            OwnershipProofContext::Snapshot,
            snapshot_revision,
            record_revision,
            &binding,
        ),
        record,
    }
}

fn actor_upsert(
    revision: u64,
    key: ActorPlacementKey,
    record: ActorPlacementRecord,
) -> OwnershipWatchEvent {
    let binding = OwnershipRecordBinding::Actor(record.clone());
    OwnershipWatchEvent::ActorUpserted {
        key,
        proof: test_proof(OwnershipProofContext::Upsert, revision, revision, &binding),
        record,
    }
}

fn virtual_shard_upsert(
    revision: u64,
    key: VirtualShardPlacementKey,
    record: VirtualShardPlacementRecord,
) -> OwnershipWatchEvent {
    let binding = OwnershipRecordBinding::VirtualShard(record.clone());
    OwnershipWatchEvent::VirtualShardUpserted {
        key,
        proof: test_proof(OwnershipProofContext::Upsert, revision, revision, &binding),
        record,
    }
}

fn singleton_upsert(
    revision: u64,
    key: SingletonKey,
    record: SingletonPlacementRecord,
) -> OwnershipWatchEvent {
    let binding = OwnershipRecordBinding::Singleton(record.clone());
    OwnershipWatchEvent::SingletonUpserted {
        key,
        proof: test_proof(OwnershipProofContext::Upsert, revision, revision, &binding),
        record,
    }
}

fn actor_delete(
    revision: u64,
    previous_revision: u64,
    key: ActorPlacementKey,
    previous_record: ActorPlacementRecord,
) -> OwnershipWatchEvent {
    let binding = OwnershipRecordBinding::Actor(previous_record.clone());
    OwnershipWatchEvent::ActorDeleted {
        key,
        proof: test_proof(
            OwnershipProofContext::Delete,
            revision,
            previous_revision,
            &binding,
        ),
        previous_record,
    }
}

fn virtual_shard_delete(
    revision: u64,
    previous_revision: u64,
    key: VirtualShardPlacementKey,
    previous_record: VirtualShardPlacementRecord,
) -> OwnershipWatchEvent {
    let binding = OwnershipRecordBinding::VirtualShard(previous_record.clone());
    OwnershipWatchEvent::VirtualShardDeleted {
        key,
        proof: test_proof(
            OwnershipProofContext::Delete,
            revision,
            previous_revision,
            &binding,
        ),
        previous_record,
    }
}

fn singleton_delete(
    revision: u64,
    previous_revision: u64,
    key: SingletonKey,
    previous_record: SingletonPlacementRecord,
) -> OwnershipWatchEvent {
    let binding = OwnershipRecordBinding::Singleton(previous_record.clone());
    OwnershipWatchEvent::SingletonDeleted {
        key,
        proof: test_proof(
            OwnershipProofContext::Delete,
            revision,
            previous_revision,
            &binding,
        ),
        previous_record,
    }
}

fn test_proof(
    context: OwnershipProofContext,
    observed_revision: u64,
    record_revision: u64,
    binding: &OwnershipRecordBinding,
) -> OwnershipEpochFloorProof {
    OwnershipEpochFloorProof {
        context,
        observed_revision: PlacementRevision(observed_revision),
        record_revision: PlacementRevision(record_revision),
        binding: binding.clone(),
        floor: EpochFloorRecord {
            key: binding.epoch_key(),
            epoch: binding.epoch(),
        },
    }
}

fn actor_record(
    actor_id: u64,
    owner: &str,
    epoch: u64,
    lease_id: LeaseId,
    state: PlacementState,
) -> ActorPlacementRecord {
    ActorPlacementRecord {
        service_kind: "World".to_string(),
        actor_kind: "World".to_string(),
        actor_id: ActorId::U64(actor_id),
        owner: owner.to_string(),
        epoch: Epoch(epoch),
        lease_id,
        state,
    }
}

fn virtual_shard_record(shard_id: u32, owner: &str, epoch: u64) -> VirtualShardPlacementRecord {
    VirtualShardPlacementRecord {
        service_kind: "World".to_string(),
        actor_kind: "Player".to_string(),
        shard_id: VirtualShardId(shard_id),
        owner: owner.to_string(),
        epoch: Epoch(epoch),
    }
}

fn singleton_record(
    scope: &str,
    owner: &str,
    epoch: u64,
    lease_id: LeaseId,
    state: PlacementState,
) -> SingletonPlacementRecord {
    SingletonPlacementRecord {
        service_kind: "World".to_string(),
        singleton_kind: "Season".to_string(),
        scope: scope.to_string(),
        owner: owner.to_string(),
        owner_incarnation: format!("{owner}-boot"),
        epoch: Epoch(epoch),
        lease_id,
        state,
    }
}

fn request<'a>(
    service: &'a ServiceKind,
    expected_actor: &'a ActorKind,
    route_actor: &'a ActorKind,
    route_key: &'a RouteKey,
    route_epoch: Option<Epoch>,
    placement: &'a OwnershipPlacement,
) -> OwnershipRequest<'a> {
    OwnershipRequest {
        expected_service: service,
        expected_actor_kind: expected_actor,
        route_actor_kind: route_actor,
        route_key,
        route_epoch,
        placement,
    }
}
