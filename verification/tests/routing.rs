//! Routes: tables, caches, resolvers and calls.
use lattice_placement::records::{
    ActorId, ActorPlacementRecord, Epoch, InstanceRecord, InstanceState, LeaseId, PlacementState,
    RouteKey, VirtualShardId,
};
use lattice_placement::routing::placement::{ExplicitRouteResolver, ResolveStep, RouteWatchEvent};
use lattice_placement::routing::rpc::{
    actor_id_matches_route_key, kind_mismatch_message, resolve_actor_ref_target,
    validate_actor_ref_request, ActorRef, ActorRefMismatch, ActorRefTarget, CallOutcome, CallStep,
    RoutedCall,
};
use lattice_placement::routing::static_resolver::{
    StaticPlacementConfig, StaticRouteRange, StaticRouteResolver,
};
use lattice_placement::routing::table::{VirtualShardAssignment, VirtualShardRouteTable};
use lattice_placement::routing::{
    actor_id_from_route_key, route_key_from_actor_id, CacheLookup, InvalidateReason,
    LocalRouteCache, PlacementError, ResolveRequest, RouteCacheConfig, RouteCacheKey, RouteTarget,
};
use lattice_placement::sharding::VirtualShardMapper;
use lattice_placement::sorted::SortedMap;
use lattice_placement::time::TimeSpan;

const SECOND: u128 = 1_000_000_000;

fn target(instance: &str) -> RouteTarget {
    RouteTarget {
        service_kind: "World".to_string(),
        instance_id: instance.to_string(),
        advertised_endpoint: "http://127.0.0.1:18080".to_string(),
        owner_epoch: Some(Epoch(3)),
    }
}

fn key(route_key: RouteKey) -> RouteCacheKey {
    RouteCacheKey::new("World".to_string(), "Player".to_string(), route_key)
}

fn request(route_key: RouteKey) -> ResolveRequest {
    ResolveRequest {
        service_kind: "World".to_string(),
        actor_kind: "Player".to_string(),
        route_key,
    }
}

fn instance(id: &str, lease: u64, state: InstanceState) -> InstanceRecord {
    InstanceRecord {
        service_kind: "World".to_string(),
        instance_id: id.to_string(),
        incarnation: "boot".to_string(),
        lease_id: LeaseId(lease),
        advertised_endpoint: "http://127.0.0.1:18080".to_string(),
        state,
    }
}

fn actor(id: u64, owner: &str, lease: u64, state: PlacementState) -> ActorPlacementRecord {
    ActorPlacementRecord {
        service_kind: "World".to_string(),
        actor_kind: "Player".to_string(),
        actor_id: ActorId::U64(id),
        owner: owner.to_string(),
        epoch: Epoch(3),
        lease_id: LeaseId(lease),
        state,
    }
}

#[test]
fn a_cached_route_is_fresh_then_stale_then_gone() {
    let mut cache = LocalRouteCache::new(RouteCacheConfig::default());
    let mine = || key(RouteKey::U64(7));
    assert_eq!(cache.get_at(&mine(), 0), CacheLookup::Miss);
    cache.insert_at(mine(), target("a"), 10 * SECOND);
    assert_eq!(cache.get_at(&mine(), 15 * SECOND - 1), CacheLookup::Fresh(target("a")));
    assert_eq!(cache.get_at(&mine(), 15 * SECOND), CacheLookup::Stale(target("a")));
    assert_eq!(cache.get_at(&mine(), 40 * SECOND - 1), CacheLookup::Stale(target("a")));
    assert_eq!(cache.get_at(&mine(), 40 * SECOND), CacheLookup::Miss);
    // What has expired is dropped, whatever the clock says next.
    assert_eq!(cache.get_at(&mine(), 11 * SECOND), CacheLookup::Miss);
}

#[test]
fn keys_of_different_kinds_are_different_keys() {
    let mut cache = LocalRouteCache::default();
    cache.insert_at(key(RouteKey::U64(0)), target("u"), 0);
    cache.insert_at(key(RouteKey::I64(0)), target("i"), 0);
    cache.insert_at(key(RouteKey::Str(String::new())), target("s"), 0);
    cache.insert_at(key(RouteKey::Bytes(Vec::new())), target("b"), 0);
    assert_eq!(cache.get_at(&key(RouteKey::U64(0)), 1), CacheLookup::Fresh(target("u")));
    assert_eq!(cache.get_at(&key(RouteKey::I64(0)), 1), CacheLookup::Fresh(target("i")));
    assert_eq!(
        cache.get_at(&key(RouteKey::Str(String::new())), 1),
        CacheLookup::Fresh(target("s"))
    );
    assert_eq!(
        cache.get_at(&key(RouteKey::Bytes(Vec::new())), 1),
        CacheLookup::Fresh(target("b"))
    );
    cache.insert_at(key(RouteKey::U64(0)), target("v"), 1);
    assert_eq!(cache.get_at(&key(RouteKey::U64(0)), 1), CacheLookup::Fresh(target("v")));
}

#[test]
fn invalidated_routes_are_missed() {
    let mut cache = LocalRouteCache::default();
    cache.insert(key(RouteKey::U64(1)), target("a"));
    cache.insert(key(RouteKey::U64(2)), target("b"));
    cache.insert(key(RouteKey::U64(3)), target("a"));
    assert_eq!(cache.get(&key(RouteKey::U64(1))), CacheLookup::Fresh(target("a")));
    cache.invalidate(&key(RouteKey::U64(1)));
    assert_eq!(cache.get(&key(RouteKey::U64(1))), CacheLookup::Miss);
    cache.invalidate_instance(&"a".to_string());
    assert_eq!(cache.get(&key(RouteKey::U64(3))), CacheLookup::Miss);
    assert_eq!(cache.get(&key(RouteKey::U64(2))), CacheLookup::Fresh(target("b")));
}

#[test]
fn a_table_routes_to_the_owner_of_the_shard() {
    let mapper = VirtualShardMapper::new(4).unwrap();
    let shard = mapper.shard_for_route_key(&RouteKey::U64(42));
    let other = VirtualShardId((shard.0 + 1) % 4);
    let assignment = |shard_id: VirtualShardId, owner: &str| VirtualShardAssignment {
        shard_id,
        owner: owner.to_string(),
        epoch: Epoch(3),
    };
    let table = |assignments: Vec<VirtualShardAssignment>, state: InstanceState| {
        let mut instances = SortedMap::new();
        instances.insert("a".to_string(), instance("a", 1, state));
        VirtualShardRouteTable::new(
            "World".to_string(),
            "Player".to_string(),
            mapper,
            assignments,
            instances,
        )
    };
    let ready = table(vec![assignment(shard, "b"), assignment(shard, "a")], InstanceState::Ready);
    assert_eq!(ready.resolve(&RouteKey::U64(42)), Ok(target("a")));
    assert_eq!(ready.actor_kind(), "Player");
    let unassigned = table(vec![assignment(other, "a")], InstanceState::Ready);
    assert_eq!(unassigned.resolve(&RouteKey::U64(42)), Err(PlacementError::NoRoute));
    let unknown = table(vec![assignment(shard, "c")], InstanceState::Ready);
    assert_eq!(
        unknown.resolve(&RouteKey::U64(42)),
        Err(PlacementError::InstanceNotFound { instance_id: "c".to_string() })
    );
    let draining = table(vec![assignment(shard, "a")], InstanceState::Draining);
    assert_eq!(
        draining.resolve(&RouteKey::U64(42)),
        Err(PlacementError::InstanceNotReady {
            instance_id: "a".to_string(),
            state: InstanceState::Draining,
        })
    );
}

#[test]
fn static_ranges_are_half_open_and_remembered() {
    let range = |start: u64, end: u64, instance: &str| StaticRouteRange {
        service_kind: "World".to_string(),
        actor_kind: "Player".to_string(),
        start_inclusive: start,
        end_exclusive: end,
        target: target(instance),
    };
    let config = StaticPlacementConfig { ranges: vec![range(0, 10, "a"), range(5, 20, "b")] };
    let mut resolver = StaticRouteResolver::new(config, RouteCacheConfig::default());
    assert_eq!(resolver.resolve_at(&request(RouteKey::U64(5)), 0, 0), Ok(target("a")));
    assert_eq!(resolver.placement_lookups(), 1);
    assert_eq!(resolver.resolve_at(&request(RouteKey::U64(5)), SECOND, SECOND), Ok(target("a")));
    assert_eq!(resolver.placement_lookups(), 1);
    assert_eq!(resolver.resolve(&request(RouteKey::U64(10))), Ok(target("b")));
    assert_eq!(
        resolver.resolve(&request(RouteKey::U64(20))),
        Err(PlacementError::NoRoute)
    );
    assert_eq!(
        resolver.resolve(&request(RouteKey::Str("x".to_string()))),
        Err(PlacementError::UnsupportedRouteKey)
    );
    assert_eq!(resolver.placement_lookups(), 4);
    resolver.invalidate(&key(RouteKey::U64(5)), InvalidateReason::Manual);
    assert_eq!(resolver.resolve_at(&request(RouteKey::U64(5)), SECOND, SECOND), Ok(target("a")));
    assert_eq!(resolver.placement_lookups(), 5);
}

#[test]
fn actors_are_resolved_through_their_placement() {
    let mut resolver =
        ExplicitRouteResolver::new("World".to_string(), RouteCacheConfig::default());
    let wanted = request(RouteKey::U64(7));
    let elsewhere = ResolveRequest {
        service_kind: "Other".to_string(),
        actor_kind: "Player".to_string(),
        route_key: RouteKey::U64(7),
    };
    assert!(matches!(
        resolver.begin_resolve(&elsewhere, 0),
        Err(PlacementError::NoRoute)
    ));
    match resolver.begin_resolve(&wanted, 0) {
        Ok(ResolveStep::ReadActor(key)) => assert_eq!(key.actor_id, ActorId::U64(7)),
        _ => panic!("the placement is read"),
    }
    assert_eq!(resolver.placement_lookups(), 1);
    let running = actor(7, "a", 5, PlacementState::Running);
    assert!(resolver.accepts(&wanted, &running));
    assert_eq!(
        resolver.finish_resolve(&wanted, &actor(8, "a", 5, PlacementState::Running), &None, 0),
        Err(PlacementError::NoRoute)
    );
    assert_eq!(
        resolver.finish_resolve(&wanted, &running, &None, 0),
        Err(PlacementError::InstanceNotFound { instance_id: "a".to_string() })
    );
    let other_lease = Some(instance("a", 6, InstanceState::Ready));
    assert_eq!(
        resolver.finish_resolve(&wanted, &running, &other_lease, 0),
        Err(PlacementError::NoRoute)
    );
    let owner = Some(instance("a", 5, InstanceState::Ready));
    assert_eq!(resolver.finish_resolve(&wanted, &running, &owner, 0), Ok(target("a")));
    assert!(matches!(
        resolver.begin_resolve(&wanted, 1),
        Ok(ResolveStep::Known(found)) if found == target("a")
    ));
    assert_eq!(resolver.placement_lookups(), 1);
}

#[test]
fn changes_that_are_watched_bring_routes_up_to_date() {
    let mut resolver =
        ExplicitRouteResolver::new("World".to_string(), RouteCacheConfig::default());
    let running = actor(7, "a", 5, PlacementState::Running);
    let seen = resolver.observe(&RouteWatchEvent::ActorUpdated(running.clone()));
    assert_eq!(seen, Some("a".to_string()));
    resolver.refresh_route(&running, &Some(instance("a", 5, InstanceState::Ready)), 0);
    let wanted = request(RouteKey::U64(7));
    let known = |resolver: &mut ExplicitRouteResolver| {
        matches!(resolver.begin_resolve(&wanted, 1), Ok(ResolveStep::Known(_)))
    };
    assert!(known(&mut resolver));
    resolver.observe(&RouteWatchEvent::InstanceUpdated(instance("b", 5, InstanceState::Ready)));
    assert!(known(&mut resolver));
    resolver.observe(&RouteWatchEvent::InstanceUpdated(instance("a", 5, InstanceState::Ready)));
    assert!(!known(&mut resolver));
    resolver.refresh_route(&running, &Some(instance("a", 5, InstanceState::Ready)), 0);
    let stopped = actor(7, "a", 5, PlacementState::Stopped);
    assert_eq!(resolver.observe(&RouteWatchEvent::ActorUpdated(stopped)), None);
    assert!(!known(&mut resolver));
    resolver.refresh_route(&running, &Some(instance("a", 5, InstanceState::Draining)), 0);
    assert!(!known(&mut resolver));
    assert_eq!(resolver.observe(&RouteWatchEvent::Other), None);
}

#[test]
fn calls_are_tried_again_once() {
    let mut call = RoutedCall::new();
    assert_eq!(call.next(CallOutcome::NotOwner), CallStep::Retry(InvalidateReason::NotOwner));
    assert_eq!(call.next(CallOutcome::Fenced), CallStep::Finish);
    let mut call = RoutedCall::new();
    assert_eq!(call.next(CallOutcome::Fenced), CallStep::Retry(InvalidateReason::Fenced));
    let mut call = RoutedCall::new();
    assert_eq!(call.next(CallOutcome::Failed), CallStep::Finish);
    assert_eq!(call.next(CallOutcome::NotOwner), CallStep::Retry(InvalidateReason::NotOwner));
}

#[test]
fn references_are_held_against_requests() {
    let reference = |target: ActorRefTarget| ActorRef {
        service_kind: "World".to_string(),
        actor_kind: "Player".to_string(),
        actor_id: ActorId::U64(7),
        target,
    };
    let routed = reference(ActorRefTarget::Routed);
    let kind = "Player".to_string();
    assert_eq!(validate_actor_ref_request(&routed, &kind, &RouteKey::U64(7)), Ok(()));
    assert_eq!(
        validate_actor_ref_request(&routed, &"Guild".to_string(), &RouteKey::U64(7)),
        Err(ActorRefMismatch::Kind {
            expected: "Player".to_string(),
            requested: "Guild".to_string(),
        })
    );
    assert_eq!(
        kind_mismatch_message(&"Player".to_string(), &"Guild".to_string()),
        "actor ref kind Player does not match request kind Guild"
    );
    assert_eq!(
        validate_actor_ref_request(&routed, &kind, &RouteKey::I64(7)),
        Err(ActorRefMismatch::Id {
            actor_id: ActorId::U64(7),
            route_key: RouteKey::I64(7),
        })
    );
    assert_eq!(resolve_actor_ref_target(&routed), Err(request(RouteKey::U64(7))));
    let direct = reference(ActorRefTarget::Direct {
        instance_id: "a".to_string(),
        endpoint: "http://127.0.0.1:18080".to_string(),
        owner_epoch: Some(Epoch(3)),
    });
    assert_eq!(resolve_actor_ref_target(&direct), Ok(target("a")));
}

#[test]
fn actors_and_route_keys_stand_for_one_another() {
    for id in [
        ActorId::U64(1),
        ActorId::I64(-1),
        ActorId::Str("x".to_string()),
        ActorId::Bytes(vec![1, 2]),
    ] {
        let key = route_key_from_actor_id(&id);
        assert!(actor_id_matches_route_key(&id, &key));
        assert_eq!(actor_id_from_route_key(key), id);
    }
    assert!(!actor_id_matches_route_key(&ActorId::U64(1), &RouteKey::I64(1)));
}

#[test]
fn shards_are_those_of_the_hash() {
    let mapper = VirtualShardMapper::new(1_000_000).unwrap();
    let shard = mapper.shard_for_route_key(&RouteKey::U64(42));
    assert!(shard.0 < 1_000_000);
    let mut bytes = vec![1_u8];
    bytes.extend_from_slice(&42_u64.to_be_bytes());
    let hash = xxhash_rust::xxh3::xxh3_64_with_seed(&bytes, 0x4c41_5454_4943_4531);
    assert_eq!(u64::from(shard.0), hash % 1_000_000);
    assert!(VirtualShardMapper::new(0).is_none());
}

#[test]
fn a_soft_limit_within_the_hard_one_is_the_default() {
    let config = RouteCacheConfig::default();
    assert_eq!(config.soft_ttl, TimeSpan::from_secs(5));
    assert_eq!(config.hard_ttl, TimeSpan::from_secs(30));
}
