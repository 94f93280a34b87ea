//! Regions: configurations of entities, and how messages find their shards.
use bytes::Bytes;
use lattice_placement::region::{
    BufferedMessageMode, EntityConfig, EntityId, HandoffBarrier, RegionConfig, RegionError,
    RouteDecision, ShardHome, ShardRegion,
};
use lattice_placement::time::MonotonicTime;
use lattice_placement::types::{
    AssignmentGeneration, NodeAddress, NodeIncarnation, NodeKey, PlacementSlotState, ProtocolId,
    Revision, ShardId,
};

fn entity() -> EntityConfig {
    EntityConfig::new(
        "buffer-test".to_string(),
        "buffer-test".to_string(),
        ProtocolId::new(7).unwrap(),
        1,
        "test".to_string(),
        1,
        Vec::new(),
    )
    .unwrap()
}

fn region_with(config: RegionConfig) -> ShardRegion {
    ShardRegion::new(NodeIncarnation::new(1).unwrap(), entity(), config).unwrap()
}

fn home(incarnation: u128, revision: u64, state: PlacementSlotState) -> ShardHome {
    ShardHome {
        owner: NodeKey {
            node_id: "remote".to_string(),
            address: NodeAddress { host: "127.0.0.1".to_string(), port: 2552 },
            incarnation: NodeIncarnation::new(incarnation).unwrap(),
        },
        generation: AssignmentGeneration::new(1).unwrap(),
        revision: Revision::new(revision).unwrap(),
        state,
    }
}

fn tell(region: &mut ShardRegion, message_id: u64, at: u64) -> Result<RouteDecision, RegionError> {
    region.route(
        EntityId::new(b"entity".to_vec()),
        message_id,
        BufferedMessageMode::Tell,
        Bytes::from_static(b"tell"),
        MonotonicTime::from_millis(at),
    )
}

#[test]
fn entity_config_fingerprint_has_a_domain_scoped_golden_vector() {
    let config = EntityConfig::new(
        "player".to_string(),
        "account".to_string(),
        ProtocolId::new(0x0102_0304_0506_0708).unwrap(),
        128,
        "weighted-least-load".to_string(),
        3,
        vec!["region=ap-east".to_string(), "tier=premium".to_string()],
    )
    .unwrap();
    assert_eq!(
        *config.fingerprint().as_bytes(),
        [
            23, 114, 47, 89, 240, 189, 169, 100, 98, 193, 20, 241, 131, 150, 55, 150, 122, 170,
            148, 77, 168, 48, 140, 17, 155, 110, 142, 6, 249, 118, 222, 155,
        ]
    );

    let another_domain = EntityConfig::new(
        "world".to_string(),
        config.entity_type.clone(),
        config.protocol_id,
        config.shard_count,
        config.allocation_policy_id.clone(),
        config.allocation_policy_version,
        config.hard_constraints.clone(),
    )
    .unwrap();
    assert_ne!(
        config.fingerprint().as_bytes(),
        another_domain.fingerprint().as_bytes()
    );
}

#[test]
fn unknown_home_buffers_complete_delivery_intent_single_flight() {
    let local = NodeIncarnation::new(1).unwrap();
    let remote = NodeIncarnation::new(2).unwrap();
    let mut region = ShardRegion::new(local, entity(), RegionConfig::default()).unwrap();
    let deadline = MonotonicTime::from_millis(900);
    assert_eq!(
        region
            .route(
                EntityId::new(b"entity".to_vec()),
                41,
                BufferedMessageMode::Ask { deadline },
                Bytes::from_static(b"request"),
                MonotonicTime::from_millis(100),
            )
            .unwrap(),
        RouteDecision::Buffered {
            shard_id: ShardId::new(0),
            start_lookup: true,
        }
    );
    assert_eq!(
        region
            .route(
                EntityId::new(b"entity".to_vec()),
                42,
                BufferedMessageMode::Tell,
                Bytes::from_static(b"tell"),
                MonotonicTime::from_millis(101),
            )
            .unwrap(),
        RouteDecision::Buffered {
            shard_id: ShardId::new(0),
            start_lookup: false,
        }
    );
    let flushed = region
        .apply_home(
            ShardId::new(0),
            ShardHome {
                owner: NodeKey {
                    node_id: "remote".to_string(),
                    address: NodeAddress { host: "127.0.0.1".to_string(), port: 2552 },
                    incarnation: remote,
                },
                generation: AssignmentGeneration::new(1).unwrap(),
                revision: Revision::new(1).unwrap(),
                state: PlacementSlotState::Running,
            },
        )
        .unwrap();
    assert_eq!(flushed.len(), 2);
    assert_eq!(flushed[0].message_id, 41);
    assert_eq!(flushed[0].mode, BufferedMessageMode::Ask { deadline });
    assert_eq!(flushed[1].message_id, 42);
    assert_eq!(flushed[1].mode, BufferedMessageMode::Tell);
    assert_eq!(flushed[0].payload, Bytes::from_static(b"request"));
}

#[test]
fn expired_ask_is_rejected_before_buffer_admission() {
    let mut region = ShardRegion::new(
        NodeIncarnation::new(1).unwrap(),
        entity(),
        RegionConfig::default(),
    )
    .unwrap();
    assert_eq!(
        region
            .route(
                EntityId::new(b"expired".to_vec()),
                1,
                BufferedMessageMode::Ask {
                    deadline: MonotonicTime::from_millis(10),
                },
                Bytes::from_static(b"request"),
                MonotonicTime::from_millis(10),
            )
            .unwrap_err(),
        RegionError::MessageExpired
    );
}

#[test]
fn the_order_of_constraints_is_immaterial() {
    let make = |constraints: Vec<String>| {
        EntityConfig::new(
            "player".to_string(),
            "account".to_string(),
            ProtocolId::new(9).unwrap(),
            8,
            "weighted-least-load".to_string(),
            1,
            constraints,
        )
        .unwrap()
    };
    let one = make(vec!["b".to_string(), "a".to_string(), "b".to_string()]);
    let other = make(vec!["a".to_string(), "b".to_string()]);
    assert_eq!(one.fingerprint().as_bytes(), other.fingerprint().as_bytes());
    assert_eq!(one.hard_constraints, vec!["a".to_string(), "b".to_string()]);
    assert!(one.validate().is_ok());
    let shard = one.shard_for(&EntityId::new(b"someone".to_vec()));
    assert!(shard.get() < 8);
}

#[test]
fn a_changed_configuration_is_refused() {
    let make = || {
        EntityConfig::new(
            "player".to_string(),
            "account".to_string(),
            ProtocolId::new(7).unwrap(),
            8,
            "weighted-least-load".to_string(),
            1,
            vec!["a".to_string()],
        )
        .unwrap()
    };
    assert_eq!(make().validate(), Ok(()));
    let refused = |change: fn(&mut EntityConfig)| {
        let mut config = make();
        change(&mut config);
        config.validate()
    };
    let invalid = Err(RegionError::InvalidConfig);
    assert_eq!(refused(|config| config.shard_hash_version = 2), invalid);
    assert_eq!(refused(|config| config.domain = "world".to_string()), invalid);
    assert_eq!(refused(|config| config.entity_type = "guild".to_string()), invalid);
    assert_eq!(refused(|config| config.protocol_id = ProtocolId::new(8).unwrap()), invalid);
    assert_eq!(refused(|config| config.shard_count = 9), invalid);
    assert_eq!(refused(|config| config.allocation_policy_id = "other".to_string()), invalid);
    assert_eq!(refused(|config| config.allocation_policy_version = 2), invalid);
    assert_eq!(refused(|config| config.hard_constraints.push("b".to_string())), invalid);
    // Where a text ends is part of what is digested.
    let shifted = refused(|config| {
        config.domain = "playera".to_string();
        config.entity_type = "ccount".to_string();
    });
    assert_eq!(shifted, invalid);
    assert_eq!(refused(|config| config.hard_constraints.push("a".to_string())), Ok(()));
    assert_eq!(refused(|config| config.shard_count = 0), Err(RegionError::InvalidShardCount));
}

#[test]
fn configurations_are_refused_for_what_they_lack() {
    let make = |shards: u32, policy: &str, version: u32| {
        EntityConfig::new(
            "player".to_string(),
            "account".to_string(),
            ProtocolId::new(9).unwrap(),
            shards,
            policy.to_string(),
            version,
            Vec::new(),
        )
    };
    assert_eq!(make(0, "p", 1).err(), Some(RegionError::InvalidShardCount));
    assert_eq!(make(1_048_577, "p", 1).err(), Some(RegionError::InvalidShardCount));
    assert!(make(1_048_576, "p", 1).is_ok());
    assert!(make(1, "", 1).is_err());
    assert!(make(1, "p", 0).is_err());
    let no_room = RegionConfig { maximum_buffered_messages: 0, ..RegionConfig::default() };
    assert_eq!(no_room.validate(), Err(RegionError::ZeroLimit));
    assert!(ShardRegion::new(NodeIncarnation::new(1).unwrap(), entity(), no_room).is_err());
}

#[test]
fn a_region_keeps_to_its_limits() {
    let mut region =
        region_with(RegionConfig { maximum_buffered_messages: 1, ..RegionConfig::default() });
    assert_eq!(tell(&mut region, 0, 1), Err(RegionError::InvalidMessage));
    assert!(tell(&mut region, 1, 1).is_ok());
    assert_eq!(tell(&mut region, 2, 1), Err(RegionError::BufferFull));

    let mut narrow =
        region_with(RegionConfig { maximum_buffered_bytes: 3, ..RegionConfig::default() });
    assert_eq!(tell(&mut narrow, 1, 1), Err(RegionError::BufferFull));
}

#[test]
fn a_running_home_is_routed_to_and_a_handoff_closes_it() {
    let mut region = region_with(RegionConfig::default());
    let shard = ShardId::new(0);
    region.apply_home(shard, home(1, 1, PlacementSlotState::Running)).unwrap();
    assert!(matches!(tell(&mut region, 1, 1), Ok(RouteDecision::Local { .. })));
    region.apply_home(shard, home(2, 2, PlacementSlotState::Running)).unwrap();
    assert!(matches!(tell(&mut region, 2, 1), Ok(RouteDecision::Remote { .. })));
    assert!(region.invalidate_for_handoff(shard, Revision::new(3).unwrap()).is_ok());
    assert!(matches!(tell(&mut region, 3, 1), Ok(RouteDecision::Buffered { .. })));
    assert!(region.apply_home(shard, home(2, 2, PlacementSlotState::Running)).is_err());
}

#[test]
fn a_barrier_waits_for_every_session_that_is_left() {
    let one = NodeIncarnation::new(1).unwrap();
    let two = NodeIncarnation::new(2).unwrap();
    let revision = Revision::new(5).unwrap();
    let mut barrier =
        HandoffBarrier::freeze("account".to_string(), ShardId::new(0), revision, vec![one, two]);
    assert!(!barrier.is_complete());
    assert!(barrier.apply_revision(one, revision).is_ok());
    assert!(!barrier.is_complete());
    assert!(barrier.fence_departed_session(two));
    assert!(!barrier.fence_departed_session(two));
    assert!(barrier.is_complete());
}

#[test]
fn a_reference_names_the_configuration_it_was_made_under() {
    let config = entity();
    let id = EntityId::new(b"hero".to_vec());
    let reference = config.entity_ref("cluster".to_string(), id.clone());
    assert_eq!(reference.cluster_id, "cluster");
    assert_eq!(&reference.domain, config.placement_domain());
    assert_eq!(&reference.entity_type, config.entity_type());
    assert_eq!(reference.entity_id, id);
    assert_eq!(reference.protocol_id, config.protocol_id());
    assert_eq!(reference.fingerprint, config.fingerprint());
}
