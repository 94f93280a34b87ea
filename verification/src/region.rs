//! Sharded entities: their configuration, and the region that routes to their shards.
use vstd::prelude::*;
use vstd::utf8::encode_utf8;

use crate::encode::{be_bytes, push_all, push_be};
use crate::hashing::{blake3_digest, blake3_hash, xxh3_64, xxh3_64_with_seed};
use crate::keymap::{copy_seq, seq_view, Key};
use crate::order::{law_sorting_is_canonical, sort_and_dedup, strictly_sorted};
use crate::time::MonotonicTime;
use crate::types::{
    AssignmentGeneration, ConfigFingerprint, EntityType, NodeKey, PlacementDomainId,
    PlacementSlotState, ProtocolId, Revision, ShardId,
};

pub mod barrier;
pub mod canonical;
pub mod region_laws;
pub mod shard_region;
pub mod waiting;

pub use crate::region::barrier::HandoffBarrier;
pub use crate::region::shard_region::ShardRegion;

pub use crate::sharding::XXH3_V1_SEED;

verus! {

pub const XXH3_V1_HASH_VERSION: u32 = 1;

/// Why a region or a configuration refuses.
#[derive(Debug, Clone, Copy, PartialEq, Eq, Structural)]
pub enum RegionError {
    /// The shard count is zero or exceeds the fixed bound.
    InvalidShardCount,
    InvalidConfig,
    /// A limit must be nonzero.
    ZeroLimit,
    HomeCacheFull,
    LookupLimit,
    BufferFull,
    /// Time arithmetic overflowed.
    InvalidTime,
    /// The message ID is zero.
    InvalidMessage,
    /// The deadline elapsed before buffering.
    MessageExpired,
    /// The revision is stale or duplicated.
    StaleRevision,
    /// An acknowledgement is from an unrelated session or revision.
    UnexpectedBarrierMember,
}

/// The text of each error.
pub open spec fn region_error_message(error: RegionError) -> Seq<char> {
    match error {
        RegionError::InvalidShardCount => "entity shard count is zero or exceeds the fixed bound"@,
        RegionError::InvalidConfig => "entity configuration is invalid"@,
        RegionError::ZeroLimit => "Region limit must be nonzero"@,
        RegionError::HomeCacheFull => "Region home cache is full"@,
        RegionError::LookupLimit => "Region lookup concurrency limit reached"@,
        RegionError::BufferFull => "Region message buffer is full"@,
        RegionError::InvalidTime => "Region time arithmetic overflowed"@,
        RegionError::InvalidMessage => "Region message ID is zero"@,
        RegionError::MessageExpired => "Region message deadline elapsed before buffering"@,
        RegionError::StaleRevision => "Coordinator revision is stale or duplicated"@,
        RegionError::UnexpectedBarrierMember => "handoff acknowledgement is from an unrelated session or revision"@,
    }
}

impl RegionError {
    pub fn message(&self) -> (message: &'static str)
        ensures
            message@ == region_error_message(*self),
    {
        match self {
            RegionError::InvalidShardCount => "entity shard count is zero or exceeds the fixed bound",
            RegionError::InvalidConfig => "entity configuration is invalid",
            RegionError::ZeroLimit => "Region limit must be nonzero",
            RegionError::HomeCacheFull => "Region home cache is full",
            RegionError::LookupLimit => "Region lookup concurrency limit reached",
            RegionError::BufferFull => "Region message buffer is full",
            RegionError::InvalidTime => "Region time arithmetic overflowed",
            RegionError::InvalidMessage => "Region message ID is zero",
            RegionError::MessageExpired => "Region message deadline elapsed before buffering",
            RegionError::StaleRevision => "Coordinator revision is stale or duplicated",
            RegionError::UnexpectedBarrierMember => "handoff acknowledgement is from an unrelated session or revision",
        }
    }
}

pub open spec fn region_fault<T>(result: Result<T, RegionError>) -> Option<RegionError> {
    match result {
        Ok(_) => None,
        Err(error) => Some(error),
    }
}

/// The identity of an entity within its type.
#[derive(Debug, Clone, PartialEq, Eq)]
pub struct EntityId {
    pub bytes: Vec<u8>,
}

impl View for EntityId {
    type V = Seq<u8>;

    open spec fn view(&self) -> Seq<u8> {
        self.bytes@
    }
}

impl EntityId {
    pub fn new(bytes: Vec<u8>) -> (id: Self)
        ensures
            id@ == bytes@,
    {
        EntityId { bytes }
    }
}

/// A reference to an entity of a cluster.
#[derive(Debug, PartialEq, Eq)]
pub struct EntityRef<S = String, B = EntityId, F = ConfigFingerprint> {
    pub cluster_id: S,
    pub domain: S,
    pub entity_type: S,
    pub entity_id: B,
    pub protocol_id: ProtocolId,
    pub fingerprint: F,
}

impl View for EntityRef {
    type V = EntityRef<Seq<char>, Seq<u8>, Seq<u8>>;

    open spec fn view(&self) -> Self::V {
        EntityRef {
            cluster_id: self.cluster_id@,
            domain: self.domain@,
            entity_type: self.entity_type@,
            entity_id: self.entity_id@,
            protocol_id: self.protocol_id,
            fingerprint: self.fingerprint@,
        }
    }
}

/// How the entities of a type are sharded and placed.
#[derive(Debug)]
pub struct EntityConfig {
    pub domain: PlacementDomainId,
    pub entity_type: EntityType,
    pub protocol_id: ProtocolId,
    pub shard_count: u32,
    pub shard_hash_version: u32,
    pub allocation_policy_id: String,
    pub allocation_policy_version: u32,
    pub hard_constraints: Vec<String>,
    pub fingerprint: ConfigFingerprint,
}

/// What a configuration states.
#[verifier::ext_equal]
pub struct EntityConfigModel {
    pub domain: Seq<char>,
    pub entity_type: Seq<char>,
    pub protocol_id: ProtocolId,
    pub shard_count: u32,
    pub shard_hash_version: u32,
    pub allocation_policy_id: Seq<char>,
    pub allocation_policy_version: u32,
    pub hard_constraints: Seq<Seq<char>>,
    pub fingerprint: Seq<u8>,
}

impl View for EntityConfig {
    type V = EntityConfigModel;

    open spec fn view(&self) -> EntityConfigModel {
        EntityConfigModel {
            domain: self.domain@,
            entity_type: self.entity_type@,
            protocol_id: self.protocol_id,
            shard_count: self.shard_count,
            shard_hash_version: self.shard_hash_version,
            allocation_policy_id: self.allocation_policy_id@,
            allocation_policy_version: self.allocation_policy_version,
            hard_constraints: seq_view(self.hard_constraints@),
            fingerprint: self.fingerprint@,
        }
    }
}

/// A text behind its length in four bytes.
pub open spec fn text_field(text: Seq<char>) -> Seq<u8> {
    be_bytes(encode_utf8(text).len(), 4) + encode_utf8(text)
}

/// Texts one behind the other, each behind its length.
pub open spec fn text_fields(texts: Seq<Seq<char>>) -> Seq<u8>
    decreases texts.len(),
{
    if texts.len() == 0 {
        Seq::empty()
    } else {
        text_fields(texts.drop_last()) + text_field(texts.last())
    }
}

/// Some texts in order, each once.
pub open spec fn in_order(texts: Seq<Seq<char>>) -> Seq<Seq<char>> {
    choose|sorted: Seq<Seq<char>>| #[trigger]
        strictly_sorted(sorted) && sorted.to_set() == texts.to_set()
}

proof fn lemma_in_order(texts: Seq<Seq<char>>, sorted: Seq<Seq<char>>)
    requires
        strictly_sorted(sorted),
        sorted.to_set() == texts.to_set(),
    ensures
        in_order(texts) == sorted,
{
    law_sorting_is_canonical(in_order(texts), sorted);
}

impl EntityConfigModel {
    /// The bytes that the fingerprint of a configuration digests.
    pub open spec fn canonical(self) -> Seq<u8> {
        text_field(self.domain) + text_field(self.entity_type) + be_bytes(
            self.protocol_id.0 as nat,
            8,
        ) + be_bytes(self.shard_count as nat, 4) + be_bytes(XXH3_V1_HASH_VERSION as nat, 4)
            + be_bytes(XXH3_V1_SEED as nat, 8) + text_field(self.allocation_policy_id) + be_bytes(
            self.allocation_policy_version as nat,
            4,
        ) + be_bytes(self.hard_constraints.len(), 4) + text_fields(self.hard_constraints)
    }

    /// Why a configuration is refused, if it is.
    pub open spec fn fault(self) -> Option<RegionError> {
        if self.shard_count == 0 || self.shard_count > 1_048_576 {
            Some(RegionError::InvalidShardCount)
        } else if self.allocation_policy_id.len() == 0 || encode_utf8(
            self.allocation_policy_id,
        ).len() > 128 || self.allocation_policy_version == 0 || self.hard_constraints.len() > 64
            || exists|i: int|
            0 <= i < self.hard_constraints.len() && encode_utf8(
                #[trigger] self.hard_constraints[i],
            ).len() > 256 {
            Some(RegionError::InvalidConfig)
        } else {
            None
        }
    }

    /// The configuration with its constraints in order, its hash version and its digest.
    pub open spec fn sealed(self) -> EntityConfigModel {
        let ordered = EntityConfigModel {
            hard_constraints: in_order(self.hard_constraints),
            shard_hash_version: XXH3_V1_HASH_VERSION,
            ..self
        };
        EntityConfigModel { fingerprint: blake3_digest(ordered.canonical()), ..ordered }
    }

    /// Why a configuration that came from elsewhere is refused, if it is.
    pub open spec fn rejection(self) -> Option<RegionError> {
        if self.fault() is Some {
            self.fault()
        } else if self.shard_hash_version != XXH3_V1_HASH_VERSION || self.sealed().fingerprint
            != self.fingerprint {
            Some(RegionError::InvalidConfig)
        } else {
            None
        }
    }

    /// The shard of an entity.
    pub open spec fn shard_of(self, entity_id: Seq<u8>) -> ShardId {
        ShardId((xxh3_64(entity_id, XXH3_V1_SEED) % self.shard_count as u64) as u32)
    }
}

fn push_text(out: &mut Vec<u8>, text: &String)
    ensures
        final(out)@ == old(out)@ + text_field(text@),
{
    let bytes = text.as_str().as_bytes();
    push_be(out, bytes.len() as u128, 4);
    push_all(out, bytes);
    assert(out@ =~= old(out)@ + text_field(text@));
}

fn constraints_fit(constraints: &Vec<String>) -> (fit: bool)
    ensures
        fit == !exists|i: int|
            0 <= i < constraints@.len() && encode_utf8(
                #[trigger] seq_view(constraints@)[i],
            ).len() > 256,
{
    let mut i: usize = 0;
    while i < constraints.len()
        invariant
            i <= constraints.len(),
            forall|j: int|
                0 <= j < i ==> encode_utf8(#[trigger] seq_view(constraints@)[j]).len() <= 256,
        decreases constraints.len() - i,
    {
        assert(seq_view(constraints@)[i as int] == constraints@[i as int]@);
        if constraints[i].as_str().as_bytes().len() > 256 {
            return false;
        }
        i = i + 1;
    }
    true
}

/// The configuration as it is asked for, before it is checked.
pub open spec fn requested_config(
    domain: Seq<char>,
    entity_type: Seq<char>,
    protocol_id: ProtocolId,
    shard_count: u32,
    allocation_policy_id: Seq<char>,
    allocation_policy_version: u32,
    hard_constraints: Seq<Seq<char>>,
) -> EntityConfigModel {
    EntityConfigModel {
        domain,
        entity_type,
        protocol_id,
        shard_count,
        shard_hash_version: XXH3_V1_HASH_VERSION,
        allocation_policy_id,
        allocation_policy_version,
        hard_constraints,
        fingerprint: Seq::empty(),
    }
}

impl EntityConfig {
    pub fn new(
        domain: PlacementDomainId,
        entity_type: EntityType,
        protocol_id: ProtocolId,
        shard_count: u32,
        allocation_policy_id: String,
        allocation_policy_version: u32,
        hard_constraints: Vec<String>,
    ) -> (result: Result<Self, RegionError>)
        ensures
            ({
                let requested = requested_config(
                    domain@,
                    entity_type@,
                    protocol_id,
                    shard_count,
                    allocation_policy_id@,
                    allocation_policy_version,
                    seq_view(hard_constraints@),
                );
                match result {
                    Ok(config) => requested.fault() is None && config@ == requested.sealed(),
                    Err(error) => requested.fault() == Some(error),
                }
            }),
    {
        let ghost requested = requested_config(
            domain@,
            entity_type@,
            protocol_id,
            shard_count,
            allocation_policy_id@,
            allocation_policy_version,
            seq_view(hard_constraints@),
        );
        if shard_count == 0 || shard_count > 1_048_576 {
            return Err(RegionError::InvalidShardCount);
        }
        if allocation_policy_id.as_str().is_empty()
            || allocation_policy_id.as_str().as_bytes().len() > 128 || allocation_policy_version
            == 0 || hard_constraints.len() > 64 || !constraints_fit(&hard_constraints) {
            return Err(RegionError::InvalidConfig);
        }
        let hard_constraints = sort_and_dedup(hard_constraints);
        proof {
            lemma_in_order(requested.hard_constraints, seq_view(hard_constraints@));
        }
        let ghost ordered = EntityConfigModel {
            hard_constraints: seq_view(hard_constraints@),
            ..requested
        };
        let mut canonical: Vec<u8> = Vec::new();
        push_text(&mut canonical, &domain);
        push_text(&mut canonical, &entity_type);
        push_be(&mut canonical, protocol_id.get() as u128, 8);
        push_be(&mut canonical, shard_count as u128, 4);
        push_be(&mut canonical, XXH3_V1_HASH_VERSION as u128, 4);
        push_be(&mut canonical, XXH3_V1_SEED as u128, 8);
        push_text(&mut canonical, &allocation_policy_id);
        push_be(&mut canonical, allocation_policy_version as u128, 4);
        push_be(&mut canonical, hard_constraints.len() as u128, 4);
        let ghost head = canonical@;
        let ghost texts = seq_view(hard_constraints@);
        let mut i: usize = 0;
        assert(head + text_fields(texts.subrange(0, 0)) =~= head);
        while i < hard_constraints.len()
            invariant
                i <= hard_constraints.len(),
                texts == seq_view(hard_constraints@),
                canonical@ == head + text_fields(texts.subrange(0, i as int)),
            decreases hard_constraints.len() - i,
        {
            push_text(&mut canonical, &hard_constraints[i]);
            proof {
                let longer = texts.subrange(0, i + 1);
                assert(longer.drop_last() =~= texts.subrange(0, i as int));
                assert(longer.last() == hard_constraints@[i as int]@);
                assert(canonical@ =~= head + text_fields(longer));
            }
            i = i + 1;
        }
        proof {
            assert(texts.subrange(0, i as int) =~= texts);
            assert(canonical@ =~= ordered.canonical());
        }
        let fingerprint = ConfigFingerprint::new(blake3_hash(canonical.as_slice()));
        let config = EntityConfig {
            domain,
            entity_type,
            protocol_id,
            shard_count,
            shard_hash_version: XXH3_V1_HASH_VERSION,
            allocation_policy_id,
            allocation_policy_version,
            hard_constraints,
            fingerprint,
        };
        assert(config@ =~= requested.sealed());
        Ok(config)
    }

    pub fn fingerprint(&self) -> (fingerprint: ConfigFingerprint)
        ensures
            fingerprint@ == self@.fingerprint,
    {
        self.fingerprint
    }

    /// Checks a configuration that came from elsewhere against its own fingerprint.
    pub fn validate(&self) -> (result: Result<(), RegionError>)
        ensures
            region_fault(result) == self@.rejection(),
    {
        let rebuilt = match Self::new(
            self.domain.copy(),
            self.entity_type.copy(),
            self.protocol_id,
            self.shard_count,
            self.allocation_policy_id.copy(),
            self.allocation_policy_version,
            copy_seq(&self.hard_constraints),
        ) {
            Err(error) => {
                return Err(error);
            },
            Ok(rebuilt) => rebuilt,
        };
        if self.shard_hash_version != XXH3_V1_HASH_VERSION || !rebuilt.fingerprint.same(
            &self.fingerprint,
        ) {
            return Err(RegionError::InvalidConfig);
        }
        Ok(())
    }

    /// The shard of an entity.
    pub fn shard_for(&self, entity_id: &EntityId) -> (shard: ShardId)
        requires
            self@.shard_count > 0,
        ensures
            shard == self@.shard_of(entity_id@),
    {
        let hash = xxh3_64_with_seed(entity_id.bytes.as_slice(), XXH3_V1_SEED);
        ShardId::new((hash % self.shard_count as u64) as u32)
    }

    /// A reference to an entity, bound to this configuration by its fingerprint.
    pub fn entity_ref(&self, cluster_id: String, entity_id: EntityId) -> (reference: EntityRef)
        ensures
            reference@ == (EntityRef {
                cluster_id: cluster_id@,
                domain: self@.domain,
                entity_type: self@.entity_type,
                entity_id: entity_id@,
                protocol_id: self@.protocol_id,
                fingerprint: self@.fingerprint,
            }),
    {
        EntityRef {
            cluster_id,
            domain: self.domain.copy(),
            entity_type: self.entity_type.copy(),
            entity_id,
            protocol_id: self.protocol_id,
            fingerprint: self.fingerprint,
        }
    }

    pub fn placement_domain(&self) -> (domain: &PlacementDomainId)
        ensures
            domain@ == self@.domain,
    {
        &self.domain
    }

    pub fn entity_type(&self) -> (entity_type: &EntityType)
        ensures
            entity_type@ == self@.entity_type,
    {
        &self.entity_type
    }

    pub fn protocol_id(&self) -> (protocol_id: ProtocolId)
        ensures
            protocol_id == self@.protocol_id,
    {
        self.protocol_id
    }

    pub fn shard_count(&self) -> (shard_count: u32)
        ensures
            shard_count == self@.shard_count,
    {
        self.shard_count
    }

    pub fn allocation_policy(&self) -> (policy: (&String, u32))
        ensures
            policy.0@ == self@.allocation_policy_id,
            policy.1 == self@.allocation_policy_version,
    {
        (&self.allocation_policy_id, self.allocation_policy_version)
    }

    pub fn copy_config(&self) -> (copy: Self)
        ensures
            copy@ == self@,
    {
        EntityConfig {
            domain: self.domain.copy(),
            entity_type: self.entity_type.copy(),
            protocol_id: self.protocol_id,
            shard_count: self.shard_count,
            shard_hash_version: self.shard_hash_version,
            allocation_policy_id: self.allocation_policy_id.copy(),
            allocation_policy_version: self.allocation_policy_version,
            hard_constraints: copy_seq(&self.hard_constraints),
            fingerprint: self.fingerprint,
        }
    }

    pub fn same_config(&self, other: &Self) -> (same: bool)
        ensures
            same == (self@ == other@),
    {
        if !(self.domain.same(&other.domain) && self.entity_type.same(&other.entity_type)
            && self.protocol_id == other.protocol_id && self.shard_count == other.shard_count
            && self.shard_hash_version == other.shard_hash_version
            && self.allocation_policy_id.same(&other.allocation_policy_id)
            && self.allocation_policy_version == other.allocation_policy_version
            && self.fingerprint.same(&other.fingerprint)) {
            return false;
        }
        let same = same_texts(&self.hard_constraints, &other.hard_constraints);
        assert(same ==> self@ =~= other@);
        same
    }
}

fn same_texts(left: &Vec<String>, right: &Vec<String>) -> (same: bool)
    ensures
        same == (seq_view(left@) == seq_view(right@)),
{
    if left.len() != right.len() {
        assert(seq_view(left@).len() != seq_view(right@).len());
        return false;
    }
    let mut i: usize = 0;
    while i < left.len()
        invariant
            i <= left.len(),
            left.len() == right.len(),
            forall|j: int| 0 <= j < i ==> (#[trigger] left@[j])@ == right@[j]@,
        decreases left.len() - i,
    {
        if !left[i].same(&right[i]) {
            assert(seq_view(left@)[i as int] != seq_view(right@)[i as int]);
            return false;
        }
        i = i + 1;
    }
    assert(seq_view(left@) =~= seq_view(right@));
    true
}

/// The order in which constraints are listed, and how often each is, makes no difference
/// to a configuration or to its fingerprint.
pub proof fn law_constraint_order_is_immaterial(
    config: EntityConfigModel,
    constraints: Seq<Seq<char>>,
)
    requires
        constraints.to_set() == config.hard_constraints.to_set(),
    ensures
        (EntityConfigModel { hard_constraints: constraints, ..config }).sealed() == config.sealed(),
{
}

/// The shard of an entity is one of the configured shards.
pub proof fn law_shard_is_in_range(config: EntityConfigModel, entity_id: Seq<u8>)
    requires
        config.shard_count > 0,
    ensures
        config.shard_of(entity_id).0 < config.shard_count,
{
}

/// Where a shard lives.
#[derive(Debug, PartialEq, Eq)]
pub struct ShardHome<S = String> {
    pub owner: NodeKey<S>,
    pub generation: AssignmentGeneration,
    pub revision: Revision,
    pub state: PlacementSlotState,
}

pub type HomeModel = ShardHome<Seq<char>>;

impl View for ShardHome {
    type V = HomeModel;

    open spec fn view(&self) -> HomeModel {
        ShardHome {
            owner: self.owner@,
            generation: self.generation,
            revision: self.revision,
            state: self.state,
        }
    }
}

impl ShardHome {
    pub fn copy_home(&self) -> (copy: Self)
        ensures
            copy@ == self@,
    {
        ShardHome {
            owner: self.owner.copy(),
            generation: self.generation,
            revision: self.revision,
            state: self.state,
        }
    }
}

/// Whether a message is told, or asked until a deadline.
#[derive(Debug, Clone, Copy, PartialEq, Eq, Structural)]
pub enum BufferedMessageMode {
    Tell,
    Ask { deadline: MonotonicTime },
}

/// The payload of a message, as the `bytes` crate holds it.
#[verifier::external_type_specification]
#[verifier::external_body]
pub struct ExBytes(bytes::Bytes);

/// The bytes that a payload holds.
pub uninterp spec fn payload_content(payload: bytes::Bytes) -> Seq<u8>;

/// Calls `bytes::Bytes::len`: how many bytes the payload holds.
#[verifier::external_body]
pub(crate) fn payload_len(payload: &bytes::Bytes) -> (len: usize)
    ensures
        len == payload_content(*payload).len(),
{
    payload.len()
}

/// A message that waits for the home of its shard.
#[derive(Debug, PartialEq, Eq)]
pub struct BufferedMessage {
    pub entity_id: EntityId,
    pub message_id: u64,
    pub mode: BufferedMessageMode,
    pub payload: bytes::Bytes,
    pub admitted_at: MonotonicTime,
    pub expires_at: MonotonicTime,
}

/// What a waiting message states.
pub struct MessageModel {
    pub entity_id: Seq<u8>,
    pub message_id: u64,
    pub mode: BufferedMessageMode,
    pub payload: Seq<u8>,
    pub admitted_at: MonotonicTime,
    pub expires_at: MonotonicTime,
}

impl View for BufferedMessage {
    type V = MessageModel;

    open spec fn view(&self) -> MessageModel {
        MessageModel {
            entity_id: self.entity_id@,
            message_id: self.message_id,
            mode: self.mode,
            payload: payload_content(self.payload),
            admitted_at: self.admitted_at,
            expires_at: self.expires_at,
        }
    }
}

/// The limits of a region.
#[derive(Debug, Clone, Copy, PartialEq, Eq, Structural)]
pub struct RegionConfig {
    pub maximum_cached_homes: usize,
    pub maximum_inflight_lookups: usize,
    pub maximum_buffered_messages: usize,
    pub maximum_buffered_bytes: usize,
    pub maximum_buffer_age_millis: u64,
}

impl Default for RegionConfig {
    fn default() -> (config: Self)
        ensures
            config == (RegionConfig {
                maximum_cached_homes: 4096,
                maximum_inflight_lookups: 256,
                maximum_buffered_messages: 4096,
                maximum_buffered_bytes: 16_777_216,
                maximum_buffer_age_millis: 5_000,
            }),
    {
        RegionConfig {
            maximum_cached_homes: 4096,
            maximum_inflight_lookups: 256,
            maximum_buffered_messages: 4096,
            maximum_buffered_bytes: 16 * 1024 * 1024,
            maximum_buffer_age_millis: 5_000,
        }
    }
}

impl RegionConfig {
    pub open spec fn has_zero_limit(self) -> bool {
        self.maximum_cached_homes == 0 || self.maximum_inflight_lookups == 0
            || self.maximum_buffered_messages == 0 || self.maximum_buffered_bytes == 0
            || self.maximum_buffer_age_millis == 0
    }

    pub fn validate(&self) -> (result: Result<(), RegionError>)
        ensures
            region_fault(result) == if self.has_zero_limit() {
                Some(RegionError::ZeroLimit)
            } else {
                None
            },
    {
        if self.maximum_cached_homes == 0 || self.maximum_inflight_lookups == 0
            || self.maximum_buffered_messages == 0 || self.maximum_buffered_bytes == 0
            || self.maximum_buffer_age_millis == 0 {
            return Err(RegionError::ZeroLimit);
        }
        Ok(())
    }
}

/// Where a message goes.
#[allow(inconsistent_fields)]
#[derive(Debug, PartialEq, Eq)]
pub enum RouteDecision<S = String> {
    Local { shard_id: ShardId, generation: AssignmentGeneration },
    Remote { shard_id: ShardId, home: ShardHome<S> },
    Buffered { shard_id: ShardId, start_lookup: bool },
}

pub type DecisionModel = RouteDecision<Seq<char>>;

impl View for RouteDecision {
    type V = DecisionModel;

    open spec fn view(&self) -> DecisionModel {
        match self {
            RouteDecision::Local { shard_id, generation } => RouteDecision::Local {
                shard_id: *shard_id,
                generation: *generation,
            },
            RouteDecision::Remote { shard_id, home } => RouteDecision::Remote {
                shard_id: *shard_id,
                home: home@,
            },
            RouteDecision::Buffered { shard_id, start_lookup } => RouteDecision::Buffered {
                shard_id: *shard_id,
                start_lookup: *start_lookup,
            },
        }
    }
}

} // verus!
