//! The members of a cluster as a leader knows them.
use vstd::prelude::*;

use crate::keymap::{copy_seq, option_view, seq_view, Key};
use crate::region::{EntityConfig, EntityConfigModel};
use crate::sorted::SortedSet;
use crate::time::{MonotonicTime, TimeSpan};
use crate::types::{
    ConfigFingerprint, EntityType, NodeAddress, NodeIncarnation, NodeKey, NodeModel,
    PlacementDomainId, PlacementVersion, ProtocolId, SingletonKind, VersionModel,
};

verus! {

/// How a singleton is placed.
#[derive(Debug, PartialEq, Eq)]
pub struct SingletonConfig<S = String, F = ConfigFingerprint> {
    pub domain: S,
    pub kind: S,
    pub protocol_id: ProtocolId,
    pub config_fingerprint: F,
}

pub type SingletonModel = SingletonConfig<Seq<char>, Seq<u8>>;

impl View for SingletonConfig {
    type V = SingletonModel;

    open spec fn view(&self) -> SingletonModel {
        SingletonConfig {
            domain: self.domain@,
            kind: self.kind@,
            protocol_id: self.protocol_id,
            config_fingerprint: self.config_fingerprint@,
        }
    }
}

impl Key for SingletonConfig {
    fn same(&self, other: &Self) -> (same: bool) {
        self.domain.same(&other.domain) && self.kind.same(&other.kind) && self.protocol_id
            == other.protocol_id && self.config_fingerprint.same(&other.config_fingerprint)
    }

    fn copy(&self) -> (copy: Self) {
        SingletonConfig {
            domain: self.domain.copy(),
            kind: self.kind.copy(),
            protocol_id: self.protocol_id,
            config_fingerprint: self.config_fingerprint.copy(),
        }
    }
}

impl Key for EntityConfig {
    fn same(&self, other: &Self) -> (same: bool) {
        self.same_config(other)
    }

    fn copy(&self) -> (copy: Self) {
        self.copy_config()
    }
}

/// Whether two lists state the same.
pub fn same_seq<T: Key>(left: &Vec<T>, right: &Vec<T>) -> (same: bool)
    ensures
        same == (seq_view(left@) == seq_view(right@)),
{
    if left.len() != right.len() {
        assert(seq_view(left@).len() != seq_view(right@).len());
        return false;
    }
    let mut i: usize = 0;
    while i < left.len()
        invariant
            i <= left.len(),
            left.len() == right.len(),
            forall|j: int| 0 <= j < i ==> (#[trigger] left@[j])@ == right@[j]@,
        decreases left.len() - i,
    {
        if !left[i].same(&right[i]) {
            assert(seq_view(left@)[i as int] != seq_view(right@)[i as int]);
            return false;
        }
        i = i + 1;
    }
    assert(seq_view(left@) =~= seq_view(right@));
    true
}

/// Whether a list holds an item.
pub fn holds<T: Key>(items: &Vec<T>, item: &T) -> (found: bool)
    ensures
        found == seq_view(items@).contains(item@),
{
    let mut i: usize = 0;
    while i < items.len()
        invariant
            i <= items.len(),
            forall|j: int| 0 <= j < i ==> (#[trigger] items@[j])@ != item@,
        decreases items.len() - i,
    {
        if items[i].same(item) {
            assert(seq_view(items@)[i as int] == item@);
            return true;
        }
        i = i + 1;
    }
    assert forall|j: int| 0 <= j < seq_view(items@).len() implies seq_view(items@)[j] != item@ by {
        assert(items@[j]@ != item@);
    }
    false
}

/// What a node declares when it joins a placement domain.
pub struct NodeHello {
    pub domain: PlacementDomainId,
    pub node: NodeKey,
    pub hosted_entity_types: SortedSet<EntityType>,
    pub proxied_entity_types: SortedSet<EntityType>,
    pub singleton_eligibility: SortedSet<SingletonKind>,
    pub used_singletons: SortedSet<SingletonKind>,
    pub entity_configs: Vec<EntityConfig>,
    pub singleton_configs: Vec<SingletonConfig>,
    pub capacity_units: u64,
}

#[verifier::ext_equal]
pub struct HelloModel {
    pub domain: Seq<char>,
    pub node: NodeModel,
    pub hosted_entity_types: Set<Seq<char>>,
    pub proxied_entity_types: Set<Seq<char>>,
    pub singleton_eligibility: Set<Seq<char>>,
    pub used_singletons: Set<Seq<char>>,
    pub entity_configs: Seq<EntityConfigModel>,
    pub singleton_configs: Seq<SingletonModel>,
    pub capacity_units: u64,
}

impl View for NodeHello {
    type V = HelloModel;

    open spec fn view(&self) -> HelloModel {
        HelloModel {
            domain: self.domain@,
            node: self.node@,
            hosted_entity_types: self.hosted_entity_types@,
            proxied_entity_types: self.proxied_entity_types@,
            singleton_eligibility: self.singleton_eligibility@,
            used_singletons: self.used_singletons@,
            entity_configs: seq_view(self.entity_configs@),
            singleton_configs: seq_view(self.singleton_configs@),
            capacity_units: self.capacity_units,
        }
    }
}

impl HelloModel {
    /// Whether a node hosts or reaches the entities of a type.
    pub open spec fn subscribes(self, entity_type: Seq<char>) -> bool {
        self.hosted_entity_types.contains(entity_type) || self.proxied_entity_types.contains(
            entity_type,
        )
    }

    /// Whether a node may host a singleton or uses it.
    pub open spec fn concerns(self, kind: Seq<char>) -> bool {
        self.singleton_eligibility.contains(kind) || self.used_singletons.contains(kind)
    }
}

impl Key for NodeHello {
    fn same(&self, other: &Self) -> (same: bool) {
        let same = self.domain.same(&other.domain) && self.node.same(&other.node)
            && self.hosted_entity_types.same(&other.hosted_entity_types)
            && self.proxied_entity_types.same(&other.proxied_entity_types)
            && self.singleton_eligibility.same(&other.singleton_eligibility)
            && self.used_singletons.same(&other.used_singletons) && same_seq(
            &self.entity_configs,
            &other.entity_configs,
        ) && same_seq(&self.singleton_configs, &other.singleton_configs) && self.capacity_units
            == other.capacity_units;
        assert(same ==> self@ =~= other@);
        same
    }

    fn copy(&self) -> (copy: Self) {
        NodeHello {
            domain: self.domain.copy(),
            node: self.node.copy(),
            hosted_entity_types: self.hosted_entity_types.copy(),
            proxied_entity_types: self.proxied_entity_types.copy(),
            singleton_eligibility: self.singleton_eligibility.copy(),
            used_singletons: self.used_singletons.copy(),
            entity_configs: copy_seq(&self.entity_configs),
            singleton_configs: copy_seq(&self.singleton_configs),
            capacity_units: self.capacity_units,
        }
    }
}

impl NodeHello {
    pub fn subscribes_to(&self, entity_type: &EntityType) -> (subscribes: bool)
        ensures
            subscribes == self@.subscribes(entity_type@),
    {
        self.hosted_entity_types.contains(entity_type) || self.proxied_entity_types.contains(
            entity_type,
        )
    }

    pub fn concerns(&self, kind: &SingletonKind) -> (concerned: bool)
        ensures
            concerned == self@.concerns(kind@),
    {
        self.singleton_eligibility.contains(kind) || self.used_singletons.contains(kind)
    }
}

/// Where a member stands.
#[derive(Debug, Clone, Copy, PartialEq, Eq, Structural)]
pub enum MemberStatus {
    Joining,
    Up,
    Leaving,
}

/// The version of the membership.
#[derive(Debug, Clone, Copy, PartialEq, Eq, Structural)]
pub struct MembershipVersion {
    pub term: u64,
    pub revision: u64,
}

impl MembershipVersion {
    pub open spec fn before(self, other: MembershipVersion) -> bool {
        self.term < other.term || (self.term == other.term && self.revision < other.revision)
    }

    /// Whether whoever has this version has the other.
    pub fn satisfies(&self, other: MembershipVersion) -> (satisfied: bool)
        ensures
            satisfied == !self.before(other),
    {
        !self.is_before(&other)
    }

    pub fn is_before(&self, other: &MembershipVersion) -> (before: bool)
        ensures
            before == self.before(*other),
    {
        self.term < other.term || (self.term == other.term && self.revision < other.revision)
    }
}

impl View for ProtocolId {
    type V = ProtocolId;

    open spec fn view(&self) -> ProtocolId {
        *self
    }
}

impl Key for ProtocolId {
    fn same(&self, other: &Self) -> (same: bool) {
        *self == *other
    }

    fn copy(&self) -> (copy: Self) {
        *self
    }
}

/// The durable record of a member of the cluster.
#[derive(Debug)]
pub struct MemberRecord {
    pub node: NodeKey,
    pub status: MemberStatus,
    pub version: MembershipVersion,
    pub lease_id: i64,
    pub release_id: u64,
    pub protocols: Vec<ProtocolId>,
}

#[verifier::ext_equal]
pub struct RecordModel {
    pub node: NodeModel,
    pub status: MemberStatus,
    pub version: MembershipVersion,
    pub lease_id: i64,
    pub release_id: u64,
    pub protocols: Seq<ProtocolId>,
}

impl View for MemberRecord {
    type V = RecordModel;

    open spec fn view(&self) -> RecordModel {
        RecordModel {
            node: self.node@,
            status: self.status,
            version: self.version,
            lease_id: self.lease_id,
            release_id: self.release_id,
            protocols: seq_view(self.protocols@),
        }
    }
}

impl Key for MemberRecord {
    fn same(&self, other: &Self) -> (same: bool) {
        self.node.same(&other.node) && self.status == other.status && self.version == other.version
            && self.lease_id == other.lease_id && self.release_id == other.release_id && same_seq(
            &self.protocols,
            &other.protocols,
        )
    }

    fn copy(&self) -> (copy: Self) {
        MemberRecord {
            node: self.node.copy(),
            status: self.status,
            version: self.version,
            lease_id: self.lease_id,
            release_id: self.release_id,
            protocols: copy_seq(&self.protocols),
        }
    }
}

/// What a node declares when it joins the cluster.
#[derive(Debug)]
pub struct MemberHello {
    pub node: NodeKey,
    pub release_id: u64,
    pub protocols: Vec<ProtocolId>,
}

#[verifier::ext_equal]
pub struct MemberHelloModel {
    pub node: NodeModel,
    pub release_id: u64,
    pub protocols: Seq<ProtocolId>,
}

impl View for MemberHello {
    type V = MemberHelloModel;

    open spec fn view(&self) -> MemberHelloModel {
        MemberHelloModel {
            node: self.node@,
            release_id: self.release_id,
            protocols: seq_view(self.protocols@),
        }
    }
}

impl Key for MemberHello {
    fn same(&self, other: &Self) -> (same: bool) {
        self.node.same(&other.node) && self.release_id == other.release_id && same_seq(
            &self.protocols,
            &other.protocols,
        )
    }

    fn copy(&self) -> (copy: Self) {
        MemberHello {
            node: self.node.copy(),
            release_id: self.release_id,
            protocols: copy_seq(&self.protocols),
        }
    }
}

impl RecordModel {
    /// Whether the record is of the node that declares so, as it declares it.
    pub open spec fn answers(self, hello: MemberHelloModel) -> bool {
        self.node == hello.node && self.release_id == hello.release_id && self.protocols
            == hello.protocols
    }
}

impl MemberRecord {
    pub fn answers(&self, hello: &MemberHello) -> (answers: bool)
        ensures
            answers == self@.answers(hello@),
    {
        self.node.same(&hello.node) && self.release_id == hello.release_id && same_seq(
            &self.protocols,
            &hello.protocols,
        )
    }
}

/// Where a member stands in a placement domain.
#[derive(Debug, Clone, Copy, PartialEq, Eq, Structural)]
pub enum DomainMemberStatus {
    Up,
    Leaving,
}

/// The durable record of a member of a placement domain.
pub struct DomainMemberRecord {
    pub node: NodeKey,
    pub hello: NodeHello,
    pub status: DomainMemberStatus,
    pub version: PlacementVersion,
}

#[verifier::ext_equal]
pub struct DomainRecordModel {
    pub node: NodeModel,
    pub hello: HelloModel,
    pub status: DomainMemberStatus,
    pub version: VersionModel,
}

impl View for DomainMemberRecord {
    type V = DomainRecordModel;

    open spec fn view(&self) -> DomainRecordModel {
        DomainRecordModel {
            node: self.node@,
            hello: self.hello@,
            status: self.status,
            version: self.version@,
        }
    }
}

impl Key for DomainMemberRecord {
    fn same(&self, other: &Self) -> (same: bool) {
        self.node.same(&other.node) && self.hello.same(&other.hello) && self.status == other.status
            && self.version.same(&other.version)
    }

    fn copy(&self) -> (copy: Self) {
        DomainMemberRecord {
            node: self.node.copy(),
            hello: self.hello.copy(),
            status: self.status,
            version: self.version.copy(),
        }
    }
}

/// The connection between two nodes.
#[derive(Debug, PartialEq, Eq)]
pub struct AssociationKey<S = String> {
    pub cluster_id: S,
    pub local_incarnation: NodeIncarnation,
    pub remote_address: NodeAddress<S>,
    pub remote_incarnation: NodeIncarnation,
}

pub type AssociationModel = AssociationKey<Seq<char>>;

impl View for AssociationKey {
    type V = AssociationModel;

    open spec fn view(&self) -> AssociationModel {
        AssociationKey {
            cluster_id: self.cluster_id@,
            local_incarnation: self.local_incarnation,
            remote_address: self.remote_address@,
            remote_incarnation: self.remote_incarnation,
        }
    }
}

impl Key for AssociationKey {
    fn same(&self, other: &Self) -> (same: bool) {
        self.cluster_id.same(&other.cluster_id) && self.local_incarnation
            == other.local_incarnation && self.remote_address.same(&other.remote_address)
            && self.remote_incarnation == other.remote_incarnation
    }

    fn copy(&self) -> (copy: Self) {
        AssociationKey {
            cluster_id: self.cluster_id.copy(),
            local_incarnation: self.local_incarnation,
            remote_address: self.remote_address.copy(),
            remote_incarnation: self.remote_incarnation,
        }
    }
}

/// A member that is connected to a leader.
pub struct MemberSession {
    pub hello: NodeHello,
    pub record: MemberRecord,
    pub domain_record: Option<DomainMemberRecord>,
    pub association: AssociationKey,
    pub lease_id: i64,
    pub heartbeat_sequence: u64,
    pub last_heartbeat: TimeSpan,
    pub applied_version: Option<PlacementVersion>,
    pub snapshot_version: Option<MembershipVersion>,
    pub draining: bool,
    pub joined_at: MonotonicTime,
}

#[verifier::ext_equal]
pub struct SessionModel {
    pub hello: HelloModel,
    pub record: RecordModel,
    pub domain_record: Option<DomainRecordModel>,
    pub association: AssociationModel,
    pub lease_id: i64,
    pub heartbeat_sequence: u64,
    pub last_heartbeat: TimeSpan,
    pub applied_version: Option<VersionModel>,
    pub snapshot_version: Option<MembershipVersion>,
    pub draining: bool,
    pub joined_at: MonotonicTime,
}

impl View for MemberSession {
    type V = SessionModel;

    open spec fn view(&self) -> SessionModel {
        SessionModel {
            hello: self.hello@,
            record: self.record@,
            domain_record: option_view(self.domain_record),
            association: self.association@,
            lease_id: self.lease_id,
            heartbeat_sequence: self.heartbeat_sequence,
            last_heartbeat: self.last_heartbeat,
            applied_version: option_view(self.applied_version),
            snapshot_version: self.snapshot_version,
            draining: self.draining,
            joined_at: self.joined_at,
        }
    }
}

impl SessionModel {
    /// Whether the member takes part in the placement of the domain.
    pub open spec fn attached(self) -> bool {
        self.domain_record is Some
    }

    /// Whether slots may be placed on the member.
    pub open spec fn up(self) -> bool {
        &&& self.record.status == MemberStatus::Up
        &&& self.domain_record matches Some(record)
        &&& record.status == DomainMemberStatus::Up
    }

    /// Whether the member speaks a protocol.
    pub open spec fn speaks(self, protocol_id: ProtocolId) -> bool {
        self.record.protocols.contains(protocol_id)
    }

    /// Whether the member has applied a version.
    pub open spec fn has_applied(self, version: VersionModel) -> bool {
        self.applied_version matches Some(applied) && applied.covers(version)
    }
}

impl MemberSession {
    pub fn placement_attached(&self) -> (attached: bool)
        ensures
            attached == self@.attached(),
    {
        match &self.domain_record {
            Some(_) => true,
            None => false,
        }
    }

    pub fn placement_up(&self) -> (up: bool)
        ensures
            up == self@.up(),
    {
        match &self.domain_record {
            Some(record) => self.record.status == MemberStatus::Up && record.status
                == DomainMemberStatus::Up,
            None => false,
        }
    }

    pub fn speaks(&self, protocol_id: ProtocolId) -> (speaks: bool)
        ensures
            speaks == self@.speaks(protocol_id),
    {
        holds(&self.record.protocols, &protocol_id)
    }

    pub fn has_applied(&self, version: &PlacementVersion) -> (applied: bool)
        ensures
            applied == self@.has_applied(version@),
    {
        match &self.applied_version {
            Some(applied) => applied.satisfies(version),
            None => false,
        }
    }
}

} // verus!
