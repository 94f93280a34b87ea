//! The records of the placement store: who owns an actor, a virtual shard or a singleton.
//!
//! A record is generic in how it holds text and bytes. With `String` and `Vec<u8>`, the
//! default, it is the record itself; with `Seq<char>` and `Seq<u8>` it is what that record
//! denotes, its view.
use vstd::prelude::*;

use crate::keymap::Key;

verus! {

pub type ServiceKind = String;

pub type ActorKind = String;

pub type InstanceId = String;

pub type InstanceIncarnation = String;

/// The epoch of an ownership: each change of authority advances it.
#[derive(Debug, Clone, Copy, PartialEq, Eq, Structural, PartialOrd, Ord, Hash)]
pub struct Epoch(pub u64);

/// A lease that an owner keeps alive.
#[derive(Debug, Clone, Copy, PartialEq, Eq, Structural, PartialOrd, Ord, Hash)]
pub struct LeaseId(pub u64);

/// A revision of the placement store.
#[derive(Debug, Clone, Copy, PartialEq, Eq, Structural, PartialOrd, Ord, Hash)]
pub struct PlacementRevision(pub u64);

/// A virtual shard of an actor kind.
#[derive(Debug, Clone, Copy, PartialEq, Eq, Structural, PartialOrd, Ord, Hash)]
pub struct VirtualShardId(pub u32);

/// Whether an instance takes requests.
#[derive(Debug, Clone, Copy, PartialEq, Eq, Structural)]
pub enum InstanceState {
    Ready,
    Draining,
}

/// Where a placement stands.
#[derive(Debug, Clone, Copy, PartialEq, Eq, Structural)]
pub enum PlacementState {
    Running,
    Migrating,
    Draining,
    Stopped,
}

/// The identity of an actor within its kind.
#[derive(Debug, PartialEq, Eq, Hash)]
pub enum ActorId<S = String, B = Vec<u8>> {
    Str(S),
    U64(u64),
    I64(i64),
    Bytes(B),
}

impl View for ActorId {
    type V = ActorId<Seq<char>, Seq<u8>>;

    open spec fn view(&self) -> Self::V {
        match self {
            ActorId::Str(value) => ActorId::Str(value@),
            ActorId::U64(value) => ActorId::U64(*value),
            ActorId::I64(value) => ActorId::I64(*value),
            ActorId::Bytes(value) => ActorId::Bytes(value@),
        }
    }
}

impl Clone for ActorId {
    fn clone(&self) -> (clone: Self)
        ensures
            clone@ == self@,
    {
        self.copy()
    }
}

impl Key for ActorId {
    fn same(&self, other: &Self) -> (same: bool) {
        match (self, other) {
            (ActorId::Str(a), ActorId::Str(b)) => a.same(b),
            (ActorId::U64(a), ActorId::U64(b)) => *a == *b,
            (ActorId::I64(a), ActorId::I64(b)) => *a == *b,
            (ActorId::Bytes(a), ActorId::Bytes(b)) => a.same(b),
            _ => false,
        }
    }

    fn copy(&self) -> (copy: Self) {
        match self {
            ActorId::Str(value) => ActorId::Str(value.copy()),
            ActorId::U64(value) => ActorId::U64(*value),
            ActorId::I64(value) => ActorId::I64(*value),
            ActorId::Bytes(value) => ActorId::Bytes(value.copy()),
        }
    }
}

/// The key by which a request is routed.
#[derive(Debug, PartialEq, Eq, Hash)]
pub enum RouteKey<S = String, B = Vec<u8>> {
    Str(S),
    U64(u64),
    I64(i64),
    Bytes(B),
}

impl View for RouteKey {
    type V = RouteKey<Seq<char>, Seq<u8>>;

    open spec fn view(&self) -> Self::V {
        match self {
            RouteKey::Str(value) => RouteKey::Str(value@),
            RouteKey::U64(value) => RouteKey::U64(*value),
            RouteKey::I64(value) => RouteKey::I64(*value),
            RouteKey::Bytes(value) => RouteKey::Bytes(value@),
        }
    }
}

impl Clone for RouteKey {
    fn clone(&self) -> (clone: Self)
        ensures
            clone@ == self@,
    {
        self.copy()
    }
}

impl Key for RouteKey {
    fn same(&self, other: &Self) -> (same: bool) {
        match (self, other) {
            (RouteKey::Str(a), RouteKey::Str(b)) => a.same(b),
            (RouteKey::U64(a), RouteKey::U64(b)) => *a == *b,
            (RouteKey::I64(a), RouteKey::I64(b)) => *a == *b,
            (RouteKey::Bytes(a), RouteKey::Bytes(b)) => a.same(b),
            _ => false,
        }
    }

    fn copy(&self) -> (copy: Self) {
        match self {
            RouteKey::Str(value) => RouteKey::Str(value.copy()),
            RouteKey::U64(value) => RouteKey::U64(*value),
            RouteKey::I64(value) => RouteKey::I64(*value),
            RouteKey::Bytes(value) => RouteKey::Bytes(value.copy()),
        }
    }
}

/// The key of an explicitly placed actor.
#[derive(Debug, PartialEq, Eq)]
pub struct ActorPlacementKey<S = String, B = Vec<u8>> {
    pub service_kind: S,
    pub actor_kind: S,
    pub actor_id: ActorId<S, B>,
}

impl View for ActorPlacementKey {
    type V = ActorPlacementKey<Seq<char>, Seq<u8>>;

    open spec fn view(&self) -> Self::V {
        ActorPlacementKey {
            service_kind: self.service_kind@,
            actor_kind: self.actor_kind@,
            actor_id: self.actor_id@,
        }
    }
}

impl Clone for ActorPlacementKey {
    fn clone(&self) -> (clone: Self)
        ensures
            clone@ == self@,
    {
        self.copy()
    }
}

impl Key for ActorPlacementKey {
    fn same(&self, other: &Self) -> (same: bool) {
        self.service_kind.same(&other.service_kind)
            && self.actor_kind.same(&other.actor_kind)
            && self.actor_id.same(&other.actor_id)
    }

    fn copy(&self) -> (copy: Self) {
        ActorPlacementKey {
            service_kind: self.service_kind.copy(),
            actor_kind: self.actor_kind.copy(),
            actor_id: self.actor_id.copy(),
        }
    }
}

/// The key of a virtual shard.
#[derive(Debug, PartialEq, Eq)]
pub struct VirtualShardPlacementKey<S = String> {
    pub service_kind: S,
    pub actor_kind: S,
    pub shard_id: VirtualShardId,
}

impl View for VirtualShardPlacementKey {
    type V = VirtualShardPlacementKey<Seq<char>>;

    open spec fn view(&self) -> Self::V {
        VirtualShardPlacementKey {
            service_kind: self.service_kind@,
            actor_kind: self.actor_kind@,
            shard_id: self.shard_id,
        }
    }
}

impl Clone for VirtualShardPlacementKey {
    fn clone(&self) -> (clone: Self)
        ensures
            clone@ == self@,
    {
        self.copy()
    }
}

impl Key for VirtualShardPlacementKey {
    fn same(&self, other: &Self) -> (same: bool) {
        self.service_kind.same(&other.service_kind)
            && self.actor_kind.same(&other.actor_kind)
            && self.shard_id == other.shard_id
    }

    fn copy(&self) -> (copy: Self) {
        VirtualShardPlacementKey {
            service_kind: self.service_kind.copy(),
            actor_kind: self.actor_kind.copy(),
            shard_id: self.shard_id,
        }
    }
}

/// The key of a singleton.
#[derive(Debug, PartialEq, Eq)]
pub struct SingletonKey<S = String> {
    pub service_kind: S,
    pub singleton_kind: S,
    pub scope: S,
}

impl View for SingletonKey {
    type V = SingletonKey<Seq<char>>;

    open spec fn view(&self) -> Self::V {
        SingletonKey {
            service_kind: self.service_kind@,
            singleton_kind: self.singleton_kind@,
            scope: self.scope@,
        }
    }
}

impl Clone for SingletonKey {
    fn clone(&self) -> (clone: Self)
        ensures
            clone@ == self@,
    {
        self.copy()
    }
}

impl Key for SingletonKey {
    fn same(&self, other: &Self) -> (same: bool) {
        self.service_kind.same(&other.service_kind)
            && self.singleton_kind.same(&other.singleton_kind)
            && self.scope.same(&other.scope)
    }

    fn copy(&self) -> (copy: Self) {
        SingletonKey {
            service_kind: self.service_kind.copy(),
            singleton_kind: self.singleton_kind.copy(),
            scope: self.scope.copy(),
        }
    }
}

/// The placement of one actor.
#[derive(Debug, PartialEq, Eq)]
pub struct ActorPlacementRecord<S = String, B = Vec<u8>> {
    pub service_kind: S,
    pub actor_kind: S,
    pub actor_id: ActorId<S, B>,
    pub owner: S,
    pub epoch: Epoch,
    pub lease_id: LeaseId,
    pub state: PlacementState,
}

impl View for ActorPlacementRecord {
    type V = ActorPlacementRecord<Seq<char>, Seq<u8>>;

    open spec fn view(&self) -> Self::V {
        ActorPlacementRecord {
            service_kind: self.service_kind@,
            actor_kind: self.actor_kind@,
            actor_id: self.actor_id@,
            owner: self.owner@,
            epoch: self.epoch,
            lease_id: self.lease_id,
            state: self.state,
        }
    }
}

impl Clone for ActorPlacementRecord {
    fn clone(&self) -> (clone: Self)
        ensures
            clone@ == self@,
    {
        self.copy()
    }
}

impl Key for ActorPlacementRecord {
    fn same(&self, other: &Self) -> (same: bool) {
        self.service_kind.same(&other.service_kind)
            && self.actor_kind.same(&other.actor_kind)
            && self.actor_id.same(&other.actor_id)
            && self.owner.same(&other.owner)
            && self.epoch == other.epoch
            && self.lease_id == other.lease_id
            && self.state == other.state
    }

    fn copy(&self) -> (copy: Self) {
        ActorPlacementRecord {
            service_kind: self.service_kind.copy(),
            actor_kind: self.actor_kind.copy(),
            actor_id: self.actor_id.copy(),
            owner: self.owner.copy(),
            epoch: self.epoch,
            lease_id: self.lease_id,
            state: self.state,
        }
    }
}

/// The placement of one virtual shard.
#[derive(Debug, PartialEq, Eq)]
pub struct VirtualShardPlacementRecord<S = String> {
    pub service_kind: S,
    pub actor_kind: S,
    pub shard_id: VirtualShardId,
    pub owner: S,
    pub epoch: Epoch,
}

impl View for VirtualShardPlacementRecord {
    type V = VirtualShardPlacementRecord<Seq<char>>;

    open spec fn view(&self) -> Self::V {
        VirtualShardPlacementRecord {
            service_kind: self.service_kind@,
            actor_kind: self.actor_kind@,
            shard_id: self.shard_id,
            owner: self.owner@,
            epoch: self.epoch,
        }
    }
}

impl Clone for VirtualShardPlacementRecord {
    fn clone(&self) -> (clone: Self)
        ensures
            clone@ == self@,
    {
        self.copy()
    }
}

impl Key for VirtualShardPlacementRecord {
    fn same(&self, other: &Self) -> (same: bool) {
        self.service_kind.same(&other.service_kind)
            && self.actor_kind.same(&other.actor_kind)
            && self.shard_id == other.shard_id
            && self.owner.same(&other.owner)
            && self.epoch == other.epoch
    }

    fn copy(&self) -> (copy: Self) {
        VirtualShardPlacementRecord {
            service_kind: self.service_kind.copy(),
            actor_kind: self.actor_kind.copy(),
            shard_id: self.shard_id,
            owner: self.owner.copy(),
            epoch: self.epoch,
        }
    }
}

/// The placement of one singleton.
#[derive(Debug, PartialEq, Eq)]
pub struct SingletonPlacementRecord<S = String> {
    pub service_kind: S,
    pub singleton_kind: S,
    pub scope: S,
    pub owner: S,
    pub owner_incarnation: S,
    pub epoch: Epoch,
    pub lease_id: LeaseId,
    pub state: PlacementState,
}

impl View for SingletonPlacementRecord {
    type V = SingletonPlacementRecord<Seq<char>>;

    open spec fn view(&self) -> Self::V {
        SingletonPlacementRecord {
            service_kind: self.service_kind@,
            singleton_kind: self.singleton_kind@,
            scope: self.scope@,
            owner: self.owner@,
            owner_incarnation: self.owner_incarnation@,
            epoch: self.epoch,
            lease_id: self.lease_id,
            state: self.state,
        }
    }
}

impl Clone for SingletonPlacementRecord {
    fn clone(&self) -> (clone: Self)
        ensures
            clone@ == self@,
    {
        self.copy()
    }
}

impl Key for SingletonPlacementRecord {
    fn same(&self, other: &Self) -> (same: bool) {
        self.service_kind.same(&other.service_kind)
            && self.singleton_kind.same(&other.singleton_kind)
            && self.scope.same(&other.scope)
            && self.owner.same(&other.owner)
            && self.owner_incarnation.same(&other.owner_incarnation)
            && self.epoch == other.epoch
            && self.lease_id == other.lease_id
            && self.state == other.state
    }

    fn copy(&self) -> (copy: Self) {
        SingletonPlacementRecord {
            service_kind: self.service_kind.copy(),
            singleton_kind: self.singleton_kind.copy(),
            scope: self.scope.copy(),
            owner: self.owner.copy(),
            owner_incarnation: self.owner_incarnation.copy(),
            epoch: self.epoch,
            lease_id: self.lease_id,
            state: self.state,
        }
    }
}

/// The registration of one service instance.
#[derive(Debug, PartialEq, Eq)]
pub struct InstanceRecord<S = String> {
    pub service_kind: S,
    pub instance_id: S,
    pub incarnation: S,
    pub lease_id: LeaseId,
    pub advertised_endpoint: S,
    pub state: InstanceState,
}

impl View for InstanceRecord {
    type V = InstanceRecord<Seq<char>>;

    open spec fn view(&self) -> Self::V {
        InstanceRecord {
            service_kind: self.service_kind@,
            instance_id: self.instance_id@,
            incarnation: self.incarnation@,
            lease_id: self.lease_id,
            advertised_endpoint: self.advertised_endpoint@,
            state: self.state,
        }
    }
}

impl Clone for InstanceRecord {
    fn clone(&self) -> (clone: Self)
        ensures
            clone@ == self@,
    {
        self.copy()
    }
}

impl Key for InstanceRecord {
    fn same(&self, other: &Self) -> (same: bool) {
        self.service_kind.same(&other.service_kind)
            && self.instance_id.same(&other.instance_id)
            && self.incarnation.same(&other.incarnation)
            && self.lease_id == other.lease_id
            && self.advertised_endpoint.same(&other.advertised_endpoint)
            && self.state == other.state
    }

    fn copy(&self) -> (copy: Self) {
        InstanceRecord {
            service_kind: self.service_kind.copy(),
            instance_id: self.instance_id.copy(),
            incarnation: self.incarnation.copy(),
            lease_id: self.lease_id,
            advertised_endpoint: self.advertised_endpoint.copy(),
            state: self.state,
        }
    }
}

/// The key of a placement of any family.
#[derive(Debug, PartialEq, Eq)]
pub enum OwnershipKey<S = String, B = Vec<u8>> {
    Explicit(ActorPlacementKey<S, B>),
    VirtualShard(VirtualShardPlacementKey<S>),
    Singleton(SingletonKey<S>),
}

impl View for OwnershipKey {
    type V = OwnershipKey<Seq<char>, Seq<u8>>;

    open spec fn view(&self) -> Self::V {
        match self {
            OwnershipKey::Explicit(inner) => OwnershipKey::Explicit(inner@),
            OwnershipKey::VirtualShard(inner) => OwnershipKey::VirtualShard(inner@),
            OwnershipKey::Singleton(inner) => OwnershipKey::Singleton(inner@),
        }
    }
}

impl Clone for OwnershipKey {
    fn clone(&self) -> (clone: Self)
        ensures
            clone@ == self@,
    {
        self.copy()
    }
}

impl Key for OwnershipKey {
    fn same(&self, other: &Self) -> (same: bool) {
        match (self, other) {
            (OwnershipKey::Explicit(a), OwnershipKey::Explicit(b)) => a.same(b),
            (OwnershipKey::VirtualShard(a), OwnershipKey::VirtualShard(b)) => a.same(b),
            (OwnershipKey::Singleton(a), OwnershipKey::Singleton(b)) => a.same(b),
            _ => false,
        }
    }

    fn copy(&self) -> (copy: Self) {
        match self {
            OwnershipKey::Explicit(inner) => OwnershipKey::Explicit(inner.copy()),
            OwnershipKey::VirtualShard(inner) => OwnershipKey::VirtualShard(inner.copy()),
            OwnershipKey::Singleton(inner) => OwnershipKey::Singleton(inner.copy()),
        }
    }
}

/// A placement record of any family.
#[derive(Debug, PartialEq, Eq)]
pub enum OwnershipRecordBinding<S = String, B = Vec<u8>> {
    Actor(ActorPlacementRecord<S, B>),
    VirtualShard(VirtualShardPlacementRecord<S>),
    Singleton(SingletonPlacementRecord<S>),
}

impl View for OwnershipRecordBinding {
    type V = OwnershipRecordBinding<Seq<char>, Seq<u8>>;

    open spec fn view(&self) -> Self::V {
        match self {
            OwnershipRecordBinding::Actor(inner) => OwnershipRecordBinding::Actor(inner@),
            OwnershipRecordBinding::VirtualShard(inner) => OwnershipRecordBinding::VirtualShard(inner@),
            OwnershipRecordBinding::Singleton(inner) => OwnershipRecordBinding::Singleton(inner@),
        }
    }
}

impl Clone for OwnershipRecordBinding {
    fn clone(&self) -> (clone: Self)
        ensures
            clone@ == self@,
    {
        self.copy()
    }
}

impl Key for OwnershipRecordBinding {
    fn same(&self, other: &Self) -> (same: bool) {
        match (self, other) {
            (OwnershipRecordBinding::Actor(a), OwnershipRecordBinding::Actor(b)) => a.same(b),
            (OwnershipRecordBinding::VirtualShard(a), OwnershipRecordBinding::VirtualShard(b)) => a.same(b),
            (OwnershipRecordBinding::Singleton(a), OwnershipRecordBinding::Singleton(b)) => a.same(b),
            _ => false,
        }
    }

    fn copy(&self) -> (copy: Self) {
        match self {
            OwnershipRecordBinding::Actor(inner) => OwnershipRecordBinding::Actor(inner.copy()),
            OwnershipRecordBinding::VirtualShard(inner) => OwnershipRecordBinding::VirtualShard(inner.copy()),
            OwnershipRecordBinding::Singleton(inner) => OwnershipRecordBinding::Singleton(inner.copy()),
        }
    }
}

} // verus!
