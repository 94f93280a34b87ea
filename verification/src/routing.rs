//! Routing: where a request for an actor goes.
use vstd::prelude::*;

use crate::keymap::Key;
use crate::records::{ActorId, ActorKind, Epoch, InstanceState, RouteKey, ServiceKind};

pub mod cache;
pub mod placement;
pub mod route_laws;
pub mod rpc;
pub mod static_resolver;
pub mod table;

pub use crate::routing::cache::{CacheLookup, LocalRouteCache, RouteCacheConfig};

verus! {

/// The instance that a request is sent to.
#[derive(Debug, PartialEq, Eq)]
pub struct RouteTarget<S = String> {
    pub service_kind: S,
    pub instance_id: S,
    pub advertised_endpoint: S,
    pub owner_epoch: Option<Epoch>,
}

pub type RouteTargetModel = RouteTarget<Seq<char>>;

impl View for RouteTarget {
    type V = RouteTargetModel;

    open spec fn view(&self) -> RouteTargetModel {
        RouteTarget {
            service_kind: self.service_kind@,
            instance_id: self.instance_id@,
            advertised_endpoint: self.advertised_endpoint@,
            owner_epoch: self.owner_epoch,
        }
    }
}

impl Key for RouteTarget {
    fn same(&self, other: &Self) -> (same: bool) {
        self.service_kind.same(&other.service_kind) && self.instance_id.same(&other.instance_id)
            && self.advertised_endpoint.same(&other.advertised_endpoint) && match (
            self.owner_epoch,
            other.owner_epoch,
        ) {
            (Some(a), Some(b)) => a == b,
            (None, None) => true,
            _ => false,
        }
    }

    fn copy(&self) -> (copy: Self) {
        RouteTarget {
            service_kind: self.service_kind.copy(),
            instance_id: self.instance_id.copy(),
            advertised_endpoint: self.advertised_endpoint.copy(),
            owner_epoch: self.owner_epoch,
        }
    }
}

/// The key under which a route is remembered.
#[derive(Debug, PartialEq, Eq)]
pub struct RouteCacheKey<S = String, B = Vec<u8>> {
    pub service_kind: S,
    pub actor_kind: S,
    pub route_key: RouteKey<S, B>,
}

pub type CacheKeyModel = RouteCacheKey<Seq<char>, Seq<u8>>;

impl View for RouteCacheKey {
    type V = CacheKeyModel;

    open spec fn view(&self) -> CacheKeyModel {
        RouteCacheKey {
            service_kind: self.service_kind@,
            actor_kind: self.actor_kind@,
            route_key: self.route_key@,
        }
    }
}

impl RouteCacheKey {
    pub fn new(service_kind: ServiceKind, actor_kind: ActorKind, route_key: RouteKey) -> (key: Self)
        ensures
            key@ == (RouteCacheKey {
                service_kind: service_kind@,
                actor_kind: actor_kind@,
                route_key: route_key@,
            }),
    {
        RouteCacheKey { service_kind, actor_kind, route_key }
    }
}

/// What is asked of a resolver.
#[derive(Debug, PartialEq, Eq)]
pub struct ResolveRequest<S = String, B = Vec<u8>> {
    pub service_kind: S,
    pub actor_kind: S,
    pub route_key: RouteKey<S, B>,
}

pub type RequestModel = ResolveRequest<Seq<char>, Seq<u8>>;

impl View for ResolveRequest {
    type V = RequestModel;

    open spec fn view(&self) -> RequestModel {
        ResolveRequest {
            service_kind: self.service_kind@,
            actor_kind: self.actor_kind@,
            route_key: self.route_key@,
        }
    }
}

impl ResolveRequest<Seq<char>, Seq<u8>> {
    /// The key under which the answer is remembered.
    pub open spec fn key(self) -> CacheKeyModel {
        RouteCacheKey {
            service_kind: self.service_kind,
            actor_kind: self.actor_kind,
            route_key: self.route_key,
        }
    }
}

impl ResolveRequest {
    pub fn cache_key(&self) -> (key: RouteCacheKey)
        ensures
            key@ == self@.key(),
    {
        RouteCacheKey::new(self.service_kind.copy(), self.actor_kind.copy(), self.route_key.copy())
    }
}

/// Why a remembered route is dropped.
#[derive(Debug, Clone, Copy, PartialEq, Eq, Structural)]
pub enum InvalidateReason {
    NotOwner,
    Fenced,
    OwnerChanged,
    Manual,
}

/// Why no route was found.
#[derive(Debug, PartialEq, Eq)]
#[allow(inconsistent_fields)]
pub enum PlacementError<S = String> {
    NoRoute,
    UnsupportedRouteKey,
    InstanceNotFound { instance_id: S },
    InstanceNotReady { instance_id: S, state: InstanceState },
}

pub type PlacementErrorModel = PlacementError<Seq<char>>;

impl View for PlacementError {
    type V = PlacementErrorModel;

    open spec fn view(&self) -> PlacementErrorModel {
        match self {
            PlacementError::NoRoute => PlacementError::NoRoute,
            PlacementError::UnsupportedRouteKey => PlacementError::UnsupportedRouteKey,
            PlacementError::InstanceNotFound { instance_id } => PlacementError::InstanceNotFound {
                instance_id: instance_id@,
            },
            PlacementError::InstanceNotReady { instance_id, state } =>
                PlacementError::InstanceNotReady { instance_id: instance_id@, state: *state },
        }
    }
}

/// What a resolution states.
pub open spec fn resolution(result: Result<RouteTarget, PlacementError>) -> Result<
    RouteTargetModel,
    PlacementErrorModel,
> {
    match result {
        Ok(target) => Ok(target@),
        Err(error) => Err(error@),
    }
}

/// The actor that a route key stands for, where actors are placed one by one.
pub open spec fn actor_of(route_key: RouteKey<Seq<char>, Seq<u8>>) -> ActorId<Seq<char>, Seq<u8>> {
    match route_key {
        RouteKey::Str(value) => ActorId::Str(value),
        RouteKey::U64(value) => ActorId::U64(value),
        RouteKey::I64(value) => ActorId::I64(value),
        RouteKey::Bytes(value) => ActorId::Bytes(value),
    }
}

/// The route key of an actor.
pub open spec fn key_of(actor_id: ActorId<Seq<char>, Seq<u8>>) -> RouteKey<Seq<char>, Seq<u8>> {
    match actor_id {
        ActorId::Str(value) => RouteKey::Str(value),
        ActorId::U64(value) => RouteKey::U64(value),
        ActorId::I64(value) => RouteKey::I64(value),
        ActorId::Bytes(value) => RouteKey::Bytes(value),
    }
}

pub fn actor_id_from_route_key(route_key: RouteKey) -> (actor_id: ActorId)
    ensures
        actor_id@ == actor_of(route_key@),
{
    match route_key {
        RouteKey::Str(value) => ActorId::Str(value),
        RouteKey::U64(value) => ActorId::U64(value),
        RouteKey::I64(value) => ActorId::I64(value),
        RouteKey::Bytes(value) => ActorId::Bytes(value),
    }
}

pub fn route_key_from_actor_id(actor_id: &ActorId) -> (route_key: RouteKey)
    ensures
        route_key@ == key_of(actor_id@),
{
    match actor_id {
        ActorId::Str(value) => RouteKey::Str(value.copy()),
        ActorId::U64(value) => RouteKey::U64(*value),
        ActorId::I64(value) => RouteKey::I64(*value),
        ActorId::Bytes(value) => RouteKey::Bytes(value.copy()),
    }
}

/// Actors and route keys stand for one another, and a route key stands for the actor of its kind and
/// value.
pub proof fn law_actors_and_route_keys_correspond(
    actor_id: ActorId<Seq<char>, Seq<u8>>,
    route_key: RouteKey<Seq<char>, Seq<u8>>,
)
    ensures
        actor_of(key_of(actor_id)) == actor_id,
        key_of(actor_of(route_key)) == route_key,
        match route_key {
            RouteKey::Str(value) => actor_of(route_key) == ActorId::<Seq<char>, Seq<u8>>::Str(
                value,
            ),
            RouteKey::U64(value) => actor_of(route_key) == ActorId::<Seq<char>, Seq<u8>>::U64(
                value,
            ),
            RouteKey::I64(value) => actor_of(route_key) == ActorId::<Seq<char>, Seq<u8>>::I64(
                value,
            ),
            RouteKey::Bytes(value) => actor_of(route_key) == ActorId::<Seq<char>, Seq<u8>>::Bytes(
                value,
            ),
        },
{
}

} // verus!
