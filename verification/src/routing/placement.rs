//! Routes to actors that are placed one by one.
use vstd::prelude::*;

use crate::keymap::{option_view, Key};
use crate::records::{
    ActorPlacementKey, ActorPlacementRecord, InstanceId, InstanceRecord, InstanceState,
    PlacementState, ServiceKind,
};
use crate::routing::cache::{CacheLookup, CacheModel, LocalRouteCache, RouteCacheConfig};
use crate::routing::{
    actor_id_from_route_key, actor_of, key_of, resolution, route_key_from_actor_id, CacheKeyModel,
    InvalidateReason, PlacementError, PlacementErrorModel, RequestModel, ResolveRequest,
    RouteCacheKey, RouteTarget, RouteTargetModel,
};

verus! {

pub type ActorRecordModel = ActorPlacementRecord<Seq<char>, Seq<u8>>;

pub type InstanceModel = InstanceRecord<Seq<char>>;

pub type PlacementKeyModel = ActorPlacementKey<Seq<char>, Seq<u8>>;

/// What a resolution goes on with.
pub enum ResolveStep<T = RouteTarget, K = ActorPlacementKey> {
    /// The route is remembered.
    Known(T),
    /// The placement of an actor is to be read, and where there is none, the actor activated.
    ReadActor(K),
}

pub type ResolveStepModel = ResolveStep<RouteTargetModel, PlacementKeyModel>;

/// What the next step of a resolution states.
pub open spec fn step_view(result: Result<ResolveStep, PlacementError>) -> Result<
    ResolveStepModel,
    PlacementErrorModel,
> {
    match result {
        Ok(ResolveStep::Known(target)) => Ok(ResolveStep::Known(target@)),
        Ok(ResolveStep::ReadActor(key)) => Ok(ResolveStep::ReadActor(key@)),
        Err(error) => Err(error@),
    }
}

/// A change that the store reports.
pub enum RouteWatchEvent<I = InstanceRecord, A = ActorPlacementRecord> {
    InstanceUpdated(I),
    ActorUpdated(A),
    Other,
}

pub type WatchEventModel = RouteWatchEvent<InstanceModel, ActorRecordModel>;

impl View for RouteWatchEvent {
    type V = WatchEventModel;

    open spec fn view(&self) -> WatchEventModel {
        match self {
            RouteWatchEvent::InstanceUpdated(record) => WatchEventModel::InstanceUpdated(record@),
            RouteWatchEvent::ActorUpdated(record) => WatchEventModel::ActorUpdated(record@),
            RouteWatchEvent::Other => WatchEventModel::Other,
        }
    }
}

/// Resolves routes from the placements of a service, and remembers them.
pub struct ExplicitRouteResolver {
    service_kind: ServiceKind,
    cache: LocalRouteCache,
    placement_lookups: u64,
}

#[verifier::ext_equal]
pub struct ExplicitModel {
    pub service_kind: Seq<char>,
    pub cache: CacheModel,
    pub placement_lookups: u64,
}

impl View for ExplicitRouteResolver {
    type V = ExplicitModel;

    closed spec fn view(&self) -> ExplicitModel {
        ExplicitModel {
            service_kind: self.service_kind@,
            cache: self.cache@,
            placement_lookups: self.placement_lookups,
        }
    }
}

/// Whether a record is of the actor that was asked for, and the actor runs.
pub open spec fn is_running_as_asked(key: PlacementKeyModel, record: ActorRecordModel) -> bool {
    record.service_kind == key.service_kind && record.actor_kind == key.actor_kind
        && record.actor_id == key.actor_id && record.state == PlacementState::Running
}

/// Whether an instance takes requests for an actor: it is of the service, ready, and under the
/// lease under which the actor was placed.
pub open spec fn serves(
    service_kind: Seq<char>,
    record: ActorRecordModel,
    instance: InstanceModel,
) -> bool {
    instance.service_kind == service_kind && instance.state == InstanceState::Ready
        && instance.lease_id == record.lease_id
}

/// The route to an actor on an instance.
pub open spec fn target_on(
    service_kind: Seq<char>,
    record: ActorRecordModel,
    instance: InstanceModel,
) -> RouteTargetModel {
    RouteTarget {
        service_kind,
        instance_id: instance.instance_id,
        advertised_endpoint: instance.advertised_endpoint,
        owner_epoch: Some(record.epoch),
    }
}

impl ExplicitModel {
    /// The key of the actor that a request is for.
    pub open spec fn placement_key(self, request: RequestModel) -> PlacementKeyModel {
        ActorPlacementKey {
            service_kind: self.service_kind,
            actor_kind: request.actor_kind,
            actor_id: actor_of(request.route_key),
        }
    }

    /// How a resolution begins: requests for another service have no route, and what is
    /// remembered counts.
    pub open spec fn begin(self, request: RequestModel, now: u128) -> (
        ExplicitModel,
        Result<ResolveStepModel, PlacementErrorModel>,
    ) {
        if request.service_kind != self.service_kind {
            (self, Err(PlacementErrorModel::NoRoute))
        } else {
            let (cache, lookup) = self.cache.looked_up(request.key(), now);
            match lookup {
                CacheLookup::Fresh(target) => (
                    ExplicitModel { cache, ..self },
                    Ok(ResolveStep::Known(target)),
                ),
                CacheLookup::Stale(target) => (
                    ExplicitModel { cache, ..self },
                    Ok(ResolveStep::Known(target)),
                ),
                CacheLookup::Miss => (
                    ExplicitModel {
                        cache,
                        placement_lookups: if self.placement_lookups < u64::MAX {
                            (self.placement_lookups + 1) as u64
                        } else {
                            0
                        },
                        ..self
                    },
                    Ok(ResolveStep::ReadActor(self.placement_key(request))),
                ),
            }
        }
    }

    /// How a resolution ends, once the actor and its owner were read.
    pub open spec fn finish(
        self,
        request: RequestModel,
        record: ActorRecordModel,
        instance: Option<InstanceModel>,
        now: u128,
    ) -> (ExplicitModel, Result<RouteTargetModel, PlacementErrorModel>) {
        if !is_running_as_asked(self.placement_key(request), record) {
            (self, Err(PlacementErrorModel::NoRoute))
        } else {
            match instance {
                None => (
                    self,
                    Err(PlacementErrorModel::InstanceNotFound { instance_id: record.owner }),
                ),
                Some(instance) => if !serves(self.service_kind, record, instance) {
                    (self, Err(PlacementErrorModel::NoRoute))
                } else {
                    let target = target_on(self.service_kind, record, instance);
                    (
                        ExplicitModel {
                            cache: self.cache.inserted(request.key(), target, now),
                            ..self
                        },
                        Ok(target),
                    )
                },
            }
        }
    }

    /// The key of the route to an actor.
    pub open spec fn route_to(self, record: ActorRecordModel) -> CacheKeyModel {
        RouteCacheKey {
            service_kind: self.service_kind,
            actor_kind: record.actor_kind,
            route_key: key_of(record.actor_id),
        }
    }

    /// What a reported change does at once, and whose owner is to be read for the rest.
    pub open spec fn observe(self, event: WatchEventModel) -> (ExplicitModel, Option<Seq<char>>) {
        match event {
            WatchEventModel::InstanceUpdated(record) => if record.service_kind
                == self.service_kind {
                (
                    ExplicitModel {
                        cache: self.cache.without_instance(record.instance_id),
                        ..self
                    },
                    None,
                )
            } else {
                (self, None)
            },
            WatchEventModel::ActorUpdated(record) => if record.service_kind != self.service_kind {
                (self, None)
            } else if record.state != PlacementState::Running {
                (
                    ExplicitModel { cache: self.cache.invalidated(self.route_to(record)), ..self },
                    None,
                )
            } else {
                (self, Some(record.owner))
            },
            WatchEventModel::Other => (self, None),
        }
    }

    /// What the owner of a changed actor does to its route: the route leads to an owner that takes
    /// requests, and is dropped otherwise, also where the owner could not be read.
    pub open spec fn refresh(
        self,
        record: ActorRecordModel,
        instance: Option<InstanceModel>,
        now: u128,
    ) -> ExplicitModel {
        let key = self.route_to(record);
        match instance {
            Some(instance) => if serves(self.service_kind, record, instance) {
                ExplicitModel {
                    cache: self.cache.inserted(
                        key,
                        target_on(self.service_kind, record, instance),
                        now,
                    ),
                    ..self
                }
            } else {
                ExplicitModel { cache: self.cache.invalidated(key), ..self }
            },
            None => ExplicitModel { cache: self.cache.invalidated(key), ..self },
        }
    }
}

impl ExplicitRouteResolver {
    pub fn new(service_kind: ServiceKind, cache_config: RouteCacheConfig) -> (resolver: Self)
        requires
            cache_config.is_ordered(),
        ensures
            resolver@ == (ExplicitModel {
                service_kind: service_kind@,
                cache: CacheModel { config: cache_config, entries: Map::empty() },
                placement_lookups: 0,
            }),
    {
        ExplicitRouteResolver {
            service_kind,
            cache: LocalRouteCache::new(cache_config),
            placement_lookups: 0,
        }
    }

    pub fn placement_lookups(&self) -> (lookups: u64)
        ensures
            lookups == self@.placement_lookups,
    {
        self.placement_lookups
    }

    /// How many nanoseconds have passed since the resolver was made: the instants that the other
    /// functions take. Nothing is said of how many.
    pub fn clock(&self) -> (nanos: u128) {
        self.cache.clock()
    }

    /// Begins a resolution.
    pub fn begin_resolve(&mut self, request: &ResolveRequest, now: u128) -> (step: Result<
        ResolveStep,
        PlacementError,
    >)
        ensures
            (final(self)@, step_view(step)) == old(self)@.begin(request@, now),
    {
        if !request.service_kind.same(&self.service_kind) {
            return Err(PlacementError::NoRoute);
        }
        let key = request.cache_key();
        match self.cache.get_at(&key, now) {
            CacheLookup::Fresh(target) => {
                return Ok(ResolveStep::Known(target));
            },
            CacheLookup::Stale(target) => {
                return Ok(ResolveStep::Known(target));
            },
            CacheLookup::Miss => {},
        }
        self.placement_lookups = self.placement_lookups.wrapping_add(1);
        Ok(
            ResolveStep::ReadActor(
                ActorPlacementKey {
                    service_kind: self.service_kind.copy(),
                    actor_kind: request.actor_kind.copy(),
                    actor_id: actor_id_from_route_key(request.route_key.copy()),
                },
            ),
        )
    }

    /// Whether an instance takes requests for an actor.
    fn is_served_by(&self, record: &ActorPlacementRecord, instance: &InstanceRecord) -> (served:
        bool)
        ensures
            served == serves(self@.service_kind, record@, instance@),
    {
        instance.service_kind.same(&self.service_kind) && instance.state == InstanceState::Ready
            && instance.lease_id == record.lease_id
    }

    fn target_of(&self, record: &ActorPlacementRecord, instance: &InstanceRecord) -> (target:
        RouteTarget)
        ensures
            target@ == target_on(self@.service_kind, record@, instance@),
    {
        RouteTarget {
            service_kind: self.service_kind.copy(),
            instance_id: instance.instance_id.copy(),
            advertised_endpoint: instance.advertised_endpoint.copy(),
            owner_epoch: Some(record.epoch),
        }
    }

    /// Whether the actor that was read is the one that was asked for, and runs. Only then is its
    /// owner read.
    pub fn accepts(&self, request: &ResolveRequest, record: &ActorPlacementRecord) -> (accepted:
        bool)
        ensures
            accepted == is_running_as_asked(self@.placement_key(request@), record@),
    {
        let actor_id = actor_id_from_route_key(request.route_key.copy());
        record.service_kind.same(&self.service_kind) && record.actor_kind.same(&request.actor_kind)
            && record.actor_id.same(&actor_id) && record.state == PlacementState::Running
    }

    /// Ends a resolution with the actor and its owner, as they were read.
    pub fn finish_resolve(
        &mut self,
        request: &ResolveRequest,
        record: &ActorPlacementRecord,
        instance: &Option<InstanceRecord>,
        now: u128,
    ) -> (result: Result<RouteTarget, PlacementError>)
        ensures
            (final(self)@, resolution(result)) == old(self)@.finish(
                request@,
                record@,
                option_view(*instance),
                now,
            ),
    {
        if !self.accepts(request, record) {
            return Err(PlacementError::NoRoute);
        }
        let instance = match instance {
            Some(instance) => instance,
            None => {
                return Err(PlacementError::InstanceNotFound { instance_id: record.owner.copy() });
            },
        };
        if !self.is_served_by(record, instance) {
            return Err(PlacementError::NoRoute);
        }
        let target = self.target_of(record, instance);
        self.cache.insert_at(request.cache_key(), target.copy(), now);
        Ok(target)
    }

    fn key_to(&self, record: &ActorPlacementRecord) -> (key: RouteCacheKey)
        ensures
            key@ == self@.route_to(record@),
    {
        RouteCacheKey::new(
            self.service_kind.copy(),
            record.actor_kind.copy(),
            route_key_from_actor_id(&record.actor_id),
        )
    }

    /// Takes a reported change in, and says whose owner is to be read for it.
    pub fn observe(&mut self, event: &RouteWatchEvent) -> (owner: Option<InstanceId>)
        ensures
            (final(self)@, option_view(owner)) == old(self)@.observe(event@),
    {
        match event {
            RouteWatchEvent::InstanceUpdated(record) => {
                if record.service_kind.same(&self.service_kind) {
                    self.cache.invalidate_instance(&record.instance_id);
                }
                None
            },
            RouteWatchEvent::ActorUpdated(record) => {
                if !record.service_kind.same(&self.service_kind) {
                    return None;
                }
                if record.state != PlacementState::Running {
                    let key = self.key_to(record);
                    self.cache.invalidate(&key);
                    return None;
                }
                Some(record.owner.copy())
            },
            RouteWatchEvent::Other => None,
        }
    }

    /// Brings the route to a changed actor up to date with its owner, if it could be read.
    pub fn refresh_route(
        &mut self,
        record: &ActorPlacementRecord,
        instance: &Option<InstanceRecord>,
        now: u128,
    )
        ensures
            final(self)@ == old(self)@.refresh(record@, option_view(*instance), now),
    {
        let key = self.key_to(record);
        match instance {
            Some(instance) => {
                if self.is_served_by(record, instance) {
                    let target = self.target_of(record, instance);
                    self.cache.insert_at(key, target, now);
                } else {
                    self.cache.invalidate(&key);
                }
            },
            None => {
                self.cache.invalidate(&key);
            },
        }
    }

    /// Drops a remembered route, whatever the reason.
    pub fn invalidate(&mut self, key: &RouteCacheKey, _reason: InvalidateReason)
        ensures
            final(self)@ == (ExplicitModel {
                cache: old(self)@.cache.invalidated(key@),
                ..old(self)@
            }),
    {
        self.cache.invalidate(key);
    }
}

/// A change of an actor that no longer runs drops its route, so that the next request reads the
/// placement again.
pub proof fn law_stopped_actors_are_read_again(
    resolver: ExplicitModel,
    record: ActorRecordModel,
    now: u128,
)
    requires
        record.service_kind == resolver.service_kind,
        record.state != PlacementState::Running,
    ensures
        ({
            let request = ResolveRequest {
                service_kind: record.service_kind,
                actor_kind: record.actor_kind,
                route_key: key_of(record.actor_id),
            };
            let after = resolver.observe(WatchEventModel::ActorUpdated(record)).0;
            after.begin(request, now).1 == Ok::<ResolveStepModel, PlacementErrorModel>(
                ResolveStep::ReadActor(
                    ActorPlacementKey {
                        service_kind: record.service_kind,
                        actor_kind: record.actor_kind,
                        actor_id: record.actor_id,
                    },
                ),
            )
        }),
{
}

/// No route to an instance outlives a change of that instance.
pub proof fn law_changed_instances_have_no_routes(
    resolver: ExplicitModel,
    instance: InstanceModel,
    key: CacheKeyModel,
)
    requires
        instance.service_kind == resolver.service_kind,
    ensures
        ({
            let after = resolver.observe(WatchEventModel::InstanceUpdated(instance)).0;
            after.cache.entries.contains_key(key) ==> after.cache.entries[key].target.instance_id
                != instance.instance_id
        }),
{
}

/// Whatever is resolved leads to a ready instance that holds the lease under which the actor was
/// placed, under the epoch of the placement.
pub proof fn law_resolved_owners_hold_the_lease(
    resolver: ExplicitModel,
    request: RequestModel,
    record: ActorRecordModel,
    instance: Option<InstanceModel>,
    now: u128,
)
    ensures
        resolver.finish(request, record, instance, now).1 matches Ok(target) ==> {
            &&& instance is Some
            &&& instance->0.state == InstanceState::Ready
            &&& instance->0.lease_id == record.lease_id
            &&& target.instance_id == instance->0.instance_id
            &&& target.owner_epoch == Some(record.epoch)
            &&& record.state == PlacementState::Running
        },
{
}

} // verus!
