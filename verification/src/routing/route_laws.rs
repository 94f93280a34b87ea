//! What a resolution answers, and what the changes that are taken in do to it.
use vstd::prelude::*;

use crate::ownership::gate_laws::names;
use crate::records::{InstanceState, PlacementState, RouteKey, VirtualShardId};
use crate::routing::cache::{CacheLookup, CacheModel, EntryModel, LookupModel};
use crate::routing::placement::{
    ActorRecordModel, ExplicitModel, InstanceModel, ResolveStep, ResolveStepModel, WatchEventModel,
};
use crate::routing::rpc::{
    after_call, ActorRefModel, ActorRefTarget, CallOutcome, CallStep, MismatchModel, RoutedCall,
};
use crate::routing::static_resolver::{configured, first_range, RangeModel, StaticModel};
use crate::routing::table::{by_shard, AssignmentModel, TableModel};
use crate::routing::{
    CacheKeyModel, InvalidateReason, PlacementErrorModel, RequestModel, RouteCacheKey, RouteTarget, RouteTargetModel,
};

verus! {

/// A remembered route is fresh, then stale, by the time since it was inserted; once it is too old to
/// be used it is dropped, and nothing else is.
pub proof fn law_routes_age(cache: CacheModel, key: CacheKeyModel, now: u128)
    ensures
        ({
            let (after, found) = cache.looked_up(key, now);
            let known = cache.entries.contains_key(key);
            let entry = cache.entries[key];
            let soft = entry.inserted_at + cache.config.soft_ttl.length();
            let hard = entry.inserted_at + cache.config.hard_ttl.length();
            let time = if now < entry.inserted_at {
                entry.inserted_at
            } else {
                now
            };
            &&& known && time < soft ==> found == LookupModel::Fresh(entry.target)
            &&& known && soft <= time < hard ==> found == LookupModel::Stale(entry.target)
            &&& !known || (soft <= time && hard <= time) ==> found == LookupModel::Miss
            &&& forall|other: CacheKeyModel| #[trigger]
                after.entries.contains_key(other) <==> cache.entries.contains_key(other) && (other
                    != key || found !is Miss)
            &&& forall|other: CacheKeyModel| #[trigger]
                after.entries.contains_key(other) ==> after.entries[other] == cache.entries[other]
            &&& after.config == cache.config
        }),
{
}

/// An inserted route replaces that of its key, and a dropped one is gone; the routes to an instance
/// are dropped together. No other route changes.
pub proof fn law_other_routes_stay(
    cache: CacheModel,
    key: CacheKeyModel,
    target: RouteTargetModel,
    now: u128,
    instance_id: Seq<char>,
    other: CacheKeyModel,
)
    ensures
        ({
            let after = cache.inserted(key, target, now);
            &&& after.config == cache.config
            &&& after.entries.contains_key(other) <==> other == key || cache.entries.contains_key(
                other,
            )
            &&& after.entries[key].target == target && after.entries[key].inserted_at == now
            &&& other != key ==> after.entries[other] == cache.entries[other]
        }),
        ({
            let after = cache.invalidated(key);
            &&& after.config == cache.config
            &&& after.entries.contains_key(other) <==> other != key && cache.entries.contains_key(
                other,
            )
            &&& other != key ==> after.entries[other] == cache.entries[other]
        }),
        ({
            let after = cache.without_instance(instance_id);
            &&& after.config == cache.config
            &&& after.entries.contains_key(other) <==> cache.entries.contains_key(other)
                && cache.entries[other].target.instance_id != instance_id
            &&& after.entries.contains_key(other) ==> after.entries[other] == cache.entries[other]
        }),
{
}

/// Whether a request is for the actor of a record.
pub open spec fn is_for(request: RequestModel, record: ActorRecordModel) -> bool {
    request.actor_kind == record.actor_kind && names(request.route_key, record.actor_id)
}

/// Whether the owner of an actor takes requests for it: it is of the service, ready, and under the
/// lease under which the actor was placed.
pub open spec fn takes_requests(
    resolver: ExplicitModel,
    record: ActorRecordModel,
    owner: InstanceModel,
) -> bool {
    &&& owner.service_kind == resolver.service_kind
    &&& owner.state == InstanceState::Ready
    &&& owner.lease_id == record.lease_id
}

/// Whether a route leads to an instance, at the epoch of a record.
pub open spec fn leads_to(
    target: RouteTargetModel,
    resolver: ExplicitModel,
    record: ActorRecordModel,
    owner: InstanceModel,
) -> bool {
    &&& target.service_kind == resolver.service_kind
    &&& target.instance_id == owner.instance_id
    &&& target.advertised_endpoint == owner.advertised_endpoint
    &&& target.owner_epoch == Some(record.epoch)
}

/// A resolution of another service has no route. What is remembered and not too old answers it;
/// otherwise the placement of the very actor that the request names is read, which is counted.
pub proof fn law_resolutions_begin_with_what_is_remembered(
    resolver: ExplicitModel,
    request: RequestModel,
    now: u128,
)
    ensures
        ({
            let key = RouteCacheKey {
                service_kind: request.service_kind,
                actor_kind: request.actor_kind,
                route_key: request.route_key,
            };
            let entry = resolver.cache.entries[key];
            let (after, step) = resolver.begin(request, now);
            let time = if now < entry.inserted_at {
                entry.inserted_at
            } else {
                now
            };
            let usable = resolver.cache.entries.contains_key(key) && (time < entry.inserted_at
                + resolver.cache.config.soft_ttl.length() || time < entry.inserted_at
                + resolver.cache.config.hard_ttl.length());
            &&& step is Err <==> request.service_kind != resolver.service_kind
            &&& step is Err ==> step == Err::<ResolveStepModel, _>(PlacementErrorModel::NoRoute)
                && after == resolver
            &&& step is Ok && usable ==> step == Ok::<_, PlacementErrorModel>(
                ResolveStepModel::Known(entry.target),
            ) && after == resolver
            &&& step matches Ok(ResolveStep::Known(target)) ==> {
                &&& resolver.cache.entries.contains_key(key)
                &&& target == entry.target
            }
            &&& step matches Ok(ResolveStep::ReadActor(asked)) ==> {
                &&& !usable
                &&& asked.service_kind == resolver.service_kind
                &&& asked.actor_kind == request.actor_kind
                &&& names(request.route_key, asked.actor_id)
                &&& resolver.placement_lookups < u64::MAX ==> after.placement_lookups
                    == resolver.placement_lookups + 1
                &&& resolver.placement_lookups == u64::MAX ==> after.placement_lookups == 0
                &&& !after.cache.entries.contains_key(key)
            }
            &&& after.service_kind == resolver.service_kind
            &&& after.cache.config == resolver.cache.config
            &&& forall|other: CacheKeyModel|
                other != key && #[trigger] resolver.cache.entries.contains_key(other)
                    ==> after.cache.entries.contains_key(other) && after.cache.entries[other]
                    == resolver.cache.entries[other]
        }),
{
}

/// Once a running actor's change is taken in with its owner, resolving that actor at the same
/// instant gives the owner's instance, its endpoint and exactly the epoch of the record, if the
/// owner is of the service, ready and under the lease of the record. Otherwise no route to the actor
/// is remembered, so that its placement is read again.
pub proof fn law_a_changed_actor_is_found_on_its_owner(
    resolver: ExplicitModel,
    record: ActorRecordModel,
    owner: Option<InstanceModel>,
    request: RequestModel,
    now: u128,
)
    requires
        request.service_kind == resolver.service_kind,
        is_for(request, record),
        resolver.cache.config.hard_ttl.length() > 0,
    ensures
        ({
            let after = resolver.refresh(record, owner, now);
            let (_, step) = after.begin(request, now);
            &&& owner is Some && takes_requests(resolver, record, owner->0) ==> {
                &&& step matches Ok(ResolveStep::Known(target))
                &&& leads_to(target, resolver, record, owner->0)
            }
            &&& owner is None || !takes_requests(resolver, record, owner->0) ==> {
                &&& step matches Ok(ResolveStep::ReadActor(asked))
                &&& asked.service_kind == resolver.service_kind
                &&& asked.actor_kind == record.actor_kind
                &&& asked.actor_id == record.actor_id
            }
        }),
{
}

/// The change of one actor is seen in no resolution of another, nor in the count of lookups.
pub proof fn law_a_changed_actor_leaves_the_others(
    resolver: ExplicitModel,
    record: ActorRecordModel,
    owner: Option<InstanceModel>,
    request: RequestModel,
    now: u128,
)
    requires
        !is_for(request, record),
    ensures
        ({
            let after = resolver.refresh(record, owner, now);
            &&& after.begin(request, now).1 == resolver.begin(request, now).1
            &&& after.placement_lookups == resolver.placement_lookups
            &&& after.service_kind == resolver.service_kind
            &&& after.cache.config == resolver.cache.config
        }),
{
}

/// A resolution ends with a route exactly when the record that was read is of the actor that was
/// asked for, the actor runs, and its owner was found and takes requests. Resolving again at the
/// same instant then gives the same route. Without a route nothing is remembered.
pub proof fn law_resolutions_end_on_the_owner(
    resolver: ExplicitModel,
    request: RequestModel,
    record: ActorRecordModel,
    owner: Option<InstanceModel>,
    now: u128,
)
    requires
        request.service_kind == resolver.service_kind,
        resolver.cache.config.hard_ttl.length() > 0,
    ensures
        ({
            let (after, result) = resolver.finish(request, record, owner, now);
            let asked = record.service_kind == resolver.service_kind && is_for(request, record)
                && record.state == PlacementState::Running;
            &&& result is Ok <==> asked && owner is Some && takes_requests(
                resolver,
                record,
                owner->0,
            )
            &&& result matches Ok(target) ==> {
                &&& leads_to(target, resolver, record, owner->0)
                &&& after.begin(request, now).1 == Ok::<_, PlacementErrorModel>(
                    ResolveStepModel::Known(target),
                )
            }
            &&& result is Err ==> after == resolver
            &&& result == Err::<RouteTargetModel, _>(
                PlacementErrorModel::InstanceNotFound { instance_id: record.owner },
            ) <==> asked && owner is None
            &&& result is Err && !(asked && owner is None) ==> result == Err::<
                RouteTargetModel,
                _,
            >(PlacementErrorModel::NoRoute)
        }),
{
}

/// A change of an instance of the service drops the routes to it; a running actor of the service has
/// its owner read; one that does not run has its route dropped. Other changes do nothing.
pub proof fn law_changes_concern_the_service(
    resolver: ExplicitModel,
    event: WatchEventModel,
    key: CacheKeyModel,
)
    ensures
        ({
            let (after, read) = resolver.observe(event);
            &&& read is Some <==> {
                &&& event matches WatchEventModel::ActorUpdated(record)
                &&& record.service_kind == resolver.service_kind
                &&& record.state == PlacementState::Running
            }
            &&& read is Some ==> read == Some(event->ActorUpdated_0.owner) && after == resolver
            &&& after.cache.entries.contains_key(key) <==> {
                &&& resolver.cache.entries.contains_key(key)
                &&& event matches WatchEventModel::InstanceUpdated(instance)
                    ==> instance.service_kind != resolver.service_kind || instance.instance_id
                    != resolver.cache.entries[key].target.instance_id
                &&& event matches WatchEventModel::ActorUpdated(record) ==> record.service_kind
                    != resolver.service_kind || record.state == PlacementState::Running
                    || key.service_kind != resolver.service_kind || key.actor_kind
                    != record.actor_kind || !names(key.route_key, record.actor_id)
            }
            &&& after.cache.entries.contains_key(key) ==> after.cache.entries[key]
                == resolver.cache.entries[key]
            &&& after.cache.config == resolver.cache.config
            &&& after.service_kind == resolver.service_kind
            &&& after.placement_lookups == resolver.placement_lookups
        }),
{
}

/// Whether a range is of a service and an actor kind, and a number falls in it.
pub open spec fn falls_in(
    range: RangeModel,
    service_kind: Seq<char>,
    actor_kind: Seq<char>,
    value: u64,
) -> bool {
    &&& range.service_kind == service_kind
    &&& range.actor_kind == actor_kind
    &&& range.start_inclusive <= value
    &&& value < range.end_exclusive
}

proof fn lemma_first_range(
    ranges: Seq<RangeModel>,
    at: nat,
    service_kind: Seq<char>,
    actor_kind: Seq<char>,
    value: u64,
) -> (i: int)
    requires
        at <= ranges.len(),
    ensures
        at <= i <= ranges.len(),
        forall|j: int|
            at <= j < i ==> !falls_in(#[trigger] ranges[j], service_kind, actor_kind, value),
        i < ranges.len() ==> falls_in(ranges[i], service_kind, actor_kind, value) && first_range(
            ranges,
            at,
            service_kind,
            actor_kind,
            value,
        ) == Some(ranges[i]),
        i == ranges.len() ==> first_range(ranges, at, service_kind, actor_kind, value) is None,
    decreases ranges.len() - at,
{
    if at < ranges.len() && !falls_in(ranges[at as int], service_kind, actor_kind, value) {
        lemma_first_range(ranges, at + 1, service_kind, actor_kind, value)
    } else {
        at as int
    }
}

/// A number is sent where the first range leads that it falls in, if there is one; other route keys
/// are not supported.
pub proof fn law_numbers_are_sent_by_their_range(
    ranges: Seq<RangeModel>,
    request: RequestModel,
) -> (i: int)
    ensures
        !(request.route_key is U64) ==> configured(ranges, request) == Err::<RouteTargetModel, _>(
            PlacementErrorModel::UnsupportedRouteKey,
        ),
        request.route_key matches RouteKey::U64(value) ==> {
            &&& 0 <= i <= ranges.len()
            &&& forall|j: int|
                0 <= j < i ==> !falls_in(
                    #[trigger] ranges[j],
                    request.service_kind,
                    request.actor_kind,
                    value,
                )
            &&& i < ranges.len() ==> falls_in(
                ranges[i],
                request.service_kind,
                request.actor_kind,
                value,
            ) && configured(ranges, request) == Ok::<_, PlacementErrorModel>(ranges[i].target)
            &&& i == ranges.len() ==> configured(ranges, request) == Err::<RouteTargetModel, _>(
                PlacementErrorModel::NoRoute,
            )
        },
{
    match request.route_key {
        RouteKey::U64(value) => lemma_first_range(
            ranges,
            0,
            request.service_kind,
            request.actor_kind,
            value,
        ),
        _ => 0,
    }
}

/// A configured route is resolved from what is remembered and not too old, or else from the ranges, as
/// of then remembered and counted.
pub proof fn law_configured_routes_are_remembered(
    resolver: StaticModel,
    request: RequestModel,
    now: u128,
    filled: u128,
)
    ensures
        ({
            let key = RouteCacheKey {
                service_kind: request.service_kind,
                actor_kind: request.actor_kind,
                route_key: request.route_key,
            };
            let entry = resolver.cache.entries[key];
            let time = if now < entry.inserted_at {
                entry.inserted_at
            } else {
                now
            };
            let usable = resolver.cache.entries.contains_key(key) && (time < entry.inserted_at
                + resolver.cache.config.soft_ttl.length() || time < entry.inserted_at
                + resolver.cache.config.hard_ttl.length());
            let (after, result) = resolver.resolve(request, now, filled);
            &&& usable ==> result == Ok::<_, PlacementErrorModel>(entry.target) && after == resolver
            &&& !usable ==> {
                &&& result == configured(resolver.ranges, request)
                &&& resolver.placement_lookups < u64::MAX ==> after.placement_lookups
                    == resolver.placement_lookups + 1
                &&& resolver.placement_lookups == u64::MAX ==> after.placement_lookups == 0
                &&& result matches Ok(target) ==> after.cache.entries.contains_key(key)
                    && after.cache.entries[key].target == target
                    && after.cache.entries[key].inserted_at == filled
                &&& result is Err ==> !after.cache.entries.contains_key(key)
            }
            &&& after.ranges == resolver.ranges
            &&& forall|other: CacheKeyModel|
                other != key ==> (#[trigger] after.cache.entries.contains_key(other)
                    <==> resolver.cache.entries.contains_key(other))
                    && after.cache.entries[other] == resolver.cache.entries[other]
        }),
{
}

proof fn lemma_by_shard(assignments: Seq<AssignmentModel>, count: nat)
    requires
        count <= assignments.len(),
    ensures
        forall|i: int|
            0 <= i < count ==> by_shard(assignments, count).contains_key(
                (#[trigger] assignments[i]).shard_id,
            ),
        forall|shard_id: VirtualShardId| #[trigger]
            by_shard(assignments, count).contains_key(shard_id) ==> by_shard(
                assignments,
                count,
            )[shard_id].shard_id == shard_id && is_last_of(
                assignments,
                count as int,
                by_shard(assignments, count)[shard_id],
            ),
    decreases count,
{
    if count > 0 {
        lemma_by_shard(assignments, (count - 1) as nat);
        let before = by_shard(assignments, (count - 1) as nat);
        let after = by_shard(assignments, count);
        let last = assignments[count - 1];
        assert(is_last_at(assignments, count as int, count - 1));
        assert forall|shard_id: VirtualShardId| #[trigger]
            after.contains_key(shard_id) implies after[shard_id].shard_id == shard_id && is_last_of(
            assignments,
            count as int,
            after[shard_id],
        ) by {
            if shard_id != last.shard_id {
                assert(before.contains_key(shard_id));
                let i = choose|i: int|
                    #[trigger] is_last_at(assignments, count - 1, i) && assignments[i]
                        == before[shard_id];
                assert(is_last_at(assignments, count as int, i));
            }
        }
    }
}

/// Whether the assignment at a place is the last one of its shard among the first `n`.
pub open spec fn is_last_at(assignments: Seq<AssignmentModel>, n: int, i: int) -> bool {
    &&& 0 <= i < n
    &&& forall|j: int|
        i < j < n ==> (#[trigger] assignments[j]).shard_id != assignments[i].shard_id
}

/// Whether an assignment is the last one of its shard among the first `n`.
pub open spec fn is_last_of(
    assignments: Seq<AssignmentModel>,
    n: int,
    assignment: AssignmentModel,
) -> bool {
    exists|i: int| #[trigger] is_last_at(assignments, n, i) && assignments[i] == assignment
}

/// Of several assignments of a shard the last one counts, and every shard that is assigned has one.
pub proof fn law_the_last_assignment_counts(
    assignments: Seq<AssignmentModel>,
    i: int,
    shard_id: VirtualShardId,
)
    ensures
        0 <= i < assignments.len() ==> by_shard(assignments, assignments.len()).contains_key(
            assignments[i].shard_id,
        ),
        by_shard(assignments, assignments.len()).contains_key(shard_id) ==> by_shard(
            assignments,
            assignments.len(),
        )[shard_id].shard_id == shard_id && is_last_of(
            assignments,
            assignments.len() as int,
            by_shard(assignments, assignments.len())[shard_id],
        ),
{
    lemma_by_shard(assignments, assignments.len());
}

/// A route key leads to the owner of the shard that it is on, if the shard is assigned, the owner is
/// known and it is ready: to its endpoint, at the epoch of the assignment. What is missing is told.
pub proof fn law_shards_lead_to_their_owner(
    table: TableModel,
    route_key: RouteKey<Seq<char>, Seq<u8>>,
)
    ensures
        ({
            let shard_id = table.mapper.shard_of(route_key);
            let assignment = table.assignments[shard_id];
            let owner = table.instances[assignment.owner];
            let assigned = table.assignments.contains_key(shard_id);
            let known = table.instances.contains_key(assignment.owner);
            let result = table.resolve(route_key);
            &&& result is Ok <==> assigned && known && owner.state == InstanceState::Ready
            &&& result matches Ok(target) ==> {
                &&& target.service_kind == table.service_kind
                &&& target.instance_id == owner.instance_id
                &&& target.advertised_endpoint == owner.advertised_endpoint
                &&& target.owner_epoch == Some(assignment.epoch)
            }
            &&& !assigned ==> result == Err::<RouteTargetModel, _>(PlacementErrorModel::NoRoute)
            &&& assigned && !known ==> result == Err::<RouteTargetModel, _>(
                PlacementErrorModel::InstanceNotFound { instance_id: assignment.owner },
            )
            &&& assigned && known && owner.state != InstanceState::Ready ==> result == Err::<
                RouteTargetModel,
                _,
            >(
                PlacementErrorModel::InstanceNotReady {
                    instance_id: owner.instance_id,
                    state: owner.state,
                },
            )
        }),
{
}

/// A call is tried again exactly when it was not before and the instance does not own the actor or was
/// fenced; the route is then dropped for that very reason.
pub proof fn law_calls_are_tried_again_elsewhere(call: RoutedCall, outcome: CallOutcome)
    ensures
        ({
            let (after, step) = after_call(call, outcome);
            &&& step is Retry <==> !call.retried && (outcome is NotOwner || outcome is Fenced)
            &&& step is Retry && outcome is NotOwner ==> step == CallStep::Retry(
                InvalidateReason::NotOwner,
            )
            &&& step is Retry && outcome is Fenced ==> step == CallStep::Retry(
                InvalidateReason::Fenced,
            )
            &&& !(step is Retry) ==> step is Finish
            &&& after.retried <==> call.retried || step is Retry
        }),
{
}

/// A request fits a reference exactly when it is for its kind and names its actor; what does not fit is
/// told. A direct reference gives the route as it stands, any other asks for the route of its actor.
pub proof fn law_references_name_their_actor(
    reference: ActorRefModel,
    actor_kind: Seq<char>,
    route_key: RouteKey<Seq<char>, Seq<u8>>,
)
    ensures
        ({
            let mismatch = reference.mismatch(actor_kind, route_key);
            &&& mismatch is None <==> actor_kind == reference.actor_kind && names(
                route_key,
                reference.actor_id,
            )
            &&& actor_kind != reference.actor_kind ==> mismatch == Some(
                MismatchModel::Kind { expected: reference.actor_kind, requested: actor_kind },
            )
            &&& actor_kind == reference.actor_kind && mismatch is Some ==> mismatch == Some(
                MismatchModel::Id { actor_id: reference.actor_id, route_key },
            )
        }),
        reference.direct() is Some <==> reference.target is Direct,
        reference.target matches ActorRefTarget::Direct { instance_id, endpoint, owner_epoch } ==> {
            &&& reference.direct()->0.service_kind == reference.service_kind
            &&& reference.direct()->0.instance_id == instance_id
            &&& reference.direct()->0.advertised_endpoint == endpoint
            &&& reference.direct()->0.owner_epoch == owner_epoch
        },
        reference.request().service_kind == reference.service_kind,
        reference.request().actor_kind == reference.actor_kind,
        names(reference.request().route_key, reference.actor_id),
{
}

} // verus!
