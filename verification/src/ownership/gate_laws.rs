//! Which requests are granted, which are refused, and why.
use vstd::prelude::*;

use crate::epoch_floor::{KeyModel, RecordModel};
use crate::hashing::xxh3_64;
use crate::ownership::gate::{
    actor_of, GrantModel, OwnershipPlacement, OwnershipRejectionKind, OwnershipRejectionReason,
    RejectionModel, RequestModel,
};
use crate::ownership::{SnapshotAvailability, SnapshotModel, StoreObservation};
use crate::records::{
    ActorId, Epoch, InstanceState, LeaseId, OwnershipKey, OwnershipRecordBinding, PlacementState,
    RouteKey,
};
use crate::sharding::route_key_bytes;

verus! {

/// Whether a route key names an actor: both are of one kind, and hold the same value.
pub open spec fn names(
    route_key: RouteKey<Seq<char>, Seq<u8>>,
    actor_id: ActorId<Seq<char>, Seq<u8>>,
) -> bool {
    match (route_key, actor_id) {
        (RouteKey::Str(one), ActorId::Str(other)) => one == other,
        (RouteKey::U64(one), ActorId::U64(other)) => one == other,
        (RouteKey::I64(one), ActorId::I64(other)) => one == other,
        (RouteKey::Bytes(one), ActorId::Bytes(other)) => one == other,
        _ => false,
    }
}

/// Whether a request is for the placement under a key: for the actor that the route key names, for
/// the shard that its hash falls on, or for the singleton whose scope it is.
pub open spec fn asks_for(request: RequestModel, key: KeyModel) -> bool {
    match (request.placement, key) {
        (OwnershipPlacement::Explicit, OwnershipKey::Explicit(actor)) => {
            &&& actor.service_kind == request.expected_service
            &&& actor.actor_kind == request.expected_actor_kind
            &&& names(request.route_key, actor.actor_id)
        },
        (OwnershipPlacement::VirtualShard { mapper }, OwnershipKey::VirtualShard(shard)) => {
            &&& shard.service_kind == request.expected_service
            &&& shard.actor_kind == request.expected_actor_kind
            &&& shard.shard_id.0 == xxh3_64(
                route_key_bytes(request.route_key),
                0x4c41_5454_4943_4531,
            ) as int % mapper.count() as int
        },
        (OwnershipPlacement::Singleton, OwnershipKey::Singleton(singleton)) => {
            &&& singleton.service_kind == request.expected_service
            &&& singleton.singleton_kind == request.expected_actor_kind
            &&& request.route_key == RouteKey::<Seq<char>, Seq<u8>>::Str(singleton.scope)
        },
        _ => false,
    }
}

/// Whether the shards of a request are numbered from a count that is not zero.
pub open spec fn is_counted(request: RequestModel) -> bool {
    request.placement matches OwnershipPlacement::VirtualShard { mapper } ==> mapper.count() > 0
}

/// Whether a request is meant for the service and for the kind of actor that its route has.
pub open spec fn is_addressed_here(snapshot: SnapshotModel, request: RequestModel) -> bool {
    request.expected_service == snapshot.service_kind && request.route_actor_kind
        == request.expected_actor_kind
}

/// Whether this instance may answer at all: what it knows is current, and it is ready under a live
/// lease.
pub open spec fn is_live(snapshot: SnapshotModel) -> bool {
    &&& snapshot.state.availability == SnapshotAvailability::Ready
    &&& snapshot.state.instance is Some
    &&& snapshot.state.instance->0.state == InstanceState::Ready
    &&& snapshot.state.valid_owner_leases.contains(snapshot.state.instance->0.lease_id)
}

/// Whether a record states that this very instance runs the placement at an epoch, under a live
/// lease.
pub open spec fn runs_here(snapshot: SnapshotModel, record: RecordModel, epoch: Epoch) -> bool {
    match record {
        OwnershipRecordBinding::Actor(actor) => {
            &&& actor.owner == snapshot.instance_id
            &&& actor.state == PlacementState::Running
            &&& snapshot.state.valid_owner_leases.contains(actor.lease_id)
            &&& actor.epoch == epoch
        },
        OwnershipRecordBinding::VirtualShard(shard) => {
            &&& shard.owner == snapshot.instance_id
            &&& shard.epoch == epoch
        },
        OwnershipRecordBinding::Singleton(singleton) => {
            &&& singleton.owner == snapshot.instance_id
            &&& singleton.owner_incarnation == snapshot.incarnation
            &&& singleton.state == PlacementState::Running
            &&& snapshot.state.valid_owner_leases.contains(singleton.lease_id)
            &&& singleton.epoch == epoch
        },
    }
}

/// The lease under which a record is held: its own, or for a shard that of the instance.
pub open spec fn lease_under(snapshot: SnapshotModel, record: RecordModel) -> LeaseId {
    match record {
        OwnershipRecordBinding::Actor(actor) => actor.lease_id,
        OwnershipRecordBinding::VirtualShard(_) => snapshot.state.instance->0.lease_id,
        OwnershipRecordBinding::Singleton(singleton) => singleton.lease_id,
    }
}

/// A route key names one actor, of its kind and with its value, and different route keys name
/// different actors.
pub proof fn law_route_keys_name_actors(
    key: RouteKey<Seq<char>, Seq<u8>>,
    other: RouteKey<Seq<char>, Seq<u8>>,
)
    ensures
        names(key, actor_of(key)),
        actor_of(key) == actor_of(other) <==> key == other,
        forall|actor_id: ActorId<Seq<char>, Seq<u8>>| #[trigger]
            names(key, actor_id) ==> actor_id == actor_of(key),
{
}

/// A request is decided under the one key that it asks for. Requests for explicitly placed actors
/// that differ in the route key are decided under different keys, and only a singleton without a
/// text scope has none.
pub proof fn law_requests_have_one_key(request: RequestModel, key: KeyModel, other: RequestModel)
    requires
        is_counted(request),
    ensures
        request.target() == Some(key) <==> asks_for(request, key),
        request.target() is None <==> request.placement is Singleton && request.route_key !is Str,
        request.placement is Explicit && other.placement is Explicit && request.target()
            == other.target() ==> request.route_key == other.route_key && request.expected_service
            == other.expected_service && request.expected_actor_kind == other.expected_actor_kind,
{
    if request.placement is Explicit && other.placement is Explicit {
        law_route_keys_name_actors(request.route_key, other.route_key);
    }
    if request.placement is Explicit && key is Explicit {
        let id = key->Explicit_0.actor_id;
        if names(request.route_key, id) {
            assert(id == actor_of(request.route_key));
        }
    }
}

/// A request is granted exactly when it is meant for this service and kind, this instance is live,
/// and it runs what the request asks for at the epoch under which the request was routed. The grant
/// is for that placement, at that epoch, under the lease of the placement and good for this
/// generation.
pub proof fn law_requests_are_granted_for_what_runs_here(
    snapshot: SnapshotModel,
    request: RequestModel,
    key: KeyModel,
)
    requires
        is_counted(request),
        asks_for(request, key),
    ensures
        snapshot.decision(request) is Ok <==> {
            &&& is_addressed_here(snapshot, request)
            &&& is_live(snapshot)
            &&& snapshot.state.placements.contains_key(key)
            &&& snapshot.state.placements[key].observation matches StoreObservation::PresentLocal(
                record,
            )
            &&& request.route_epoch matches Some(epoch)
            &&& runs_here(snapshot, record, epoch)
        },
        snapshot.decision(request) matches Ok(grant) ==> {
            &&& grant.key == key
            &&& request.route_epoch == Some(grant.epoch)
            &&& grant.generation == snapshot.state.generation
            &&& snapshot.state.placements[key].observation matches StoreObservation::PresentLocal(
                record,
            )
            &&& grant.lease_id == lease_under(snapshot, record)
        },
{
    law_requests_have_one_key(request, key, request);
}

/// A request for an actor that this instance owns, running, under live leases and at the epoch of
/// the request, is granted.
pub proof fn law_owned_actors_are_served(
    snapshot: SnapshotModel,
    request: RequestModel,
    actor: crate::records::ActorPlacementRecord<Seq<char>, Seq<u8>>,
)
    requires
        request.placement is Explicit,
        is_addressed_here(snapshot, request),
        is_live(snapshot),
        actor.service_kind == request.expected_service,
        actor.actor_kind == request.expected_actor_kind,
        names(request.route_key, actor.actor_id),
        actor.owner == snapshot.instance_id,
        actor.state == PlacementState::Running,
        snapshot.state.valid_owner_leases.contains(actor.lease_id),
        request.route_epoch == Some(actor.epoch),
        ({
            let key = OwnershipKey::Explicit(
                crate::records::ActorPlacementKey {
                    service_kind: actor.service_kind,
                    actor_kind: actor.actor_kind,
                    actor_id: actor.actor_id,
                },
            );
            snapshot.state.placements.contains_key(key)
                && snapshot.state.placements[key].observation == StoreObservation::PresentLocal(
                OwnershipRecordBinding::Actor(actor),
            )
        }),
    ensures
        snapshot.decision(request) matches Ok(grant) && grant.epoch == actor.epoch
            && grant.lease_id == actor.lease_id && grant.generation == snapshot.state.generation,
{
    let key = OwnershipKey::Explicit(
        crate::records::ActorPlacementKey {
            service_kind: actor.service_kind,
            actor_kind: actor.actor_kind,
            actor_id: actor.actor_id,
        },
    );
    law_requests_are_granted_for_what_runs_here(snapshot, request, key);
}

/// Whether a refusal has a kind, and tells what is known of the placement.
pub open spec fn tells(
    rejection: RejectionModel,
    kind: OwnershipRejectionKind,
    key: Option<KeyModel>,
    epoch: Option<Epoch>,
    owner: Option<Seq<char>>,
) -> bool {
    rejection.kind == kind && rejection.key == key && rejection.current_epoch == epoch
        && rejection.current_owner == owner
}

/// A request that is not meant for this service or kind, or for a singleton without a text scope, is
/// refused with that very reason, and nothing is told of any placement.
pub proof fn law_misdirected_requests_are_refused(snapshot: SnapshotModel, request: RequestModel)
    ensures
        ({
            let wrong_service = request.expected_service != snapshot.service_kind;
            let wrong_kind = request.route_actor_kind != request.expected_actor_kind;
            let scopeless = request.placement is Singleton && request.route_key !is Str;
            let result = snapshot.decision(request);
            &&& wrong_service || wrong_kind || scopeless ==> {
                &&& result matches Err(rejection)
                &&& tells(rejection, OwnershipRejectionKind::NotOwner, None, None, None)
                &&& rejection.requested_epoch == request.route_epoch
                &&& wrong_service ==> rejection.reason == (
                OwnershipRejectionReason::ServiceMismatch {
                    local: snapshot.service_kind,
                    expected: request.expected_service,
                })
                &&& !wrong_service && wrong_kind ==> rejection.reason == (
                OwnershipRejectionReason::ActorKindMismatch {
                    expected: request.expected_actor_kind,
                    actual: request.route_actor_kind,
                })
                &&& !wrong_service && !wrong_kind ==> rejection.reason
                    is InvalidSingletonRoute
            }
            &&& result matches Err(rejection) ==> (rejection.reason is ServiceMismatch
                || rejection.reason is ActorKindMismatch || rejection.reason
                is InvalidSingletonRoute) ==> wrong_service || wrong_kind || scopeless
        }),
{
}

/// An instance that is not live refuses: for want of an epoch in the request, of current knowledge,
/// of its own record, of readiness or of a live lease, whichever is missing first.
pub proof fn law_an_instance_that_is_not_live_refuses(
    snapshot: SnapshotModel,
    request: RequestModel,
    key: KeyModel,
)
    requires
        is_counted(request),
        asks_for(request, key),
        is_addressed_here(snapshot, request),
    ensures
        ({
            let state = snapshot.state;
            let fenced = OwnershipRejectionKind::Fenced;
            request.route_epoch is None || !is_live(snapshot) ==> {
                &&& snapshot.decision(request) matches Err(rejection)
                &&& rejection.requested_epoch == request.route_epoch
                &&& if request.route_epoch is None {
                    rejection.reason is MissingEpoch && tells(
                        rejection,
                        fenced,
                        Some(key),
                        None,
                        None,
                    )
                } else if state.availability != SnapshotAvailability::Ready {
                    state.availability == SnapshotAvailability::Unavailable(
                        rejection.reason->reason,
                    ) && rejection.reason is SnapshotUnavailable && tells(
                        rejection,
                        fenced,
                        Some(key),
                        None,
                        None,
                    )
                } else if state.instance is None {
                    rejection.reason is LocalInstanceMissing && tells(
                        rejection,
                        fenced,
                        Some(key),
                        None,
                        None,
                    )
                } else if state.instance->0.state != InstanceState::Ready {
                    rejection.reason == (OwnershipRejectionReason::<Seq<char>>::InstanceNotReady {
                        state: state.instance->0.state,
                    }) && tells(rejection, fenced, Some(key), None, Some(snapshot.instance_id))
                } else {
                    rejection.reason == (
                    OwnershipRejectionReason::<Seq<char>>::InstanceLeaseInvalid {
                        lease_id: state.instance->0.lease_id,
                    }) && tells(rejection, fenced, Some(key), None, Some(snapshot.instance_id))
                }
            }
        }),
{
    law_requests_have_one_key(request, key, request);
}

/// A live instance that holds no record of its own under the key is not the owner, and says so.
pub proof fn law_what_is_not_placed_here_is_refused(
    snapshot: SnapshotModel,
    request: RequestModel,
    key: KeyModel,
)
    requires
        is_counted(request),
        asks_for(request, key),
        is_addressed_here(snapshot, request),
        is_live(snapshot),
        request.route_epoch is Some,
        !snapshot.state.placements.contains_key(key)
            || snapshot.state.placements[key].observation !is PresentLocal,
    ensures
        snapshot.decision(request) matches Err(rejection) && rejection.reason is PlacementMissing
            && rejection.requested_epoch == request.route_epoch && tells(
            rejection,
            OwnershipRejectionKind::NotOwner,
            Some(key),
            None,
            None,
        ),
{
    law_requests_have_one_key(request, key, request);
}

/// A live instance refuses an actor of its own that is another's, does not run, is under a lease
/// that lapsed or is at another epoch, and tells the owner and the epoch that it knows.
pub proof fn law_actors_that_do_not_run_here_are_refused(
    snapshot: SnapshotModel,
    request: RequestModel,
    key: KeyModel,
)
    requires
        is_counted(request),
        asks_for(request, key),
        is_addressed_here(snapshot, request),
        is_live(snapshot),
        request.route_epoch is Some,
        snapshot.state.placements.contains_key(key),
    ensures
        snapshot.state.placements[key].observation matches StoreObservation::PresentLocal(record)
            ==> {
            let (owner, epoch, lease_id, state) = match record {
                OwnershipRecordBinding::Actor(r) => (
                    r.owner,
                    r.epoch,
                    r.lease_id,
                    r.state,
                ),
                OwnershipRecordBinding::VirtualShard(r) => (
                    r.owner,
                    r.epoch,
                    snapshot.state.instance->0.lease_id,
                    PlacementState::Running,
                ),
                OwnershipRecordBinding::Singleton(r) => (r.owner, r.epoch, r.lease_id, r.state),
            };
            let reincarnated = record matches OwnershipRecordBinding::Singleton(r)
                && r.owner_incarnation != snapshot.incarnation;
            !runs_here(snapshot, record, request.route_epoch->0) ==> {
                &&& snapshot.decision(request) matches Err(rejection)
                &&& rejection.requested_epoch == request.route_epoch
                &&& tells(
                    rejection,
                    if owner != snapshot.instance_id {
                        OwnershipRejectionKind::NotOwner
                    } else {
                        OwnershipRejectionKind::Fenced
                    },
                    Some(key),
                    Some(epoch),
                    Some(owner),
                )
                &&& if owner != snapshot.instance_id {
                    rejection.reason is OwnerMismatch
                } else if reincarnated {
                    rejection.reason is OwnerIncarnationMismatch
                } else if state != PlacementState::Running {
                    rejection.reason
                        == (OwnershipRejectionReason::<Seq<char>>::PlacementNotRunning { state })
                } else if !snapshot.state.valid_owner_leases.contains(lease_id) {
                    rejection.reason
                        == (OwnershipRejectionReason::<Seq<char>>::OwnerLeaseInvalid { lease_id })
                } else {
                    rejection.reason is EpochMismatch
                }
            }
        },
{
    law_requests_have_one_key(request, key, request);
}

/// A grant holds exactly while the generation is that of the grant, what is known is current and the
/// lease of the grant is live.
pub proof fn law_grants_hold_for_their_generation(snapshot: SnapshotModel, grant: GrantModel)
    ensures
        snapshot.honours(grant) <==> {
            &&& grant.generation == snapshot.state.generation
            &&& snapshot.state.availability == SnapshotAvailability::Ready
            &&& snapshot.state.valid_owner_leases.contains(grant.lease_id)
        },
{
}

} // verus!
