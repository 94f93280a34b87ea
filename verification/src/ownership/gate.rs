//! Admission of requests: a request is granted only under a placement that this instance owns
//! now, at the epoch under which the request was routed.
use vstd::prelude::*;

use crate::epoch_floor::{KeyModel, RecordModel};
use crate::keymap::{option_view, Key};
use crate::ownership::{
    LocalOwnershipSnapshot, LocalOwnershipState, OwnershipFenceReason, SnapshotAvailability,
    SnapshotModel,
};
use crate::records::{
    ActorId, ActorKind, ActorPlacementKey, Epoch, InstanceState, LeaseId, OwnershipKey,
    OwnershipRecordBinding, PlacementState, RouteKey, ServiceKind, SingletonKey,
    VirtualShardPlacementKey,
};
use crate::sharding::VirtualShardMapper;

verus! {

/// How the actors of a kind are placed.
#[derive(Debug, Clone, Copy, PartialEq, Eq)]
pub enum OwnershipPlacement {
    Explicit,
    VirtualShard { mapper: VirtualShardMapper },
    Singleton,
}

/// A request for the right to serve one routed call.
#[derive(Debug, Clone, Copy)]
pub struct OwnershipRequest<'a> {
    pub expected_service: &'a ServiceKind,
    pub expected_actor_kind: &'a ActorKind,
    pub route_actor_kind: &'a ActorKind,
    pub route_key: &'a RouteKey,
    pub route_epoch: Option<Epoch>,
    pub placement: &'a OwnershipPlacement,
}

/// What a request asks.
pub struct RequestModel {
    pub expected_service: Seq<char>,
    pub expected_actor_kind: Seq<char>,
    pub route_actor_kind: Seq<char>,
    pub route_key: RouteKey<Seq<char>, Seq<u8>>,
    pub route_epoch: Option<Epoch>,
    pub placement: OwnershipPlacement,
}

impl<'a> View for OwnershipRequest<'a> {
    type V = RequestModel;

    open spec fn view(&self) -> RequestModel {
        RequestModel {
            expected_service: self.expected_service@,
            expected_actor_kind: self.expected_actor_kind@,
            route_actor_kind: self.route_actor_kind@,
            route_key: self.route_key@,
            route_epoch: self.route_epoch,
            placement: *self.placement,
        }
    }
}

#[derive(Debug, Clone, Copy, PartialEq, Eq, Structural)]
pub enum OwnershipRejectionKind {
    NotOwner,
    Fenced,
}

/// Why a request is refused.
#[allow(inconsistent_fields)]
#[derive(Debug, PartialEq, Eq)]
pub enum OwnershipRejectionReason<S = String> {
    ServiceMismatch { local: S, expected: S },
    ActorKindMismatch { expected: S, actual: S },
    InvalidSingletonRoute,
    SnapshotUnavailable { reason: OwnershipFenceReason },
    LocalInstanceMissing,
    InstanceNotReady { state: InstanceState },
    InstanceLeaseInvalid { lease_id: LeaseId },
    PlacementMissing,
    OwnerMismatch,
    OwnerIncarnationMismatch,
    PlacementNotRunning { state: PlacementState },
    OwnerLeaseInvalid { lease_id: LeaseId },
    MissingEpoch,
    EpochMismatch,
}

impl View for OwnershipRejectionReason {
    type V = OwnershipRejectionReason<Seq<char>>;

    open spec fn view(&self) -> Self::V {
        match self {
            OwnershipRejectionReason::ServiceMismatch {
                local,
                expected,
            } => OwnershipRejectionReason::ServiceMismatch { local: local@, expected: expected@ },
            OwnershipRejectionReason::ActorKindMismatch {
                expected,
                actual,
            } => OwnershipRejectionReason::ActorKindMismatch {
                expected: expected@,
                actual: actual@,
            },
            OwnershipRejectionReason::InvalidSingletonRoute =>
                OwnershipRejectionReason::InvalidSingletonRoute,
            OwnershipRejectionReason::SnapshotUnavailable {
                reason,
            } => OwnershipRejectionReason::SnapshotUnavailable { reason: *reason },
            OwnershipRejectionReason::LocalInstanceMissing =>
                OwnershipRejectionReason::LocalInstanceMissing,
            OwnershipRejectionReason::InstanceNotReady {
                state,
            } => OwnershipRejectionReason::InstanceNotReady { state: *state },
            OwnershipRejectionReason::InstanceLeaseInvalid {
                lease_id,
            } => OwnershipRejectionReason::InstanceLeaseInvalid { lease_id: *lease_id },
            OwnershipRejectionReason::PlacementMissing =>
                OwnershipRejectionReason::PlacementMissing,
            OwnershipRejectionReason::OwnerMismatch => OwnershipRejectionReason::OwnerMismatch,
            OwnershipRejectionReason::OwnerIncarnationMismatch =>
                OwnershipRejectionReason::OwnerIncarnationMismatch,
            OwnershipRejectionReason::PlacementNotRunning {
                state,
            } => OwnershipRejectionReason::PlacementNotRunning { state: *state },
            OwnershipRejectionReason::OwnerLeaseInvalid {
                lease_id,
            } => OwnershipRejectionReason::OwnerLeaseInvalid { lease_id: *lease_id },
            OwnershipRejectionReason::MissingEpoch => OwnershipRejectionReason::MissingEpoch,
            OwnershipRejectionReason::EpochMismatch => OwnershipRejectionReason::EpochMismatch,
        }
    }
}

/// A refusal, with what is known of the placement.
#[derive(Debug, PartialEq, Eq)]
pub struct OwnershipRejection<S = String, B = Vec<u8>> {
    pub kind: OwnershipRejectionKind,
    pub reason: OwnershipRejectionReason<S>,
    pub key: Option<OwnershipKey<S, B>>,
    pub requested_epoch: Option<Epoch>,
    pub current_epoch: Option<Epoch>,
    pub current_owner: Option<S>,
}

pub type RejectionModel = OwnershipRejection<Seq<char>, Seq<u8>>;

impl View for OwnershipRejection {
    type V = RejectionModel;

    open spec fn view(&self) -> RejectionModel {
        OwnershipRejection {
            kind: self.kind,
            reason: self.reason@,
            key: option_view(self.key),
            requested_epoch: self.requested_epoch,
            current_epoch: self.current_epoch,
            current_owner: option_view(self.current_owner),
        }
    }
}

/// The right to serve one placement, good until the generation of the snapshot moves on.
#[derive(Debug, PartialEq, Eq)]
pub struct OwnershipGrant {
    key: OwnershipKey,
    epoch: Epoch,
    lease_id: LeaseId,
    generation: u64,
}

/// What a grant covers.
pub struct GrantModel {
    pub key: KeyModel,
    pub epoch: Epoch,
    pub lease_id: LeaseId,
    pub generation: u64,
}

impl View for OwnershipGrant {
    type V = GrantModel;

    closed spec fn view(&self) -> GrantModel {
        GrantModel {
            key: self.key@,
            epoch: self.epoch,
            lease_id: self.lease_id,
            generation: self.generation,
        }
    }
}

impl OwnershipGrant {
    pub fn key(&self) -> (key: &OwnershipKey)
        ensures
            key@ == self@.key,
    {
        &self.key
    }

    pub fn epoch(&self) -> (epoch: Epoch)
        ensures
            epoch == self@.epoch,
    {
        self.epoch
    }

    pub fn lease_id(&self) -> (lease_id: LeaseId)
        ensures
            lease_id == self@.lease_id,
    {
        self.lease_id
    }

    pub fn generation(&self) -> (generation: u64)
        ensures
            generation == self@.generation,
    {
        self.generation
    }
}

/// Decides which requests may be served.
pub trait OwnershipGate {
    fn authorize(&self, request: OwnershipRequest<'_>) -> Result<
        OwnershipGrant,
        Box<OwnershipRejection>,
    >;

    fn is_current(&self, grant: &OwnershipGrant) -> bool;
}

/// What a placement record that this instance owns states.
pub struct LocalAuthority<S = String> {
    pub owner: S,
    pub owner_incarnation: Option<S>,
    pub epoch: Epoch,
    pub lease_id: Option<LeaseId>,
    pub state: Option<PlacementState>,
}

pub open spec fn authority_stated(record: RecordModel) -> LocalAuthority<Seq<char>> {
    match record {
        OwnershipRecordBinding::Actor(r) => LocalAuthority {
            owner: r.owner,
            owner_incarnation: None,
            epoch: r.epoch,
            lease_id: Some(r.lease_id),
            state: Some(r.state),
        },
        OwnershipRecordBinding::VirtualShard(r) => LocalAuthority {
            owner: r.owner,
            owner_incarnation: None,
            epoch: r.epoch,
            lease_id: None,
            state: None,
        },
        OwnershipRecordBinding::Singleton(r) => LocalAuthority {
            owner: r.owner,
            owner_incarnation: Some(r.owner_incarnation),
            epoch: r.epoch,
            lease_id: Some(r.lease_id),
            state: Some(r.state),
        },
    }
}

/// The actor that a route key names.
pub open spec fn actor_of(key: RouteKey<Seq<char>, Seq<u8>>) -> ActorId<Seq<char>, Seq<u8>> {
    match key {
        RouteKey::Str(value) => ActorId::Str(value),
        RouteKey::U64(value) => ActorId::U64(value),
        RouteKey::I64(value) => ActorId::I64(value),
        RouteKey::Bytes(value) => ActorId::Bytes(value),
    }
}

pub fn actor_id_from_route_key(route_key: &RouteKey) -> (actor_id: ActorId)
    ensures
        actor_id@ == actor_of(route_key@),
{
    match route_key {
        RouteKey::Str(value) => ActorId::Str(value.copy()),
        RouteKey::U64(value) => ActorId::U64(*value),
        RouteKey::I64(value) => ActorId::I64(*value),
        RouteKey::Bytes(value) => ActorId::Bytes(value.copy()),
    }
}

impl RequestModel {
    /// A refusal of this request.
    pub open spec fn refused(
        self,
        kind: OwnershipRejectionKind,
        reason: OwnershipRejectionReason<Seq<char>>,
        key: Option<KeyModel>,
        current_epoch: Option<Epoch>,
        current_owner: Option<Seq<char>>,
    ) -> RejectionModel {
        OwnershipRejection {
            kind,
            reason,
            key,
            requested_epoch: self.route_epoch,
            current_epoch,
            current_owner,
        }
    }

    /// The placement that the request is for; none for a singleton without a text scope.
    pub open spec fn target(self) -> Option<KeyModel> {
        match self.placement {
            OwnershipPlacement::Explicit => Some(
                OwnershipKey::Explicit(
                    ActorPlacementKey {
                        service_kind: self.expected_service,
                        actor_kind: self.expected_actor_kind,
                        actor_id: actor_of(self.route_key),
                    },
                ),
            ),
            OwnershipPlacement::VirtualShard { mapper } => Some(
                OwnershipKey::VirtualShard(
                    VirtualShardPlacementKey {
                        service_kind: self.expected_service,
                        actor_kind: self.expected_actor_kind,
                        shard_id: mapper.shard_of(self.route_key),
                    },
                ),
            ),
            OwnershipPlacement::Singleton => match self.route_key {
                RouteKey::Str(scope) => Some(
                    OwnershipKey::Singleton(
                        SingletonKey {
                            service_kind: self.expected_service,
                            singleton_kind: self.expected_actor_kind,
                            scope,
                        },
                    ),
                ),
                _ => None,
            },
        }
    }
}

impl SnapshotModel {
    /// The placement that a request is for, or why the request is not one for this instance.
    pub open spec fn addressed(self, request: RequestModel) -> Result<KeyModel, RejectionModel> {
        if request.expected_service != self.service_kind {
            Err(
                request.refused(
                    OwnershipRejectionKind::NotOwner,
                    OwnershipRejectionReason::ServiceMismatch {
                        local: self.service_kind,
                        expected: request.expected_service,
                    },
                    None,
                    None,
                    None,
                ),
            )
        } else if request.route_actor_kind != request.expected_actor_kind {
            Err(
                request.refused(
                    OwnershipRejectionKind::NotOwner,
                    OwnershipRejectionReason::ActorKindMismatch {
                        expected: request.expected_actor_kind,
                        actual: request.route_actor_kind,
                    },
                    None,
                    None,
                    None,
                ),
            )
        } else {
            match request.target() {
                Some(key) => Ok(key),
                None => Err(
                    request.refused(
                        OwnershipRejectionKind::NotOwner,
                        OwnershipRejectionReason::InvalidSingletonRoute,
                        None,
                        None,
                        None,
                    ),
                ),
            }
        }
    }

    /// What this instance owns under a key.
    pub open spec fn authority(self, key: KeyModel) -> Option<LocalAuthority<Seq<char>>> {
        if self.state.placements.contains_key(key) {
            match self.state.placements[key].observation.local() {
                Some(record) => Some(authority_stated(record)),
                None => None,
            }
        } else {
            None
        }
    }

    /// The answer to a request for the placement under `key`, by what the snapshot knows.
    pub open spec fn answer(self, request: RequestModel, key: KeyModel) -> Result<
        GrantModel,
        RejectionModel,
    > {
        let state = self.state;
        let fenced = |reason: OwnershipRejectionReason<Seq<char>>, owner: Option<Seq<char>>|
            Err::<GrantModel, RejectionModel>(
                request.refused(OwnershipRejectionKind::Fenced, reason, Some(key), None, owner),
            );
        if request.route_epoch is None {
            fenced(OwnershipRejectionReason::MissingEpoch, None)
        } else if state.availability is Unavailable {
            fenced(
                OwnershipRejectionReason::SnapshotUnavailable {
                    reason: state.availability->Unavailable_0,
                },
                None,
            )
        } else if state.instance is None {
            fenced(OwnershipRejectionReason::LocalInstanceMissing, None)
        } else if state.instance->0.state != InstanceState::Ready {
            fenced(
                OwnershipRejectionReason::InstanceNotReady { state: state.instance->0.state },
                Some(self.instance_id),
            )
        } else if !state.valid_owner_leases.contains(state.instance->0.lease_id) {
            fenced(
                OwnershipRejectionReason::InstanceLeaseInvalid {
                    lease_id: state.instance->0.lease_id,
                },
                Some(self.instance_id),
            )
        } else {
            match self.authority(key) {
                None => Err(
                    request.refused(
                        OwnershipRejectionKind::NotOwner,
                        OwnershipRejectionReason::PlacementMissing,
                        Some(key),
                        None,
                        None,
                    ),
                ),
                Some(authority) => self.judged(request, key, authority),
            }
        }
    }

    /// The answer to a request, by what this instance owns under its key.
    pub open spec fn judged(
        self,
        request: RequestModel,
        key: KeyModel,
        authority: LocalAuthority<Seq<char>>,
    ) -> Result<GrantModel, RejectionModel> {
        let state = self.state;
        let lease_id = match authority.lease_id {
            Some(lease_id) => lease_id,
            None => state.instance->0.lease_id,
        };
        let refused = |kind: OwnershipRejectionKind, reason: OwnershipRejectionReason<Seq<char>>|
            Err::<GrantModel, RejectionModel>(
                request.refused(
                    kind,
                    reason,
                    Some(key),
                    Some(authority.epoch),
                    Some(authority.owner),
                ),
            );
        if authority.owner != self.instance_id {
            refused(OwnershipRejectionKind::NotOwner, OwnershipRejectionReason::OwnerMismatch)
        } else if authority.owner_incarnation is Some && authority.owner_incarnation->0
            != self.incarnation {
            refused(
                OwnershipRejectionKind::Fenced,
                OwnershipRejectionReason::OwnerIncarnationMismatch,
            )
        } else if authority.state is Some && authority.state->0 != PlacementState::Running {
            refused(
                OwnershipRejectionKind::Fenced,
                OwnershipRejectionReason::PlacementNotRunning { state: authority.state->0 },
            )
        } else if !state.valid_owner_leases.contains(lease_id) {
            refused(
                OwnershipRejectionKind::Fenced,
                OwnershipRejectionReason::OwnerLeaseInvalid { lease_id },
            )
        } else if request.route_epoch != Some(authority.epoch) {
            refused(OwnershipRejectionKind::Fenced, OwnershipRejectionReason::EpochMismatch)
        } else {
            Ok(
                GrantModel {
                    key,
                    epoch: authority.epoch,
                    lease_id,
                    generation: state.generation,
                },
            )
        }
    }

    /// The answer to a request.
    pub open spec fn decision(self, request: RequestModel) -> Result<GrantModel, RejectionModel> {
        match self.addressed(request) {
            Ok(key) => self.answer(request, key),
            Err(rejection) => Err(rejection),
        }
    }

    /// Whether a grant still holds.
    pub open spec fn honours(self, grant: GrantModel) -> bool {
        self.state.generation == grant.generation && self.state.availability
            == SnapshotAvailability::Ready && self.state.valid_owner_leases.contains(grant.lease_id)
    }
}

/// Decides from a snapshot which requests this instance may answer.
pub struct LocalOwnershipGate<'a> {
    snapshot: &'a LocalOwnershipSnapshot,
}

fn rejection(
    kind: OwnershipRejectionKind,
    reason: OwnershipRejectionReason,
    key: Option<OwnershipKey>,
    requested_epoch: Option<Epoch>,
    current_epoch: Option<Epoch>,
    current_owner: Option<String>,
) -> (rejection: Box<OwnershipRejection>)
    ensures
        rejection@ == (OwnershipRejection {
            kind,
            reason: reason@,
            key: option_view(key),
            requested_epoch,
            current_epoch,
            current_owner: option_view(current_owner),
        }),
{
    Box::new(
        OwnershipRejection { kind, reason, key, requested_epoch, current_epoch, current_owner },
    )
}

impl LocalOwnershipState {
    fn authority(&self, key: &OwnershipKey) -> (authority: Option<LocalAuthority>)
        ensures
            match authority {
                Some(a) => self@.placements.contains_key(key@) && (
                self@.placements[key@].observation.local() matches Some(record)
                    && authority_stated(record) == LocalAuthority {
                    owner: a.owner@,
                    owner_incarnation: option_view(a.owner_incarnation),
                    epoch: a.epoch,
                    lease_id: a.lease_id,
                    state: a.state,
                }),
                None => self@.placements.contains_key(key@)
                    ==> self@.placements[key@].observation.local() is None,
            },
    {
        let record = match self.placements.get(key) {
            None => {
                return None;
            },
            Some(entry) => match entry.observation.local_record() {
                None => {
                    return None;
                },
                Some(record) => record,
            },
        };
        Some(
            match record {
                OwnershipRecordBinding::Actor(r) => LocalAuthority {
                    owner: r.owner.copy(),
                    owner_incarnation: None,
                    epoch: r.epoch,
                    lease_id: Some(r.lease_id),
                    state: Some(r.state),
                },
                OwnershipRecordBinding::VirtualShard(r) => LocalAuthority {
                    owner: r.owner.copy(),
                    owner_incarnation: None,
                    epoch: r.epoch,
                    lease_id: None,
                    state: None,
                },
                OwnershipRecordBinding::Singleton(r) => LocalAuthority {
                    owner: r.owner.copy(),
                    owner_incarnation: Some(r.owner_incarnation.copy()),
                    epoch: r.epoch,
                    lease_id: Some(r.lease_id),
                    state: Some(r.state),
                },
            },
        )
    }
}

impl<'a> LocalOwnershipGate<'a> {
    pub closed spec fn model(self) -> SnapshotModel {
        self.snapshot@
    }

    pub fn of(snapshot: &'a LocalOwnershipSnapshot) -> (gate: Self)
        ensures
            gate.model() == snapshot@,
    {
        LocalOwnershipGate { snapshot }
    }

    fn validate_target_and_derive_key(&self, request: OwnershipRequest<'_>) -> (result: Result<
        OwnershipKey,
        Box<OwnershipRejection>,
    >)
        ensures
            match result {
                Ok(key) => self.model().addressed(request@) == Ok::<KeyModel, RejectionModel>(key@),
                Err(rejection) => self.model().addressed(request@) == Err::<
                    KeyModel,
                    RejectionModel,
                >(rejection@),
            },
    {
        if !request.expected_service.same(&self.snapshot.service_kind) {
            return Err(
                rejection(
                    OwnershipRejectionKind::NotOwner,
                    OwnershipRejectionReason::ServiceMismatch {
                        local: self.snapshot.service_kind.copy(),
                        expected: request.expected_service.copy(),
                    },
                    None,
                    request.route_epoch,
                    None,
                    None,
                ),
            );
        }
        if !request.route_actor_kind.same(request.expected_actor_kind) {
            return Err(
                rejection(
                    OwnershipRejectionKind::NotOwner,
                    OwnershipRejectionReason::ActorKindMismatch {
                        expected: request.expected_actor_kind.copy(),
                        actual: request.route_actor_kind.copy(),
                    },
                    None,
                    request.route_epoch,
                    None,
                    None,
                ),
            );
        }
        match request.placement {
            OwnershipPlacement::Explicit => Ok(
                OwnershipKey::Explicit(
                    ActorPlacementKey {
                        service_kind: request.expected_service.copy(),
                        actor_kind: request.expected_actor_kind.copy(),
                        actor_id: actor_id_from_route_key(request.route_key),
                    },
                ),
            ),
            OwnershipPlacement::VirtualShard { mapper } => Ok(
                OwnershipKey::VirtualShard(
                    VirtualShardPlacementKey {
                        service_kind: request.expected_service.copy(),
                        actor_kind: request.expected_actor_kind.copy(),
                        shard_id: mapper.shard_for_route_key(request.route_key),
                    },
                ),
            ),
            OwnershipPlacement::Singleton => match request.route_key {
                RouteKey::Str(scope) => Ok(
                    OwnershipKey::Singleton(
                        SingletonKey {
                            service_kind: request.expected_service.copy(),
                            singleton_kind: request.expected_actor_kind.copy(),
                            scope: scope.copy(),
                        },
                    ),
                ),
                _ => Err(
                    rejection(
                        OwnershipRejectionKind::NotOwner,
                        OwnershipRejectionReason::InvalidSingletonRoute,
                        None,
                        request.route_epoch,
                        None,
                        None,
                    ),
                ),
            },
        }
    }
}

impl<'a> OwnershipGate for LocalOwnershipGate<'a> {
    fn authorize(&self, request: OwnershipRequest<'_>) -> (result: Result<
        OwnershipGrant,
        Box<OwnershipRejection>,
    >)
        ensures
            match result {
                Ok(grant) => self.model().decision(request@) == Ok::<GrantModel, RejectionModel>(
                    grant@,
                ),
                Err(rejection) => self.model().decision(request@) == Err::<
                    GrantModel,
                    RejectionModel,
                >(rejection@),
            },
    {
        let key = match self.validate_target_and_derive_key(request) {
            Err(rejection) => {
                return Err(rejection);
            },
            Ok(key) => key,
        };
        if request.route_epoch.is_none() {
            return Err(
                rejection(
                    OwnershipRejectionKind::Fenced,
                    OwnershipRejectionReason::MissingEpoch,
                    Some(key),
                    request.route_epoch,
                    None,
                    None,
                ),
            );
        }
        let state = &self.snapshot.state;
        match state.availability {
            SnapshotAvailability::Unavailable(reason) => {
                return Err(
                    rejection(
                        OwnershipRejectionKind::Fenced,
                        OwnershipRejectionReason::SnapshotUnavailable { reason },
                        Some(key),
                        request.route_epoch,
                        None,
                        None,
                    ),
                );
            },
            SnapshotAvailability::Ready => {},
        }
        let instance = match &state.instance {
            None => {
                return Err(
                    rejection(
                        OwnershipRejectionKind::Fenced,
                        OwnershipRejectionReason::LocalInstanceMissing,
                        Some(key),
                        request.route_epoch,
                        None,
                        None,
                    ),
                );
            },
            Some(instance) => instance,
        };
        if instance.state != InstanceState::Ready {
            return Err(
                rejection(
                    OwnershipRejectionKind::Fenced,
                    OwnershipRejectionReason::InstanceNotReady { state: instance.state },
                    Some(key),
                    request.route_epoch,
                    None,
                    Some(self.snapshot.instance_id.copy()),
                ),
            );
        }
        if !state.valid_owner_leases.contains(instance.lease_id) {
            return Err(
                rejection(
                    OwnershipRejectionKind::Fenced,
                    OwnershipRejectionReason::InstanceLeaseInvalid { lease_id: instance.lease_id },
                    Some(key),
                    request.route_epoch,
                    None,
                    Some(self.snapshot.instance_id.copy()),
                ),
            );
        }
        let authority = match state.authority(&key) {
            None => {
                return Err(
                    rejection(
                        OwnershipRejectionKind::NotOwner,
                        OwnershipRejectionReason::PlacementMissing,
                        Some(key),
                        request.route_epoch,
                        None,
                        None,
                    ),
                );
            },
            Some(authority) => authority,
        };
        if !authority.owner.same(&self.snapshot.instance_id) {
            return Err(
                rejection(
                    OwnershipRejectionKind::NotOwner,
                    OwnershipRejectionReason::OwnerMismatch,
                    Some(key),
                    request.route_epoch,
                    Some(authority.epoch),
                    Some(authority.owner),
                ),
            );
        }
        let other_boot = match &authority.owner_incarnation {
            Some(incarnation) => !incarnation.same(&self.snapshot.instance_incarnation),
            None => false,
        };
        if other_boot {
            return Err(
                rejection(
                    OwnershipRejectionKind::Fenced,
                    OwnershipRejectionReason::OwnerIncarnationMismatch,
                    Some(key),
                    request.route_epoch,
                    Some(authority.epoch),
                    Some(authority.owner),
                ),
            );
        }
        match authority.state {
            Some(placement_state) => {
                if placement_state != PlacementState::Running {
                    return Err(
                        rejection(
                            OwnershipRejectionKind::Fenced,
                            OwnershipRejectionReason::PlacementNotRunning {
                                state: placement_state,
                            },
                            Some(key),
                            request.route_epoch,
                            Some(authority.epoch),
                            Some(authority.owner),
                        ),
                    );
                }
            },
            None => {},
        }
        let owner_lease = match authority.lease_id {
            Some(lease_id) => lease_id,
            None => instance.lease_id,
        };
        if !state.valid_owner_leases.contains(owner_lease) {
            return Err(
                rejection(
                    OwnershipRejectionKind::Fenced,
                    OwnershipRejectionReason::OwnerLeaseInvalid { lease_id: owner_lease },
                    Some(key),
                    request.route_epoch,
                    Some(authority.epoch),
                    Some(authority.owner),
                ),
            );
        }
        let current = match request.route_epoch {
            Some(epoch) => epoch == authority.epoch,
            None => false,
        };
        if !current {
            return Err(
                rejection(
                    OwnershipRejectionKind::Fenced,
                    OwnershipRejectionReason::EpochMismatch,
                    Some(key),
                    request.route_epoch,
                    Some(authority.epoch),
                    Some(authority.owner),
                ),
            );
        }
        Ok(
            OwnershipGrant {
                key,
                epoch: authority.epoch,
                lease_id: owner_lease,
                generation: state.generation,
            },
        )
    }

    fn is_current(&self, grant: &OwnershipGrant) -> (current: bool)
        ensures
            current == self.model().honours(grant@),
    {
        let state = &self.snapshot.state;
        state.generation == grant.generation && state.availability == SnapshotAvailability::Ready
            && state.valid_owner_leases.contains(grant.lease_id)
    }
}

} // verus!
