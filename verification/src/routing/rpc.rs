//! Calls over routes: what a reference to an actor stands for, and when a call is tried again.
use vstd::prelude::*;
use vstd::string::StringExecFns;

use crate::keymap::Key;
use crate::records::{ActorId, ActorKind, Epoch, RouteKey};
use crate::render::push_text;
use crate::routing::{
    key_of, route_key_from_actor_id, InvalidateReason, RequestModel, ResolveRequest, RouteTarget,
    RouteTargetModel,
};

verus! {

/// How a call ended, as far as it matters for another try.
#[derive(Debug, Clone, Copy, PartialEq, Eq, Structural)]
pub enum CallOutcome {
    Replied,
    NotOwner,
    Fenced,
    Failed,
}

/// What follows a call.
#[derive(Debug, Clone, Copy, PartialEq, Eq, Structural)]
pub enum CallStep {
    /// The reply or the error is handed to the caller.
    Finish,
    /// The remembered route is dropped for this reason, resolved again, and the call repeated.
    Retry(InvalidateReason),
}

/// A call over a route: whether it was tried again.
#[derive(Debug, Clone, Copy, PartialEq, Eq, Structural)]
pub struct RoutedCall {
    pub retried: bool,
}

/// What follows a call that was, or was not, tried again before: only where the instance does not
/// own the actor, or was fenced, is the call tried again, and only once.
pub open spec fn after_call(call: RoutedCall, outcome: CallOutcome) -> (RoutedCall, CallStep) {
    match outcome {
        CallOutcome::NotOwner if !call.retried => (
            RoutedCall { retried: true },
            CallStep::Retry(InvalidateReason::NotOwner),
        ),
        CallOutcome::Fenced if !call.retried => (
            RoutedCall { retried: true },
            CallStep::Retry(InvalidateReason::Fenced),
        ),
        _ => (call, CallStep::Finish),
    }
}

impl RoutedCall {
    pub fn new() -> (call: Self)
        ensures
            !call.retried,
    {
        RoutedCall { retried: false }
    }

    /// Decides what follows the outcome of a call.
    pub fn next(&mut self, outcome: CallOutcome) -> (step: CallStep)
        ensures
            (*final(self), step) == after_call(*old(self), outcome),
    {
        if self.retried {
            return CallStep::Finish;
        }
        match outcome {
            CallOutcome::NotOwner => {
                self.retried = true;
                CallStep::Retry(InvalidateReason::NotOwner)
            },
            CallOutcome::Fenced => {
                self.retried = true;
                CallStep::Retry(InvalidateReason::Fenced)
            },
            CallOutcome::Replied => CallStep::Finish,
            CallOutcome::Failed => CallStep::Finish,
        }
    }
}

/// A call is tried at most twice: whatever comes of the second try goes to the caller.
pub proof fn law_calls_are_retried_once(call: RoutedCall, first: CallOutcome, second: CallOutcome)
    requires
        after_call(call, first).1 is Retry,
    ensures
        after_call(after_call(call, first).0, second).1 == CallStep::Finish,
{
}

/// Where an actor that is referred to is found.
#[derive(Debug, PartialEq, Eq)]
pub enum ActorRefTarget<S = String> {
    /// On a given instance.
    Direct { instance_id: S, endpoint: S, owner_epoch: Option<Epoch> },
    /// Wherever its route leads.
    Routed,
}

/// A reference to an actor.
#[derive(Debug, PartialEq, Eq)]
pub struct ActorRef<S = String, B = Vec<u8>> {
    pub service_kind: S,
    pub actor_kind: S,
    pub actor_id: ActorId<S, B>,
    pub target: ActorRefTarget<S>,
}

pub type ActorRefModel = ActorRef<Seq<char>, Seq<u8>>;

impl View for ActorRef {
    type V = ActorRefModel;

    open spec fn view(&self) -> ActorRefModel {
        ActorRef {
            service_kind: self.service_kind@,
            actor_kind: self.actor_kind@,
            actor_id: self.actor_id@,
            target: match self.target {
                ActorRefTarget::Direct { instance_id, endpoint, owner_epoch } =>
                    ActorRefTarget::Direct {
                    instance_id: instance_id@,
                    endpoint: endpoint@,
                    owner_epoch,
                },
                ActorRefTarget::Routed => ActorRefTarget::Routed,
            },
        }
    }
}

/// Why a request may not be sent to the actor that is referred to.
#[derive(Debug, PartialEq, Eq)]
#[allow(inconsistent_fields)]
pub enum ActorRefMismatch<S = String, B = Vec<u8>> {
    Kind { expected: S, requested: S },
    Id { actor_id: ActorId<S, B>, route_key: RouteKey<S, B> },
}

pub type MismatchModel = ActorRefMismatch<Seq<char>, Seq<u8>>;

impl View for ActorRefMismatch {
    type V = MismatchModel;

    open spec fn view(&self) -> MismatchModel {
        match self {
            ActorRefMismatch::Kind { expected, requested } => MismatchModel::Kind {
                expected: expected@,
                requested: requested@,
            },
            ActorRefMismatch::Id { actor_id, route_key } => MismatchModel::Id {
                actor_id: actor_id@,
                route_key: route_key@,
            },
        }
    }
}

/// How a request for another kind of actor is refused.
pub fn kind_mismatch_message(expected: &ActorKind, requested: &ActorKind) -> (message: String)
    ensures
        message@ == "actor ref kind "@ + expected@ + " does not match request kind "@ + requested@,
{
    let mut message = String::from_str("actor ref kind ");
    push_text(&mut message, expected.as_str());
    push_text(&mut message, " does not match request kind ");
    push_text(&mut message, requested.as_str());
    message
}

/// Whether a route key stands for an actor.
pub fn actor_id_matches_route_key(actor_id: &ActorId, route_key: &RouteKey) -> (matches: bool)
    ensures
        matches == (key_of(actor_id@) == route_key@),
{
    match (actor_id, route_key) {
        (ActorId::Str(left), RouteKey::Str(right)) => left.same(right),
        (ActorId::U64(left), RouteKey::U64(right)) => *left == *right,
        (ActorId::I64(left), RouteKey::I64(right)) => *left == *right,
        (ActorId::Bytes(left), RouteKey::Bytes(right)) => left.same(right),
        _ => false,
    }
}

impl ActorRef<Seq<char>, Seq<u8>> {
    /// Why a request may not be sent to the actor: it is for another kind, or for another actor.
    pub open spec fn mismatch(
        self,
        actor_kind: Seq<char>,
        route_key: RouteKey<Seq<char>, Seq<u8>>,
    ) -> Option<MismatchModel> {
        if actor_kind != self.actor_kind {
            Some(MismatchModel::Kind { expected: self.actor_kind, requested: actor_kind })
        } else if key_of(self.actor_id) != route_key {
            Some(MismatchModel::Id { actor_id: self.actor_id, route_key })
        } else {
            None
        }
    }

    /// The route of the actor, if the reference gives it.
    pub open spec fn direct(self) -> Option<RouteTargetModel> {
        match self.target {
            ActorRefTarget::Direct { instance_id, endpoint, owner_epoch } => Some(
                RouteTarget {
                    service_kind: self.service_kind,
                    instance_id,
                    advertised_endpoint: endpoint,
                    owner_epoch,
                },
            ),
            ActorRefTarget::Routed => None,
        }
    }

    /// What is asked of the resolver, if the reference gives no route.
    pub open spec fn request(self) -> RequestModel {
        ResolveRequest {
            service_kind: self.service_kind,
            actor_kind: self.actor_kind,
            route_key: key_of(self.actor_id),
        }
    }
}

/// Checks that a request is for the actor that is referred to.
pub fn validate_actor_ref_request(
    actor_ref: &ActorRef,
    actor_kind: &ActorKind,
    route_key: &RouteKey,
) -> (result: Result<(), ActorRefMismatch>)
    ensures
        match result {
            Ok(_) => actor_ref@.mismatch(actor_kind@, route_key@) is None,
            Err(mismatch) => actor_ref@.mismatch(actor_kind@, route_key@) == Some(mismatch@),
        },
{
    if !actor_kind.same(&actor_ref.actor_kind) {
        return Err(
            ActorRefMismatch::Kind {
                expected: actor_ref.actor_kind.copy(),
                requested: actor_kind.copy(),
            },
        );
    }
    if !actor_id_matches_route_key(&actor_ref.actor_id, route_key) {
        return Err(
            ActorRefMismatch::Id {
                actor_id: actor_ref.actor_id.copy(),
                route_key: route_key.copy(),
            },
        );
    }
    Ok(())
}

/// The route of the actor that is referred to, or what is asked of the resolver for it.
pub fn resolve_actor_ref_target(actor_ref: &ActorRef) -> (route: Result<
    RouteTarget,
    ResolveRequest,
>)
    ensures
        match route {
            Ok(target) => actor_ref@.direct() == Some(target@),
            Err(request) => actor_ref@.direct() is None && request@ == actor_ref@.request(),
        },
{
    match &actor_ref.target {
        ActorRefTarget::Direct { instance_id, endpoint, owner_epoch } => Ok(
            RouteTarget {
                service_kind: actor_ref.service_kind.copy(),
                instance_id: instance_id.copy(),
                advertised_endpoint: endpoint.copy(),
                owner_epoch: *owner_epoch,
            },
        ),
        ActorRefTarget::Routed => Err(
            ResolveRequest {
                service_kind: actor_ref.service_kind.copy(),
                actor_kind: actor_ref.actor_kind.copy(),
                route_key: route_key_from_actor_id(&actor_ref.actor_id),
            },
        ),
    }
}

} // verus!
