//! How a drained member is removed from the membership, one request after the other.
use vstd::prelude::*;

use crate::keymap::{option_view, Key};
use crate::runtime::control::MemberRemovalReason;
use crate::runtime::errors::{outcome, CoordinatorRuntimeError, RuntimeErrorModel};
use crate::runtime::host::routing::{confirm_leader, DrainStep};
use crate::runtime::host::{CoordinatorHost, HostModel, LeaderRecord, LeaderRecordModel};
use crate::runtime::members::{
    AssociationKey, AssociationModel, MemberRecord, MemberStatus, RecordModel,
};
use crate::types::{NodeIncarnation, NodeKey};

verus! {

/// How far a removal has come: which request stands.
#[derive(Debug, Clone, Copy, PartialEq, Eq, Structural)]
pub enum DrainStage {
    Reading,
    Leaving,
    Removing,
    Confirming,
    Committing { coordinator_term: u64 },
}

impl DrainStage {
    /// How many requests stand at most before the removal is over.
    pub open spec fn left(self) -> nat {
        match self {
            DrainStage::Reading => 5,
            DrainStage::Leaving => 4,
            DrainStage::Removing => 3,
            DrainStage::Confirming => 2,
            DrainStage::Committing { .. } => 1,
        }
    }
}

/// The removal of a drained member, as it was asked for under an association.
#[derive(Debug)]
pub struct MembershipDrain<S = String> {
    pub operation_id: S,
    pub node: NodeKey<S>,
    pub association: AssociationKey<S>,
    pub stage: DrainStage,
}

pub type DrainModel = MembershipDrain<Seq<char>>;

impl View for MembershipDrain {
    type V = DrainModel;

    open spec fn view(&self) -> DrainModel {
        MembershipDrain {
            operation_id: self.operation_id@,
            node: self.node@,
            association: self.association@,
            stage: self.stage,
        }
    }
}

/// What the store, the membership or the peer is asked to do.
#[allow(inconsistent_fields)]
#[derive(Debug, PartialEq, Eq)]
pub enum DrainRequest<S = String> {
    ReadMember { node_id: S },
    BeginLeave { node: NodeKey<S> },
    Remove { node: NodeKey<S>, reason: MemberRemovalReason },
    /// Who leads the membership, by the store.
    ReadLeader,
    /// The peer is told that its drain is committed.
    Commit {
        association: AssociationKey<S>,
        operation_id: S,
        expected_incarnation: NodeIncarnation,
        coordinator_term: u64,
    },
}

pub type DrainRequestModel = DrainRequest<Seq<char>>;

impl View for DrainRequest {
    type V = DrainRequestModel;

    open spec fn view(&self) -> DrainRequestModel {
        match self {
            DrainRequest::ReadMember { node_id } => DrainRequest::ReadMember { node_id: node_id@ },
            DrainRequest::BeginLeave { node } => DrainRequest::BeginLeave { node: node@ },
            DrainRequest::Remove { node, reason } => DrainRequest::Remove {
                node: node@,
                reason: *reason,
            },
            DrainRequest::ReadLeader => DrainRequest::ReadLeader,
            DrainRequest::Commit {
                association,
                operation_id,
                expected_incarnation,
                coordinator_term,
            } => DrainRequest::Commit {
                association: association@,
                operation_id: operation_id@,
                expected_incarnation: *expected_incarnation,
                coordinator_term: *coordinator_term,
            },
        }
    }
}

/// What came of a request.
#[allow(inconsistent_fields)]
pub enum DrainReply<R = MemberRecord, L = LeaderRecord, E = CoordinatorRuntimeError> {
    Member(Option<R>),
    Done,
    /// Who leads the membership here, and who leads it by the store.
    Leaders { own: L, stored: Option<L> },
    Failed(E),
}

pub type DrainReplyModel = DrainReply<RecordModel, LeaderRecordModel, RuntimeErrorModel>;

impl View for DrainReply {
    type V = DrainReplyModel;

    open spec fn view(&self) -> DrainReplyModel {
        match self {
            DrainReply::Member(stored) => DrainReply::Member(option_view(*stored)),
            DrainReply::Done => DrainReply::Done,
            DrainReply::Leaders { own, stored } => DrainReply::Leaders {
                own: own@,
                stored: option_view(*stored),
            },
            DrainReply::Failed(error) => DrainReply::Failed(error@),
        }
    }
}

/// What a removal goes on with.
#[allow(inconsistent_fields)]
#[derive(Debug, PartialEq, Eq)]
pub enum DrainProgress<S = String> {
    Ask(DrainRequest<S>),
    /// The removal is committed, and the domains are told of it.
    TellDomains { node: NodeKey<S>, reason: MemberRemovalReason },
}

pub type DrainProgressModel = DrainProgress<Seq<char>>;

impl View for DrainProgress {
    type V = DrainProgressModel;

    open spec fn view(&self) -> DrainProgressModel {
        match self {
            DrainProgress::Ask(request) => DrainProgress::Ask(request@),
            DrainProgress::TellDomains { node, reason } => DrainProgress::TellDomains {
                node: node@,
                reason: *reason,
            },
        }
    }
}

impl DrainModel {
    /// The removal that a node asks for under an association.
    pub open spec fn asked_for(
        operation_id: Seq<char>,
        node_id: Seq<char>,
        expected_incarnation: NodeIncarnation,
        association: AssociationModel,
    ) -> DrainModel {
        MembershipDrain {
            operation_id,
            node: NodeKey {
                node_id,
                address: association.remote_address,
                incarnation: expected_incarnation,
            },
            association,
            stage: DrainStage::Reading,
        }
    }

    pub open spec fn at(self, stage: DrainStage) -> DrainModel {
        MembershipDrain { stage, ..self }
    }

    /// The request that stands.
    pub open spec fn request(self) -> DrainRequestModel {
        match self.stage {
            DrainStage::Reading => DrainRequest::ReadMember { node_id: self.node.node_id },
            DrainStage::Leaving => DrainRequest::BeginLeave { node: self.node },
            DrainStage::Removing => DrainRequest::Remove {
                node: self.node,
                reason: MemberRemovalReason::GracefulLeave,
            },
            DrainStage::Confirming => DrainRequest::ReadLeader,
            DrainStage::Committing { coordinator_term } => self.commit(coordinator_term),
        }
    }

    /// What the peer is told once the removal is committed.
    pub open spec fn commit(self, coordinator_term: u64) -> DrainRequestModel {
        DrainRequest::Commit {
            association: self.association,
            operation_id: self.operation_id,
            expected_incarnation: self.node.incarnation,
            coordinator_term,
        }
    }
}

/// A host and a removal after a reply, and what the removal goes on with.
pub type Drained = (HostModel, DrainModel, Result<DrainProgressModel, RuntimeErrorModel>);

impl HostModel {
    pub open spec fn asking(self, drain: DrainModel) -> Drained {
        (self, drain, Ok(DrainProgress::Ask(drain.request())))
    }

    /// What becomes of a removal with a reply. What is stored of the member no longer is not
    /// removed again; either way the member is forgotten before the leadership is confirmed, so
    /// that a heartbeat which is under way cannot bring it back. A reply to anything but the
    /// request that stands leaves it standing.
    pub open spec fn drained(self, drain: DrainModel, reply: DrainReplyModel) -> Drained {
        let forgotten = self.forgetting(drain.node.incarnation);
        match (drain.stage, reply) {
            (_, DrainReply::Failed(error)) => (self, drain, Err(error)),
            (DrainStage::Reading, DrainReply::Member(stored)) => match self.drain_step(
                drain.node,
                drain.association,
                stored,
            ) {
                Err(error) => (self, drain, Err(error)),
                Ok(DrainStep::LeaveAndRemove) => self.asking(drain.at(DrainStage::Leaving)),
                Ok(DrainStep::Remove) => self.asking(drain.at(DrainStage::Removing)),
                Ok(DrainStep::AlreadyRemoved) => forgotten.asking(
                    drain.at(DrainStage::Confirming),
                ),
            },
            (DrainStage::Leaving, DrainReply::Done) => self.asking(drain.at(DrainStage::Removing)),
            (DrainStage::Removing, DrainReply::Done) => forgotten.asking(
                drain.at(DrainStage::Confirming),
            ),
            (DrainStage::Confirming, DrainReply::Leaders { own, stored }) => if stored == Some(
                own,
            ) {
                self.asking(drain.at(DrainStage::Committing { coordinator_term: own.term.0 }))
            } else {
                (self, drain, Err(RuntimeErrorModel::NotLeader))
            },
            (DrainStage::Committing { .. }, DrainReply::Done) => (
                self,
                drain,
                Ok(
                    DrainProgress::TellDomains {
                        node: drain.node,
                        reason: MemberRemovalReason::GracefulLeave,
                    },
                ),
            ),
            _ => self.asking(drain),
        }
    }
}

impl MembershipDrain {
    pub fn request(&self) -> (request: DrainRequest)
        ensures
            request@ == self@.request(),
    {
        match self.stage {
            DrainStage::Reading => DrainRequest::ReadMember { node_id: self.node.node_id.copy() },
            DrainStage::Leaving => DrainRequest::BeginLeave { node: self.node.copy() },
            DrainStage::Removing => DrainRequest::Remove {
                node: self.node.copy(),
                reason: MemberRemovalReason::GracefulLeave,
            },
            DrainStage::Confirming => DrainRequest::ReadLeader,
            DrainStage::Committing { coordinator_term } => DrainRequest::Commit {
                association: self.association.copy(),
                operation_id: self.operation_id.copy(),
                expected_incarnation: self.node.incarnation,
                coordinator_term,
            },
        }
    }
}

impl CoordinatorHost {
    /// Takes up the removal of a drained member, unless it is refused at once.
    pub fn begin_membership_drain(
        &self,
        operation_id: String,
        node_id: String,
        expected_incarnation: NodeIncarnation,
        valid_node: bool,
        association: &AssociationKey,
    ) -> (result: Result<MembershipDrain, CoordinatorRuntimeError>)
        ensures
            outcome(result) == match self@.drain_fault(
                operation_id@,
                expected_incarnation,
                valid_node,
                association@,
            ) {
                Some(error) => Err(error),
                None => Ok(
                    DrainModel::asked_for(
                        operation_id@,
                        node_id@,
                        expected_incarnation,
                        association@,
                    ),
                ),
            },
    {
        match self.check_drain(&operation_id, expected_incarnation, valid_node, association) {
            Err(error) => Err(error),
            Ok(()) => Ok(
                MembershipDrain {
                    operation_id,
                    node: NodeKey {
                        node_id,
                        address: association.remote_address.copy(),
                        incarnation: expected_incarnation,
                    },
                    association: association.copy(),
                    stage: DrainStage::Reading,
                },
            ),
        }
    }

    /// Takes a removal further with what came of the request that stands.
    pub fn complete_membership_drain(
        &mut self,
        drain: &mut MembershipDrain,
        reply: DrainReply,
    ) -> (result: Result<DrainProgress, CoordinatorRuntimeError>)
        ensures
            (final(self)@, final(drain)@, outcome(result)) == old(self)@.drained(
                old(drain)@,
                reply@,
            ),
    {
        match (drain.stage, reply) {
            (_, DrainReply::Failed(error)) => {
                return Err(error);
            },
            (DrainStage::Reading, DrainReply::Member(stored)) => {
                match self.decide_drain(&drain.node, &drain.association, &stored) {
                    Err(error) => {
                        return Err(error);
                    },
                    Ok(DrainStep::LeaveAndRemove) => {
                        drain.stage = DrainStage::Leaving;
                    },
                    Ok(DrainStep::Remove) => {
                        drain.stage = DrainStage::Removing;
                    },
                    Ok(DrainStep::AlreadyRemoved) => {
                        self.forget_member(drain.node.incarnation);
                        drain.stage = DrainStage::Confirming;
                    },
                }
            },
            (DrainStage::Leaving, DrainReply::Done) => {
                drain.stage = DrainStage::Removing;
            },
            (DrainStage::Removing, DrainReply::Done) => {
                self.forget_member(drain.node.incarnation);
                drain.stage = DrainStage::Confirming;
            },
            (DrainStage::Confirming, DrainReply::Leaders { own, stored }) => {
                match confirm_leader(&own, &stored) {
                    Err(error) => {
                        return Err(error);
                    },
                    Ok(()) => {},
                }
                drain.stage = DrainStage::Committing { coordinator_term: own.term.get() };
            },
            (DrainStage::Committing { .. }, DrainReply::Done) => {
                return Ok(
                    DrainProgress::TellDomains {
                        node: drain.node.copy(),
                        reason: MemberRemovalReason::GracefulLeave,
                    },
                );
            },
            _ => {},
        }
        Ok(DrainProgress::Ask(drain.request()))
    }
}

/// What a removal is carried out on: the stored members by the identities of their nodes, who
/// leads the membership here and by the store, and what peers were told.
#[verifier::ext_equal]
pub struct MembershipWorld {
    pub members: Map<Seq<char>, RecordModel>,
    pub own: LeaderRecordModel,
    pub leader: Option<LeaderRecordModel>,
    pub sent: Seq<DrainRequestModel>,
}

impl MembershipWorld {
    /// Whether a node is stored as a member, in that incarnation.
    pub open spec fn stores(self, node_id: Seq<char>, incarnation: NodeIncarnation) -> bool {
        self.members.contains_key(node_id) && self.members[node_id].node.incarnation == incarnation
    }

    /// The world after a request is carried out, and the reply.
    pub open spec fn carrying_out(self, request: DrainRequestModel) -> (
        MembershipWorld,
        DrainReplyModel,
    ) {
        match request {
            DrainRequest::ReadMember { node_id } => (
                self,
                DrainReply::Member(
                    if self.members.contains_key(node_id) {
                        Some(self.members[node_id])
                    } else {
                        None
                    },
                ),
            ),
            DrainRequest::BeginLeave { node } => (
                MembershipWorld {
                    members: self.members.insert(
                        node.node_id,
                        RecordModel { status: MemberStatus::Leaving, ..self.members[node.node_id] },
                    ),
                    ..self
                },
                DrainReply::Done,
            ),
            DrainRequest::Remove { node, reason } => (
                MembershipWorld { members: self.members.remove(node.node_id), ..self },
                DrainReply::Done,
            ),
            DrainRequest::ReadLeader => (
                self,
                DrainReply::Leaders { own: self.own, stored: self.leader },
            ),
            DrainRequest::Commit { .. } => (
                MembershipWorld { sent: self.sent.push(request), ..self },
                DrainReply::Done,
            ),
        }
    }
}

/// A removal carried out to its end, each request in its turn.
pub open spec fn carried_out(host: HostModel, drain: DrainModel, world: MembershipWorld) -> (
    HostModel,
    MembershipWorld,
    Result<DrainProgressModel, RuntimeErrorModel>,
)
    decreases drain.stage.left(),
{
    let (next_world, reply) = world.carrying_out(drain.request());
    let (next_host, next_drain, progress) = host.drained(drain, reply);
    match progress {
        Ok(DrainProgress::Ask(_)) if next_drain.stage.left() < drain.stage.left() => carried_out(
            next_host,
            next_drain,
            next_world,
        ),
        _ => (next_host, next_world, progress),
    }
}

/// A removal that ends well leaves no stored member of the drained incarnation and every other
/// member as it was, another incarnation of the node among them. The host has forgotten the
/// drained incarnation and nothing else, the peer is told once, under the term of the leader, and
/// the domains are told.
pub proof fn law_a_drained_member_is_removed_alone(
    host: HostModel,
    world: MembershipWorld,
    operation_id: Seq<char>,
    node_id: Seq<char>,
    incarnation: NodeIncarnation,
    association: AssociationModel,
)
    requires
        carried_out(
            host,
            DrainModel::asked_for(operation_id, node_id, incarnation, association),
            world,
        ).2 is Ok,
    ensures
        ({
            let drain = DrainModel::asked_for(operation_id, node_id, incarnation, association);
            let (after, left, progress) = carried_out(host, drain, world);
            &&& world.leader == Some(world.own)
            &&& !left.stores(node_id, incarnation)
            &&& left == (MembershipWorld {
                members: if world.stores(node_id, incarnation) {
                    world.members.remove(node_id)
                } else {
                    world.members
                },
                sent: world.sent.push(drain.commit(world.own.term.0)),
                ..world
            })
            &&& after == host.forgetting(incarnation)
            &&& progress == Ok::<_, RuntimeErrorModel>(
                DrainProgress::TellDomains {
                    node: drain.node,
                    reason: MemberRemovalReason::GracefulLeave,
                },
            )
        }),
{
    let drain = DrainModel::asked_for(operation_id, node_id, incarnation, association);
    reveal_with_fuel(carried_out, 6);
    let (after, left, progress) = carried_out(host, drain, world);
    if world.stores(node_id, incarnation) {
        assert(left.members =~= world.members.remove(node_id));
    }
}

/// A member that is up or leaving, and known under the association that asks, is removed as long
/// as its leader still leads.
pub proof fn law_a_drain_of_a_member_ends_well(
    host: HostModel,
    world: MembershipWorld,
    operation_id: Seq<char>,
    node_id: Seq<char>,
    incarnation: NodeIncarnation,
    association: AssociationModel,
)
    requires
        world.stores(node_id, incarnation),
        world.members[node_id].node == DrainModel::asked_for(
            operation_id,
            node_id,
            incarnation,
            association,
        ).node,
        world.members[node_id].status != MemberStatus::Joining,
        host.membership_associations.contains_key(incarnation),
        host.membership_associations[incarnation] == association,
        world.leader == Some(world.own),
    ensures
        carried_out(
            host,
            DrainModel::asked_for(operation_id, node_id, incarnation, association),
            world,
        ).2 is Ok,
{
    reveal_with_fuel(carried_out, 6);
}

/// A removal ends well wherever the drained incarnation is no longer stored, on this leader or on
/// a successor, whatever the host knows of the node: nothing is removed, and the peer is told
/// once more. So whoever asks again because the answer was lost is answered the same.
pub proof fn law_a_drain_is_confirmed_again(
    host: HostModel,
    world: MembershipWorld,
    operation_id: Seq<char>,
    node_id: Seq<char>,
    incarnation: NodeIncarnation,
    association: AssociationModel,
)
    requires
        !world.stores(node_id, incarnation),
        world.leader == Some(world.own),
    ensures
        ({
            let drain = DrainModel::asked_for(operation_id, node_id, incarnation, association);
            let (after, left, progress) = carried_out(host, drain, world);
            &&& progress is Ok
            &&& left == (MembershipWorld {
                sent: world.sent.push(drain.commit(world.own.term.0)),
                ..world
            })
            &&& after == host.forgetting(incarnation)
        }),
{
    reveal_with_fuel(carried_out, 6);
}

} // verus!
