//! The handoff of a slot as a leader sees it.
use vstd::prelude::*;

use crate::keymap::Key;
use crate::sessions::SessionSet;
use crate::types::{
    AssignmentGeneration, ClaimGrant, ClaimModel, NodeIncarnation, NodeKey, NodeModel,
    PlacementVersion, VersionModel,
};

verus! {

/// How far a handoff has come.
#[derive(Debug, Clone, Copy, PartialEq, Eq, Structural)]
pub enum HandoffPhase {
    Invalidating,
    Draining,
    ReplacingAuthority,
    Activating,
}

/// What a handoff asks the leader to do.
#[derive(Debug, Clone, Copy, PartialEq, Eq, Structural)]
pub enum HandoffEffect {
    DrainSource,
    ReplaceAuthority,
    PublishActive,
    StopFailed,
}

/// What happens to a handoff.
#[allow(inconsistent_fields)]
#[derive(Debug, PartialEq, Eq)]
pub enum HandoffEvent<S = String> {
    AppliedRevision { session: NodeIncarnation, version: PlacementVersion<S> },
    FenceSession(NodeIncarnation),
    SourceDrained { source: NodeKey<S>, generation: AssignmentGeneration },
    SourceStopFailed { source: NodeKey<S>, generation: AssignmentGeneration },
    SourceAuthorityInvalid { source: NodeKey<S>, generation: AssignmentGeneration },
    TargetClaimInstalled { target: NodeKey<S>, generation: AssignmentGeneration },
    TargetReady { target: NodeKey<S>, generation: AssignmentGeneration },
}

pub type HandoffEventModel = HandoffEvent<Seq<char>>;

impl View for HandoffEvent {
    type V = HandoffEventModel;

    open spec fn view(&self) -> HandoffEventModel {
        match self {
            HandoffEvent::AppliedRevision { session, version } => HandoffEvent::AppliedRevision {
                session: *session,
                version: version@,
            },
            HandoffEvent::FenceSession(session) => HandoffEvent::FenceSession(*session),
            HandoffEvent::SourceDrained { source, generation } => HandoffEvent::SourceDrained {
                source: source@,
                generation: *generation,
            },
            HandoffEvent::SourceStopFailed { source, generation } =>
                HandoffEvent::SourceStopFailed { source: source@, generation: *generation },
            HandoffEvent::SourceAuthorityInvalid { source, generation } =>
                HandoffEvent::SourceAuthorityInvalid { source: source@, generation: *generation },
            HandoffEvent::TargetClaimInstalled { target, generation } =>
                HandoffEvent::TargetClaimInstalled { target: target@, generation: *generation },
            HandoffEvent::TargetReady { target, generation } => HandoffEvent::TargetReady {
                target: target@,
                generation: *generation,
            },
        }
    }
}

/// A handoff that is under way.
#[derive(Debug)]
pub struct Handoff {
    pub plan_id: u128,
    pub source: NodeKey,
    pub target: NodeKey,
    pub source_generation: AssignmentGeneration,
    pub target_generation: AssignmentGeneration,
    pub phase: HandoffPhase,
    pub barrier_version: PlacementVersion,
    pub required_sessions: SessionSet,
}

#[verifier::ext_equal]
pub struct HandoffModel {
    pub plan_id: u128,
    pub source: NodeModel,
    pub target: NodeModel,
    pub source_generation: AssignmentGeneration,
    pub target_generation: AssignmentGeneration,
    pub phase: HandoffPhase,
    pub barrier_version: VersionModel,
    pub required_sessions: Set<NodeIncarnation>,
}

impl View for Handoff {
    type V = HandoffModel;

    open spec fn view(&self) -> HandoffModel {
        HandoffModel {
            plan_id: self.plan_id,
            source: self.source@,
            target: self.target@,
            source_generation: self.source_generation,
            target_generation: self.target_generation,
            phase: self.phase,
            barrier_version: self.barrier_version@,
            required_sessions: self.required_sessions@,
        }
    }
}

impl HandoffModel {
    /// Whether the barrier of the handoff waits for a session that has applied a version.
    pub open spec fn awaits(self, session: NodeIncarnation, version: VersionModel) -> bool {
        self.phase == HandoffPhase::Invalidating && self.required_sessions.contains(session)
            && version.covers(self.barrier_version)
    }

    /// Whether the barrier of the handoff waits for a session at all.
    pub open spec fn waits_for(self, session: NodeIncarnation) -> bool {
        self.phase == HandoffPhase::Invalidating && self.required_sessions.contains(session)
    }
}

impl Handoff {

    pub fn awaits(&self, session: NodeIncarnation, version: &PlacementVersion) -> (awaits: bool)
        ensures
            awaits == self@.awaits(session, version@),
    {
        self.phase == HandoffPhase::Invalidating && self.required_sessions.contains(session)
            && version.satisfies(&self.barrier_version)
    }

    pub fn waits_for(&self, session: NodeIncarnation) -> (waits: bool)
        ensures
            waits == self@.waits_for(session),
    {
        self.phase == HandoffPhase::Invalidating && self.required_sessions.contains(session)
    }
}

/// A claim and the lease that it lives by.
#[derive(Debug)]
pub struct ClaimLease {
    pub lease_id: i64,
    pub grant: ClaimGrant,
}

#[verifier::ext_equal]
pub struct ClaimLeaseModel {
    pub lease_id: i64,
    pub grant: ClaimModel,
}

impl View for ClaimLease {
    type V = ClaimLeaseModel;

    open spec fn view(&self) -> ClaimLeaseModel {
        ClaimLeaseModel { lease_id: self.lease_id, grant: self.grant@ }
    }
}

impl Key for ClaimLease {
    fn same(&self, other: &Self) -> (same: bool) {
        self.lease_id == other.lease_id && self.grant.same(&other.grant)
    }

    fn copy(&self) -> (copy: Self) {
        ClaimLease { lease_id: self.lease_id, grant: self.grant.copy() }
    }
}

} // verus!
