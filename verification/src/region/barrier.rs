//! The barrier of a handoff: the sessions that must have applied its revision.
use vstd::prelude::*;

use crate::keymap::Key;
use crate::region::{region_fault, RegionError};
use crate::sessions::{ascending, SessionSet};
use crate::types::{EntityType, NodeIncarnation, Revision, ShardId};

verus! {

/// The sessions whose acknowledgement a handoff waits for.
#[derive(Debug)]
pub struct HandoffBarrier {
    pub entity_type: EntityType,
    pub shard_id: ShardId,
    pub revision: Revision,
    required_sessions: SessionSet,
    applied_sessions: SessionSet,
}

#[verifier::ext_equal]
pub struct HandoffBarrierModel {
    pub entity_type: Seq<char>,
    pub shard_id: ShardId,
    pub revision: Revision,
    pub required: Set<NodeIncarnation>,
    pub applied: Set<NodeIncarnation>,
}

impl View for HandoffBarrier {
    type V = HandoffBarrierModel;

    closed spec fn view(&self) -> HandoffBarrierModel {
        HandoffBarrierModel {
            entity_type: self.entity_type@,
            shard_id: self.shard_id,
            revision: self.revision,
            required: self.required_sessions@,
            applied: self.applied_sessions@,
        }
    }
}

impl HandoffBarrierModel {
    /// Whether an acknowledgement counts.
    pub open spec fn expects(self, session: NodeIncarnation, revision: Revision) -> bool {
        revision.0 >= self.revision.0 && self.required.contains(session)
    }

    pub open spec fn acknowledged(self, session: NodeIncarnation) -> HandoffBarrierModel {
        HandoffBarrierModel { applied: self.applied.insert(session), ..self }
    }

    pub open spec fn departed(self, session: NodeIncarnation) -> HandoffBarrierModel {
        HandoffBarrierModel { required: self.required.remove(session), ..self }
    }

    pub open spec fn complete(self) -> bool {
        self.required == self.applied
    }
}

impl HandoffBarrier {
    /// Freezes the subscribed sessions.
    pub fn freeze(
        entity_type: EntityType,
        shard_id: ShardId,
        revision: Revision,
        subscribed_sessions: Vec<NodeIncarnation>,
    ) -> (barrier: Self)
        ensures
            barrier@ == (HandoffBarrierModel {
                entity_type: entity_type@,
                shard_id,
                revision,
                required: subscribed_sessions@.to_set(),
                applied: Set::empty(),
            }),
    {
        let mut required = SessionSet::new();
        let mut i: usize = 0;
        assert(required@ =~= subscribed_sessions@.subrange(0, 0).to_set());
        while i < subscribed_sessions.len()
            invariant
                i <= subscribed_sessions.len(),
                required@ == subscribed_sessions@.subrange(0, i as int).to_set(),
            decreases subscribed_sessions.len() - i,
        {
            let _ = required.insert(subscribed_sessions[i]);
            proof {
                let before = subscribed_sessions@.subrange(0, i as int);
                let longer = subscribed_sessions@.subrange(0, i + 1);
                assert(longer =~= before.push(subscribed_sessions@[i as int]));
                assert forall|s: NodeIncarnation| longer.to_set().contains(s)
                    <==> before.to_set().insert(subscribed_sessions@[i as int]).contains(s) by {
                    if before.contains(s) {
                        let k = choose|k: int| 0 <= k < before.len() && before[k] == s;
                        assert(longer[k] == s);
                    }
                    assert(longer[i as int] == subscribed_sessions@[i as int]);
                    if longer.contains(s) && s != subscribed_sessions@[i as int] {
                        let k = choose|k: int| 0 <= k < longer.len() && longer[k] == s;
                        assert(before[k] == s);
                    }
                }
                assert(longer.to_set() =~= before.to_set().insert(subscribed_sessions@[i as int]));
            }
            i = i + 1;
        }
        assert(subscribed_sessions@.subrange(0, i as int) =~= subscribed_sessions@);
        HandoffBarrier {
            entity_type,
            shard_id,
            revision,
            required_sessions: required,
            applied_sessions: SessionSet::new(),
        }
    }

    /// Counts the acknowledgement of a session.
    pub fn apply_revision(&mut self, session: NodeIncarnation, revision: Revision) -> (result:
        Result<(), RegionError>)
        ensures
            region_fault(result) == if old(self)@.expects(session, revision) {
                None
            } else {
                Some(RegionError::UnexpectedBarrierMember)
            },
            final(self)@ == if old(self)@.expects(session, revision) {
                old(self)@.acknowledged(session)
            } else {
                old(self)@
            },
    {
        if revision.get() < self.revision.get() || !self.required_sessions.contains(session) {
            return Err(RegionError::UnexpectedBarrierMember);
        }
        let _ = self.applied_sessions.insert(session);
        Ok(())
    }

    /// Releases the barrier from a session that has gone, and says whether it was waited for.
    pub fn fence_departed_session(&mut self, session: NodeIncarnation) -> (waited: bool)
        ensures
            waited == old(self)@.required.contains(session),
            final(self)@ == old(self)@.departed(session),
    {
        self.required_sessions.remove(session)
    }

    pub fn is_complete(&self) -> (complete: bool)
        ensures
            complete == self@.complete(),
    {
        self.required_sessions.same(&self.applied_sessions)
    }

    /// The sessions that are waited for, in ascending order.
    pub fn required_sessions(&self) -> (sessions: Vec<NodeIncarnation>)
        ensures
            ascending(sessions@),
            sessions@.to_set() == self@.required,
    {
        self.required_sessions.to_vec()
    }
}

/// A barrier that is complete has the acknowledgement of every session that it waits for.
pub proof fn law_complete_barrier_is_acknowledged(
    barrier: HandoffBarrierModel,
    session: NodeIncarnation,
)
    requires
        barrier.complete(),
        barrier.required.contains(session),
    ensures
        barrier.applied.contains(session),
{
}

/// An acknowledgement counts once, and never shrinks what is waited for.
pub proof fn law_acknowledgement_is_idempotent(
    barrier: HandoffBarrierModel,
    session: NodeIncarnation,
)
    ensures
        barrier.acknowledged(session).acknowledged(session) == barrier.acknowledged(session),
        barrier.acknowledged(session).required == barrier.required,
{
    assert(barrier.acknowledged(session).acknowledged(session) =~= barrier.acknowledged(session));
}

/// When the last session that is waited for goes away before it acknowledges, the rest decides.
pub proof fn law_departure_releases_the_barrier(
    barrier: HandoffBarrierModel,
    session: NodeIncarnation,
)
    requires
        barrier.required == barrier.applied.insert(session),
        !barrier.applied.contains(session),
    ensures
        barrier.departed(session).complete(),
{
    assert(barrier.departed(session).required =~= barrier.applied);
}

} // verus!
