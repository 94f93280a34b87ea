//! Keeping claims and sessions alive, and what follows when they are not.
use vstd::prelude::*;

use crate::keymap::{option_view, seq_view, Key};
use crate::plan::lemma_filter_step;
use crate::runtime::allocation::is_placed;
use crate::runtime::errors::{
    one_more, outcome, CoordinatorRuntimeError, RuntimeErrorModel, StorageCounters, StorageError,
};
use crate::runtime::handoff::{
    ClaimLease, ClaimLeaseModel, HandoffEvent, HandoffEventModel, HandoffPhase,
};
use crate::runtime::handoffs::is_owner;
use crate::runtime::members::{AssociationKey, AssociationModel, SessionModel};
use crate::runtime::state::{LeaderModel, CoordinatorLeader};
use crate::sorted::{lemma_push_to_set, ranked, SortedSet};
use crate::time::TimeSpan;
use crate::types::{
    AssignmentGeneration, ClaimGrant, ClaimModel, EntityType, GrantSequence, NodeIncarnation,
    NodeKey, NodeModel, PlacementSlot, PlacementSlotKey, PlacementSlotState, PlacementVersion,
    SlotKeyModel, SlotModel,
};

verus! {

impl LeaderModel {
    /// The claim that a node is granted on a slot that it owns, given the claim that is stored;
    /// none if the slot is not placed there.
    pub open spec fn reconciled_claim(
        self,
        node: NodeModel,
        slot: SlotModel,
        previous: Option<ClaimModel>,
    ) -> Result<Option<ClaimModel>, RuntimeErrorModel> {
        let continued = previous is Some && previous->0.assignment_generation
            == slot.assignment_generation;
        let sequence = if continued {
            previous->0.grant_sequence.spec_next()
        } else {
            Some(GrantSequence(1))
        };
        if slot.owner != Some(node) || !is_placed(slot) {
            Ok(None)
        } else if sequence is None {
            Err(RuntimeErrorModel::ClaimSequence)
        } else {
            Ok(
                Some(
                    ClaimGrant {
                        domain: slot.key.spec_domain(),
                        slot: slot.key,
                        owner: node,
                        coordinator_term: self.term,
                        assignment_generation: slot.assignment_generation,
                        grant_sequence: sequence->0,
                        ttl: self.config.claim_ttl,
                    },
                ),
            )
        }
    }

    /// Whether a session has been silent for too long.
    pub open spec fn is_silent(self, session: SessionModel, now: TimeSpan) -> bool {
        now.length() - session.last_heartbeat.length()
            > self.config.member_heartbeat_timeout.length()
    }

    /// The sessions that have been silent for too long, in order.
    pub open spec fn silent_sessions(self, now: TimeSpan) -> Seq<NodeIncarnation> {
        ranked::<NodeIncarnation>(self.sessions.dom()).filter(
            |id: NodeIncarnation| self.is_silent(self.sessions[id], now),
        )
    }

    /// The sessions that are draining, in order.
    pub open spec fn draining_sessions(self) -> Seq<NodeIncarnation> {
        ranked::<NodeIncarnation>(self.sessions.dom()).filter(
            |id: NodeIncarnation| self.sessions[id].draining,
        )
    }

    /// The slots that are claimed by a session, in order.
    pub open spec fn claimed_by(self, id: NodeIncarnation) -> Seq<SlotKeyModel> {
        ranked::<PlacementSlotKey>(self.claims.dom()).filter(
            |key: SlotKeyModel| self.claims[key].grant.owner.incarnation == id,
        )
    }

    /// The handoffs whose barrier waits for a session, in order.
    pub open spec fn waiting_for(self, id: NodeIncarnation) -> Seq<SlotKeyModel> {
        ranked::<PlacementSlotKey>(self.handoffs.dom()).filter(
            |key: SlotKeyModel| self.handoffs[key].waits_for(id),
        )
    }

    /// The leader once a session and its claims are gone.
    pub open spec fn without_session(self, id: NodeIncarnation) -> LeaderModel {
        LeaderModel {
            sessions: self.sessions.remove(id),
            claims: Map::new(
                |key: SlotKeyModel|
                    self.claims.contains_key(key) && self.claims[key].grant.owner.incarnation != id,
                |key: SlotKeyModel| self.claims[key],
            ),
            ..self
        }
    }

    /// The connections of all sessions, in order.
    pub open spec fn connections(self) -> Seq<AssociationModel> {
        ranked::<NodeIncarnation>(self.sessions.dom()).map_values(
            |id: NodeIncarnation| self.sessions[id].association,
        )
    }

    /// Whether a handoff can go on once a node is connected.
    pub open spec fn resumes_with(self, key: SlotKeyModel, node: NodeModel) -> bool {
        let handoff = self.handoffs[key];
        ||| handoff.phase == HandoffPhase::Draining && (handoff.source == node || (handoff.target
            == node && key is Singleton && !self.sessions.contains_key(
            handoff.source.incarnation,
        )))
        ||| handoff.phase == HandoffPhase::ReplacingAuthority && handoff.target == node
    }

    /// The handoffs that can go on once a node is connected, in order.
    pub open spec fn resumable(self, node: NodeModel) -> Seq<SlotKeyModel> {
        ranked::<PlacementSlotKey>(self.handoffs.dom()).filter(
            |key: SlotKeyModel| self.resumes_with(key, node),
        )
    }
}

/// What a session leaves behind.
#[derive(Debug)]
pub struct SessionDeparture {
    pub lease_id: i64,
    pub node: NodeKey,
    /// The members that are told.
    pub told: Vec<AssociationKey>,
    /// The claims that are withdrawn.
    pub claims: Vec<ClaimLease>,
    /// The handoffs that need not wait any more.
    pub barriers: Vec<PlacementSlotKey>,
}

#[verifier::ext_equal]
pub struct DepartureModel {
    pub lease_id: i64,
    pub node: NodeModel,
    pub told: Seq<AssociationModel>,
    pub claims: Seq<ClaimLeaseModel>,
    pub barriers: Seq<SlotKeyModel>,
}

impl View for SessionDeparture {
    type V = DepartureModel;

    open spec fn view(&self) -> DepartureModel {
        DepartureModel {
            lease_id: self.lease_id,
            node: self.node@,
            told: seq_view(self.told@),
            claims: seq_view(self.claims@),
            barriers: seq_view(self.barriers@),
        }
    }
}

impl LeaderModel {
    /// What a session leaves behind.
    pub open spec fn departure(self, id: NodeIncarnation) -> Option<DepartureModel> {
        if self.sessions.contains_key(id) {
            Some(
                DepartureModel {
                    lease_id: self.sessions[id].lease_id,
                    node: self.sessions[id].hello.node,
                    told: self.without_session(id).connections(),
                    claims: self.claimed_by(id).map_values(|key: SlotKeyModel| self.claims[key]),
                    barriers: self.waiting_for(id),
                },
            )
        } else {
            None
        }
    }
}

/// How a handoff goes on.
#[allow(inconsistent_fields)]
#[derive(Debug)]
pub enum ResumeStep<S = String> {
    Nothing,
    /// The source is told again to stop.
    SendDrain {
        association: AssociationKey<S>,
        generation: AssignmentGeneration,
        version: PlacementVersion<S>,
    },
    Transition(HandoffEvent<S>),
    ReplaceAuthority,
}

pub type ResumeModel = ResumeStep<Seq<char>>;

impl View for ResumeStep {
    type V = ResumeModel;

    open spec fn view(&self) -> ResumeModel {
        match self {
            ResumeStep::Nothing => ResumeModel::Nothing,
            ResumeStep::SendDrain { association, generation, version } => ResumeModel::SendDrain {
                association: association@,
                generation: *generation,
                version: version@,
            },
            ResumeStep::Transition(event) => ResumeModel::Transition(event@),
            ResumeStep::ReplaceAuthority => ResumeModel::ReplaceAuthority,
        }
    }
}

impl LeaderModel {
    /// How a handoff goes on once a node is connected.
    pub open spec fn resumption(
        self,
        key: SlotKeyModel,
        node: NodeModel,
        slot: Option<SlotModel>,
        claim: Option<ClaimModel>,
    ) -> Result<ResumeModel, RuntimeErrorModel> {
        let handoff = self.handoffs[key];
        if !self.handoffs.contains_key(key) {
            Err(RuntimeErrorModel::UnknownHandoff)
        } else if handoff.phase == HandoffPhase::ReplacingAuthority {
            Ok(ResumeModel::ReplaceAuthority)
        } else if handoff.phase != HandoffPhase::Draining {
            Ok(ResumeModel::Nothing)
        } else if slot is None {
            Err(RuntimeErrorModel::UnknownSlot)
        } else if slot->0.state != PlacementSlotState::Stopping {
            Ok(ResumeModel::Nothing)
        } else if handoff.source == node {
            if self.sessions.contains_key(node.incarnation) {
                Ok(
                    ResumeModel::SendDrain {
                        association: self.sessions[node.incarnation].association,
                        generation: handoff.source_generation,
                        version: slot->0.version,
                    },
                )
            } else {
                Err(RuntimeErrorModel::UnknownSession)
            }
        } else if claim is None {
            Ok(
                ResumeModel::Transition(
                    HandoffEventModel::SourceAuthorityInvalid {
                        source: handoff.source,
                        generation: handoff.source_generation,
                    },
                ),
            )
        } else {
            Ok(ResumeModel::Nothing)
        }
    }
}

/// A claim by what it states, if there is one.
pub open spec fn claim_outcome(
    result: Result<Option<ClaimGrant>, CoordinatorRuntimeError>,
) -> Result<Option<ClaimModel>, RuntimeErrorModel> {
    match result {
        Ok(claim) => Ok(option_view(claim)),
        Err(error) => Err(error@),
    }
}

impl CoordinatorLeader {
    /// The claim that a node is granted on a slot that it owns, given the claim that is stored.
    pub fn reconcile_claim(
        &self,
        node: &NodeKey,
        slot: &PlacementSlot,
        previous: &Option<ClaimGrant>,
    ) -> (result: Result<Option<ClaimGrant>, CoordinatorRuntimeError>)
        ensures
            claim_outcome(result) == self@.reconciled_claim(node@, slot@, option_view(*previous)),
    {
        let placed = match slot.state {
            PlacementSlotState::Allocating => true,
            PlacementSlotState::Running => true,
            _ => false,
        };
        if !is_owner(slot, node) || !placed {
            return Ok(None);
        }
        let sequence = match previous {
            Some(claim) => if claim.assignment_generation == slot.assignment_generation {
                claim.grant_sequence.next()
            } else {
                Some(GrantSequence(1))
            },
            None => Some(GrantSequence(1)),
        };
        match sequence {
            None => Err(CoordinatorRuntimeError::ClaimSequence),
            Some(grant_sequence) => Ok(
                Some(
                    ClaimGrant {
                        domain: slot.key.domain().copy(),
                        slot: slot.key.copy(),
                        owner: node.copy(),
                        coordinator_term: self.term,
                        assignment_generation: slot.assignment_generation,
                        grant_sequence,
                        ttl: self.config.claim_ttl,
                    },
                ),
            ),
        }
    }

    /// The lease that a claim on a slot already lives by.
    pub fn claim_lease(&self, key: &PlacementSlotKey) -> (lease_id: Option<i64>)
        ensures
            lease_id == if self@.claims.contains_key(key@) {
                Some(self@.claims[key@].lease_id)
            } else {
                None
            },
    {
        match self.claims.get(key) {
            Some(claim) => Some(claim.lease_id),
            None => None,
        }
    }

    /// The sessions that have been silent for too long, in order.
    pub fn expired_sessions(&self, now: TimeSpan) -> (expired: Vec<NodeIncarnation>)
        ensures
            expired@ == self@.silent_sessions(now),
    {
        let len = self.sessions.len();
        let ghost ids = ranked::<NodeIncarnation>(self.sessions@.dom());
        let ghost silent = |id: NodeIncarnation| self@.is_silent(self@.sessions[id], now);
        let mut expired: Vec<NodeIncarnation> = Vec::new();
        let mut i: usize = 0;
        assert(ids.subrange(0, 0).filter(silent) =~= Seq::<NodeIncarnation>::empty()) by {
            reveal(Seq::filter);
        }
        while i < len
            invariant
                i <= len,
                len == ids.len(),
                ids == ranked::<NodeIncarnation>(self.sessions@.dom()),
                silent == (|id: NodeIncarnation| self@.is_silent(self@.sessions[id], now)),
                expired@ == ids.subrange(0, i as int).filter(silent),
            decreases len - i,
        {
            let (id, session) = self.sessions.entry_at(i);
            proof {
                lemma_filter_step(ids, silent, i as int);
            }
            let idle = now.saturating_sub(&session.last_heartbeat);
            if self.config.member_heartbeat_timeout.is_shorter_than(&idle) {
                expired.push(*id);
            }
            i = i + 1;
        }
        assert(ids.subrange(0, i as int) =~= ids);
        expired
    }

    /// The sessions that are draining, in order.
    pub fn leaving_sessions(&self) -> (leaving: Vec<NodeIncarnation>)
        ensures
            leaving@ == self@.draining_sessions(),
    {
        let len = self.sessions.len();
        let ghost ids = ranked::<NodeIncarnation>(self.sessions@.dom());
        let ghost draining = |id: NodeIncarnation| self@.sessions[id].draining;
        let mut leaving: Vec<NodeIncarnation> = Vec::new();
        let mut i: usize = 0;
        assert(ids.subrange(0, 0).filter(draining) =~= Seq::<NodeIncarnation>::empty()) by {
            reveal(Seq::filter);
        }
        while i < len
            invariant
                i <= len,
                len == ids.len(),
                ids == ranked::<NodeIncarnation>(self.sessions@.dom()),
                draining == (|id: NodeIncarnation| self@.sessions[id].draining),
                leaving@ == ids.subrange(0, i as int).filter(draining),
            decreases len - i,
        {
            let (id, session) = self.sessions.entry_at(i);
            proof {
                lemma_filter_step(ids, draining, i as int);
            }
            if session.draining {
                leaving.push(*id);
            }
            i = i + 1;
        }
        assert(ids.subrange(0, i as int) =~= ids);
        leaving
    }

    fn claimed_by(&self, id: NodeIncarnation) -> (keys: Vec<PlacementSlotKey>)
        ensures
            seq_view(keys@) == self@.claimed_by(id),
    {
        let len = self.claims.len();
        let ghost list = ranked::<PlacementSlotKey>(self.claims@.dom());
        let ghost owned = |key: SlotKeyModel| self@.claims[key].grant.owner.incarnation == id;
        let mut keys: Vec<PlacementSlotKey> = Vec::new();
        let mut i: usize = 0;
        assert(list.subrange(0, 0).filter(owned) =~= Seq::<SlotKeyModel>::empty()) by {
            reveal(Seq::filter);
        }
        assert(seq_view(keys@) =~= Seq::<SlotKeyModel>::empty());
        while i < len
            invariant
                i <= len,
                len == list.len(),
                list == ranked::<PlacementSlotKey>(self.claims@.dom()),
                owned == (|key: SlotKeyModel| self@.claims[key].grant.owner.incarnation == id),
                seq_view(keys@) == list.subrange(0, i as int).filter(owned),
            decreases len - i,
        {
            let (key, claim) = self.claims.entry_at(i);
            proof {
                lemma_filter_step(list, owned, i as int);
            }
            if claim.grant.owner.incarnation == id {
                let ghost before = seq_view(keys@);
                let copy = key.copy();
                keys.push(copy);
                assert(seq_view(keys@) =~= before.push(copy@));
            }
            i = i + 1;
        }
        assert(list.subrange(0, i as int) =~= list);
        keys
    }

    fn waiting_for(&self, id: NodeIncarnation) -> (keys: Vec<PlacementSlotKey>)
        ensures
            seq_view(keys@) == self@.waiting_for(id),
    {
        let len = self.handoffs.len();
        let ghost list = ranked::<PlacementSlotKey>(self.handoffs@.dom());
        let ghost waits = |key: SlotKeyModel| self@.handoffs[key].waits_for(id);
        let mut keys: Vec<PlacementSlotKey> = Vec::new();
        let mut i: usize = 0;
        assert(list.subrange(0, 0).filter(waits) =~= Seq::<SlotKeyModel>::empty()) by {
            reveal(Seq::filter);
        }
        assert(seq_view(keys@) =~= Seq::<SlotKeyModel>::empty());
        while i < len
            invariant
                i <= len,
                len == list.len(),
                list == ranked::<PlacementSlotKey>(self.handoffs@.dom()),
                waits == (|key: SlotKeyModel| self@.handoffs[key].waits_for(id)),
                seq_view(keys@) == list.subrange(0, i as int).filter(waits),
            decreases len - i,
        {
            let (key, handoff) = self.handoffs.entry_at(i);
            proof {
                lemma_filter_step(list, waits, i as int);
            }
            if handoff.waits_for(id) {
                let ghost before = seq_view(keys@);
                let copy = key.copy();
                keys.push(copy);
                assert(seq_view(keys@) =~= before.push(copy@));
            }
            i = i + 1;
        }
        assert(list.subrange(0, i as int) =~= list);
        keys
    }

    /// The handoffs that can go on once a node is connected, in order.
    pub fn resume_handoffs_for(&self, node: &NodeKey) -> (keys: Vec<PlacementSlotKey>)
        ensures
            seq_view(keys@) == self@.resumable(node@),
    {
        let len = self.handoffs.len();
        let ghost list = ranked::<PlacementSlotKey>(self.handoffs@.dom());
        let ghost resumes = |key: SlotKeyModel| self@.resumes_with(key, node@);
        let mut keys: Vec<PlacementSlotKey> = Vec::new();
        let mut i: usize = 0;
        assert(list.subrange(0, 0).filter(resumes) =~= Seq::<SlotKeyModel>::empty()) by {
            reveal(Seq::filter);
        }
        assert(seq_view(keys@) =~= Seq::<SlotKeyModel>::empty());
        while i < len
            invariant
                i <= len,
                len == list.len(),
                list == ranked::<PlacementSlotKey>(self.handoffs@.dom()),
                resumes == (|key: SlotKeyModel| self@.resumes_with(key, node@)),
                seq_view(keys@) == list.subrange(0, i as int).filter(resumes),
            decreases len - i,
        {
            let (key, handoff) = self.handoffs.entry_at(i);
            proof {
                lemma_filter_step(list, resumes, i as int);
            }
            let singleton = match key {
                PlacementSlotKey::Singleton { .. } => true,
                _ => false,
            };
            let drains = handoff.phase == HandoffPhase::Draining && (handoff.source.same(node) || (
            handoff.target.same(node) && singleton && !self.sessions.contains_key(
                &handoff.source.incarnation,
            )));
            if drains || (handoff.phase == HandoffPhase::ReplacingAuthority && handoff.target.same(
                node,
            )) {
                let ghost before = seq_view(keys@);
                let copy = key.copy();
                keys.push(copy);
                assert(seq_view(keys@) =~= before.push(copy@));
            }
            i = i + 1;
        }
        assert(list.subrange(0, i as int) =~= list);
        keys
    }

    fn connections(&self) -> (told: Vec<AssociationKey>)
        ensures
            seq_view(told@) == self@.connections(),
    {
        let len = self.sessions.len();
        let ghost ids = ranked::<NodeIncarnation>(self.sessions@.dom());
        let mut told: Vec<AssociationKey> = Vec::new();
        let mut i: usize = 0;
        while i < len
            invariant
                i <= len,
                len == ids.len(),
                ids == ranked::<NodeIncarnation>(self.sessions@.dom()),
                told.len() == i,
                forall|j: int|
                    0 <= j < i ==> (#[trigger] told@[j])@ == self@.sessions[ids[j]].association,
            decreases len - i,
        {
            let (_, session) = self.sessions.entry_at(i);
            told.push(session.association.copy());
            i = i + 1;
        }
        assert(seq_view(told@) =~= self@.connections());
        told
    }

    /// Drops a session with its claims, and says what it leaves behind.
    pub fn remove_session(&mut self, id: NodeIncarnation) -> (departure: Option<SessionDeparture>)
        ensures
            option_view(departure) == old(self)@.departure(id),
            final(self)@ == if old(self)@.sessions.contains_key(id) {
                old(self)@.without_session(id)
            } else {
                old(self)@
            },
    {
        let keys = self.claimed_by(id);
        let barriers = self.waiting_for(id);
        let _ = self.claims.len();
        let session = match self.sessions.take(&id) {
            None => {
                assert(self@ =~= old(self)@);
                return None;
            },
            Some(session) => session,
        };
        let told = self.connections();
        let ghost before = old(self)@.claims;
        let ghost list = old(self)@.claimed_by(id);
        proof {
            lemma_claimed(old(self)@, id);
            assert(self@.connections() =~= old(self)@.without_session(id).connections());
        }
        let ghost bare = self@;
        let mut claims: Vec<ClaimLease> = Vec::new();
        let mut i: usize = 0;
        assert(before.remove_keys(list.subrange(0, 0).to_set()) =~= before);
        while i < keys.len()
            invariant
                i <= keys.len(),
                seq_view(keys@) == list,
                list == old(self)@.claimed_by(id),
                before == old(self)@.claims,
                list.no_duplicates(),
                forall|k: int| 0 <= k < list.len() ==> before.contains_key(#[trigger] list[k]),
                self@ == (LeaderModel { claims: self@.claims, ..bare }),
                self@.claims == before.remove_keys(list.subrange(0, i as int).to_set()),
                claims.len() == i,
                forall|j: int| 0 <= j < i ==> (#[trigger] claims@[j])@ == before[list[j]],
            decreases keys.len() - i,
        {
            let key = &keys[i];
            proof {
                assert(seq_view(keys@)[i as int] == key@);
                let done = list.subrange(0, i as int);
                if done.contains(list[i as int]) {
                    let k = choose|k: int| 0 <= k < done.len() && done[k] == list[i as int];
                    assert(list[k] == list[i as int]);
                }
                assert(!done.to_set().contains(list[i as int]));
                assert(list.subrange(0, i + 1) =~= done.push(list[i as int]));
                lemma_push_to_set(done, list[i as int]);
                assert(before.contains_key(list[i as int]));
            }
            match self.claims.take(key) {
                Some(claim) => {
                    claims.push(claim);
                },
                None => {},
            }
            assert(self@.claims =~= before.remove_keys(list.subrange(0, i + 1).to_set()));
            i = i + 1;
        }
        proof {
            assert(list.subrange(0, i as int) =~= list);
            assert(self@.claims =~= old(self)@.without_session(id).claims) by {
                assert forall|key: SlotKeyModel| #[trigger] self@.claims.contains_key(key)
                    <==> old(self)@.without_session(id).claims.contains_key(key) by {
                    assert(list.to_set().contains(key) <==> list.contains(key));
                }
            }
            assert(seq_view(claims@) =~= list.map_values(|key: SlotKeyModel| before[key]));
        }
        Some(
            SessionDeparture {
                lease_id: session.lease_id,
                node: session.hello.node.copy(),
                told,
                claims,
                barriers,
            },
        )
    }

    /// How a handoff goes on once a node is connected.
    pub fn resume_handoff(
        &self,
        key: &PlacementSlotKey,
        node: &NodeKey,
        slot: &Option<PlacementSlot>,
        claim: &Option<ClaimGrant>,
    ) -> (result: Result<ResumeStep, CoordinatorRuntimeError>)
        ensures
            outcome(result) == self@.resumption(
                key@,
                node@,
                option_view(*slot),
                option_view(*claim),
            ),
    {
        let handoff = match self.handoffs.get(key) {
            None => {
                return Err(CoordinatorRuntimeError::UnknownHandoff);
            },
            Some(handoff) => handoff,
        };
        if handoff.phase == HandoffPhase::ReplacingAuthority {
            return Ok(ResumeStep::ReplaceAuthority);
        }
        if handoff.phase != HandoffPhase::Draining {
            return Ok(ResumeStep::Nothing);
        }
        let slot = match slot {
            None => {
                return Err(CoordinatorRuntimeError::UnknownSlot);
            },
            Some(slot) => slot,
        };
        if slot.state != PlacementSlotState::Stopping {
            return Ok(ResumeStep::Nothing);
        }
        if handoff.source.same(node) {
            return match self.sessions.get(&node.incarnation) {
                None => Err(CoordinatorRuntimeError::UnknownSession),
                Some(session) => Ok(
                    ResumeStep::SendDrain {
                        association: session.association.copy(),
                        generation: handoff.source_generation,
                        version: slot.version.copy(),
                    },
                ),
            };
        }
        if claim.is_none() {
            return Ok(
                ResumeStep::Transition(
                    HandoffEvent::SourceAuthorityInvalid {
                        source: handoff.source.copy(),
                        generation: handoff.source_generation,
                    },
                ),
            );
        }
        Ok(ResumeStep::Nothing)
    }

    /// Gives up the lease of the leader after a failure of the store.
    pub fn surrender_lease(&mut self, error: StorageError) -> (fault: CoordinatorRuntimeError)
        ensures
            fault@ == RuntimeErrorModel::Storage(error),
            final(self)@ == if error == StorageError::LeadershipLost {
                LeaderModel {
                    counters: StorageCounters {
                        leadership_loss_count: one_more(old(self)@.counters.leadership_loss_count),
                        ..old(self)@.counters
                    },
                    ..old(self)@
                }
            } else {
                old(self)@
            },
    {
        if error == StorageError::LeadershipLost {
            let mut counters = self.counters;
            counters.leadership_loss_count = counters.leadership_loss_count.saturating_add(1);
            self.counters = counters;
        }
        CoordinatorRuntimeError::Storage(error)
    }

    /// Takes note of how the renewal of a claim went: whether the claim is sent again.
    pub fn note_claim_renewal(
        &mut self,
        key: &PlacementSlotKey,
        renewal: &Result<(), StorageError>,
    ) -> (result: Result<bool, CoordinatorRuntimeError>)
        ensures
            match renewal {
                Ok(_) => outcome(result) == Ok::<_, RuntimeErrorModel>(true) && final(self)@
                    == old(self)@,
                Err(error) => if *error == StorageError::LeadershipLost {
                    outcome(result) == Err::<bool, _>(
                        RuntimeErrorModel::Storage(StorageError::LeadershipLost),
                    ) && final(self)@ == (LeaderModel {
                        counters: StorageCounters {
                            leadership_loss_count: one_more(
                                old(self)@.counters.leadership_loss_count,
                            ),
                            ..old(self)@.counters
                        },
                        ..old(self)@
                    })
                } else {
                    outcome(result) == Ok::<_, RuntimeErrorModel>(false) && final(self)@
                        == if old(self)@.reconciliation_focus.len()
                        >= old(self)@.limits.maximum_reconciliation_work_per_pass {
                        LeaderModel { reconciliation_focused: true, ..old(self)@ }
                    } else {
                        LeaderModel {
                            reconciliation_focus: old(self)@.reconciliation_focus.insert(key@),
                            ..old(self)@
                        }
                    }
                },
            },
    {
        match renewal {
            Ok(()) => Ok(true),
            Err(error) => if *error == StorageError::LeadershipLost {
                let mut counters = self.counters;
                counters.leadership_loss_count = counters.leadership_loss_count.saturating_add(1);
                self.counters = counters;
                Err(CoordinatorRuntimeError::Storage(StorageError::LeadershipLost))
            } else {
                self.focus_reconciliation(key);
                Ok(false)
            },
        }
    }
}

/// The claims of a session are claims, each listed once.
proof fn lemma_claimed(leader: LeaderModel, id: NodeIncarnation)
    requires
        ranked::<PlacementSlotKey>(leader.claims.dom()).to_set() == leader.claims.dom(),
        ranked::<PlacementSlotKey>(leader.claims.dom()).no_duplicates(),
    ensures
        leader.claimed_by(id).no_duplicates(),
        forall|k: int|
            0 <= k < leader.claimed_by(id).len() ==> leader.claims.contains_key(
                #[trigger] leader.claimed_by(id)[k],
            ),
        forall|key: SlotKeyModel| #[trigger]
            leader.claimed_by(id).contains(key) <==> leader.claims.contains_key(key)
                && leader.claims[key].grant.owner.incarnation == id,
{
    let list = ranked::<PlacementSlotKey>(leader.claims.dom());
    let owned = |key: SlotKeyModel| leader.claims[key].grant.owner.incarnation == id;
    lemma_filter_facts(list, owned);
    assert forall|k: int| 0 <= k < leader.claimed_by(id).len() implies leader.claims.contains_key(
        #[trigger] leader.claimed_by(id)[k],
    ) by {
        assert(leader.claimed_by(id).contains(leader.claimed_by(id)[k]));
        assert(list.to_set().contains(leader.claimed_by(id)[k]));
    }
    assert forall|key: SlotKeyModel| #[trigger] leader.claimed_by(id).contains(key)
        <==> leader.claims.contains_key(key) && leader.claims[key].grant.owner.incarnation
        == id by {
        assert(list.to_set().contains(key) <==> list.contains(key));
    }
}

/// Filtering keeps what passes, in order, and adds nothing.
pub proof fn lemma_filter_facts<A>(items: Seq<A>, keep: spec_fn(A) -> bool)
    ensures
        forall|x: A| #[trigger]
            items.filter(keep).contains(x) <==> items.contains(x) && keep(x),
        items.no_duplicates() ==> items.filter(keep).no_duplicates(),
    decreases items.len(),
{
    reveal(Seq::filter);
    if items.len() > 0 {
        let rest = items.drop_last();
        let last = items.last();
        lemma_filter_facts(rest, keep);
        assert(items =~= rest.push(last));
        let kept = rest.filter(keep);
        assert forall|x: A| items.contains(x) <==> rest.contains(x) || x == last by {
            if rest.contains(x) {
                let k = choose|k: int| 0 <= k < rest.len() && rest[k] == x;
                assert(items[k] == x);
            }
            assert(items[items.len() - 1] == last);
            if items.contains(x) && x != last {
                let k = choose|k: int| 0 <= k < items.len() && items[k] == x;
                assert(rest[k] == x);
            }
        }
        if keep(last) {
            assert(items.filter(keep) =~= kept.push(last));
            assert forall|x: A| #[trigger] items.filter(keep).contains(x) <==> items.contains(x)
                && keep(x) by {
                if kept.contains(x) {
                    let k = choose|k: int| 0 <= k < kept.len() && kept[k] == x;
                    assert(items.filter(keep)[k] == x);
                }
                assert(items.filter(keep)[kept.len() as int] == last);
                if items.filter(keep).contains(x) && x != last {
                    let k = choose|k: int|
                        0 <= k < items.filter(keep).len() && items.filter(keep)[k] == x;
                    assert(kept[k] == x);
                }
            }
            if items.no_duplicates() {
                assert(!rest.contains(last)) by {
                    if rest.contains(last) {
                        let k = choose|k: int| 0 <= k < rest.len() && rest[k] == last;
                        assert(items[k] == items[items.len() - 1]);
                    }
                }
                assert(rest.no_duplicates());
                assert(!kept.contains(last));
                assert(items.filter(keep).no_duplicates());
            }
        } else {
            assert(items.filter(keep) =~= kept);
            if items.no_duplicates() {
                assert(rest.no_duplicates());
            }
        }
    }
}

/// What is placed on a node: the entity types of its shards, and its singletons.
#[derive(Debug)]
pub struct LostSlots {
    pub entity_types: Vec<EntityType>,
    pub singletons: Vec<PlacementSlot>,
}

/// The entity types of the shards among some slots that a node owns.
pub open spec fn owned_entity_types(slots: Seq<SlotModel>, node: NodeModel) -> Set<Seq<char>> {
    Set::new(
        |entity_type: Seq<char>|
            exists|i: int|
                0 <= i < slots.len() && (#[trigger] slots[i]).owner == Some(node)
                    && slots[i].key is Shard && slots[i].key->entity_type == entity_type,
    )
}

/// The singletons among some slots that a node owns.
pub open spec fn owned_singletons(slots: Seq<SlotModel>, node: NodeModel) -> Seq<SlotModel> {
    slots.filter(|slot: SlotModel| slot.owner == Some(node) && slot.key is Singleton)
}

/// What a lost node leaves to be placed anew.
pub fn lost_slots(slots: &Vec<PlacementSlot>, node: &NodeKey) -> (lost: LostSlots)
    ensures
        seq_view(lost.entity_types@) == ranked::<String>(
            owned_entity_types(seq_view(slots@), node@),
        ),
        seq_view(lost.singletons@) == owned_singletons(seq_view(slots@), node@),
{
    let ghost all = seq_view(slots@);
    let ghost lone = |slot: SlotModel| slot.owner == Some(node@) && slot.key is Singleton;
    let mut entity_types: SortedSet<EntityType> = SortedSet::new();
    let mut singletons: Vec<PlacementSlot> = Vec::new();
    let mut i: usize = 0;
    assert(all.subrange(0, 0).filter(lone) =~= Seq::<SlotModel>::empty()) by {
        reveal(Seq::filter);
    }
    assert(seq_view(singletons@) =~= Seq::<SlotModel>::empty());
    assert(entity_types@ =~= owned_entity_types(all.subrange(0, 0), node@));
    while i < slots.len()
        invariant
            i <= slots.len(),
            all == seq_view(slots@),
            lone == (|slot: SlotModel| slot.owner == Some(node@) && slot.key is Singleton),
            seq_view(singletons@) == all.subrange(0, i as int).filter(lone),
            entity_types@ == owned_entity_types(all.subrange(0, i as int), node@),
        decreases slots.len() - i,
    {
        let slot = &slots[i];
        let ghost before = entity_types@;
        proof {
            assert(all[i as int] == slot@);
            lemma_filter_step(all, lone, i as int);
        }
        if is_owner(slot, node) {
            match &slot.key {
                PlacementSlotKey::Shard { domain: _, entity_type, shard_id: _ } => {
                    let _ = entity_types.insert(entity_type.copy());
                },
                PlacementSlotKey::Singleton { .. } => {
                    let ghost earlier = seq_view(singletons@);
                    let copy = slot.copy_slot();
                    singletons.push(copy);
                    assert(seq_view(singletons@) =~= earlier.push(copy@));
                },
            }
        }
        proof {
            let shorter = all.subrange(0, i as int);
            let longer = all.subrange(0, i + 1);
            assert forall|name: Seq<char>| entity_types@.contains(name) <==> owned_entity_types(
                longer,
                node@,
            ).contains(name) by {
                if before.contains(name) {
                    let k = choose|k: int|
                        0 <= k < shorter.len() && (#[trigger] shorter[k]).owner == Some(node@)
                            && shorter[k].key is Shard && shorter[k].key->entity_type == name;
                    assert(longer[k] == shorter[k]);
                }
                assert(longer[i as int] == slot@);
                if owned_entity_types(longer, node@).contains(name) {
                    let k = choose|k: int|
                        0 <= k < longer.len() && (#[trigger] longer[k]).owner == Some(node@)
                            && longer[k].key is Shard && longer[k].key->entity_type == name;
                    if k < i {
                        assert(shorter[k] == longer[k]);
                    }
                }
            }
            assert(entity_types@ =~= owned_entity_types(longer, node@));
        }
        i = i + 1;
    }
    assert(all.subrange(0, i as int) =~= all);
    LostSlots { entity_types: entity_types.to_vec(), singletons }
}

} // verus!
