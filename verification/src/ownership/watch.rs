//! Watch batches: globally ordered changes of the placement store, applied as a whole.
use vstd::prelude::*;

use crate::epoch_floor::{
    delete_fault, upsert_fault, KeyModel, OwnershipEpochFloorProof, OwnershipProofError,
    ProofModel, RecordModel,
};
use crate::keymap::{seq_view, Key, KeyMap};
use crate::ownership::snapshot::{
    authority_of, rejection_fence, removal_applies, removed_entry, InstanceModel,
};
use crate::ownership::{
    authority_fault, fault_of, floor_of, local_authorization_changed, local_view,
    validate_authority_progression, EntryModel, ErrorModel, LocalInstanceAuthority, LocalOwnershipSnapshot,
    LocalOwnershipState, OwnershipAuthorityFloor, OwnershipFenceReason, OwnershipRevision,
    OwnershipSnapshotError, SnapshotAvailability, SnapshotModel, StateModel, StoreObservation,
    VersionedRecord, MAX_OWNERSHIP_BATCH_EVENTS,
};
use crate::records::{
    ActorPlacementKey, ActorPlacementRecord, InstanceRecord, OwnershipKey, OwnershipRecordBinding,
    PlacementRevision, SingletonKey, SingletonPlacementRecord, VirtualShardPlacementKey,
    VirtualShardPlacementRecord,
};

verus! {

/// One change of the placement store.
#[allow(inconsistent_fields)]
#[derive(Debug, PartialEq, Eq)]
pub enum OwnershipWatchEvent {
    InstanceUpserted { record: InstanceRecord },
    InstanceDeleted { record: InstanceRecord },
    ActorUpserted {
        key: ActorPlacementKey,
        record: ActorPlacementRecord,
        proof: OwnershipEpochFloorProof,
    },
    ActorDeleted {
        key: ActorPlacementKey,
        previous_record: ActorPlacementRecord,
        proof: OwnershipEpochFloorProof,
    },
    VirtualShardUpserted {
        key: VirtualShardPlacementKey,
        record: VirtualShardPlacementRecord,
        proof: OwnershipEpochFloorProof,
    },
    VirtualShardDeleted {
        key: VirtualShardPlacementKey,
        previous_record: VirtualShardPlacementRecord,
        proof: OwnershipEpochFloorProof,
    },
    SingletonUpserted {
        key: SingletonKey,
        record: SingletonPlacementRecord,
        proof: OwnershipEpochFloorProof,
    },
    SingletonDeleted {
        key: SingletonKey,
        previous_record: SingletonPlacementRecord,
        proof: OwnershipEpochFloorProof,
    },
}

/// What a change says: an instance or a placement was written or deleted. The record of a
/// deleted placement is the last one it had.
pub enum EventModel {
    Instance { registration: InstanceModel, deleted: bool },
    Placement { key: KeyModel, record: RecordModel, proof: ProofModel, deleted: bool },
}

impl View for OwnershipWatchEvent {
    type V = EventModel;

    open spec fn view(&self) -> EventModel {
        match self {
            OwnershipWatchEvent::InstanceUpserted { record } => EventModel::Instance {
                registration: record@,
                deleted: false,
            },
            OwnershipWatchEvent::InstanceDeleted { record } => EventModel::Instance {
                registration: record@,
                deleted: true,
            },
            OwnershipWatchEvent::ActorUpserted { key, record, proof } => EventModel::Placement {
                key: OwnershipKey::Explicit(key@),
                record: OwnershipRecordBinding::Actor(record@),
                proof: proof@,
                deleted: false,
            },
            OwnershipWatchEvent::ActorDeleted {
                key,
                previous_record,
                proof,
            } => EventModel::Placement {
                key: OwnershipKey::Explicit(key@),
                record: OwnershipRecordBinding::Actor(previous_record@),
                proof: proof@,
                deleted: true,
            },
            OwnershipWatchEvent::VirtualShardUpserted {
                key,
                record,
                proof,
            } => EventModel::Placement {
                key: OwnershipKey::VirtualShard(key@),
                record: OwnershipRecordBinding::VirtualShard(record@),
                proof: proof@,
                deleted: false,
            },
            OwnershipWatchEvent::VirtualShardDeleted {
                key,
                previous_record,
                proof,
            } => EventModel::Placement {
                key: OwnershipKey::VirtualShard(key@),
                record: OwnershipRecordBinding::VirtualShard(previous_record@),
                proof: proof@,
                deleted: true,
            },
            OwnershipWatchEvent::SingletonUpserted { key, record, proof } => EventModel::Placement {
                key: OwnershipKey::Singleton(key@),
                record: OwnershipRecordBinding::Singleton(record@),
                proof: proof@,
                deleted: false,
            },
            OwnershipWatchEvent::SingletonDeleted {
                key,
                previous_record,
                proof,
            } => EventModel::Placement {
                key: OwnershipKey::Singleton(key@),
                record: OwnershipRecordBinding::Singleton(previous_record@),
                proof: proof@,
                deleted: true,
            },
        }
    }
}

/// The changes of one revision.
#[derive(Debug, PartialEq, Eq)]
pub struct OwnershipWatchBatch {
    pub revision: PlacementRevision,
    pub events: Vec<OwnershipWatchEvent>,
}

/// A change as the snapshot takes it.
#[allow(inconsistent_fields)]
enum Change<'a> {
    Instance { record: &'a InstanceRecord, deleted: bool },
    Placement {
        key: OwnershipKey,
        record: OwnershipRecordBinding,
        proof: &'a OwnershipEpochFloorProof,
        deleted: bool,
    },
}

impl<'a> Change<'a> {
    spec fn model(self) -> EventModel {
        match self {
            Change::Instance { record, deleted } => EventModel::Instance {
                registration: record@,
                deleted,
            },
            Change::Placement { key, record, proof, deleted } => EventModel::Placement {
                key: key@,
                record: record@,
                proof: proof@,
                deleted,
            },
        }
    }
}

impl OwnershipWatchEvent {
    fn change(&self) -> (change: Change<'_>)
        ensures
            change.model() == self@,
    {
        match self {
            OwnershipWatchEvent::InstanceUpserted { record } => Change::Instance {
                record,
                deleted: false,
            },
            OwnershipWatchEvent::InstanceDeleted { record } => Change::Instance {
                record,
                deleted: true,
            },
            OwnershipWatchEvent::ActorUpserted { key, record, proof } => Change::Placement {
                key: OwnershipKey::Explicit(key.copy()),
                record: OwnershipRecordBinding::Actor(record.copy()),
                proof,
                deleted: false,
            },
            OwnershipWatchEvent::ActorDeleted { key, previous_record, proof } => Change::Placement {
                key: OwnershipKey::Explicit(key.copy()),
                record: OwnershipRecordBinding::Actor(previous_record.copy()),
                proof,
                deleted: true,
            },
            OwnershipWatchEvent::VirtualShardUpserted { key, record, proof } => Change::Placement {
                key: OwnershipKey::VirtualShard(key.copy()),
                record: OwnershipRecordBinding::VirtualShard(record.copy()),
                proof,
                deleted: false,
            },
            OwnershipWatchEvent::VirtualShardDeleted {
                key,
                previous_record,
                proof,
            } => Change::Placement {
                key: OwnershipKey::VirtualShard(key.copy()),
                record: OwnershipRecordBinding::VirtualShard(previous_record.copy()),
                proof,
                deleted: true,
            },
            OwnershipWatchEvent::SingletonUpserted { key, record, proof } => Change::Placement {
                key: OwnershipKey::Singleton(key.copy()),
                record: OwnershipRecordBinding::Singleton(record.copy()),
                proof,
                deleted: false,
            },
            OwnershipWatchEvent::SingletonDeleted {
                key,
                previous_record,
                proof,
            } => Change::Placement {
                key: OwnershipKey::Singleton(key.copy()),
                record: OwnershipRecordBinding::Singleton(previous_record.copy()),
                proof,
                deleted: true,
            },
        }
    }
}

impl SnapshotModel {
    /// Whether a registration is one of this instance, whatever its incarnation.
    pub open spec fn is_own(self, registration: InstanceModel) -> bool {
        registration.service_kind == self.service_kind && registration.instance_id
            == self.instance_id
    }

    /// Whether an event is one of a registration of this instance.
    pub open spec fn is_own_instance(self, event: EventModel) -> bool {
        event matches EventModel::Instance { registration, .. } && self.is_own(registration)
    }

    /// Whether an event is one of a placement of this service.
    pub open spec fn is_own_placement(self, event: EventModel) -> bool {
        event matches EventModel::Placement { key, .. } && key.service() == self.service_kind
    }

    /// How many of the first `n` events concern placements of this service.
    pub open spec fn own_placements(self, events: Seq<EventModel>, n: int) -> nat
        decreases n,
    {
        if n <= 0 {
            0
        } else if self.is_own_placement(events[n - 1]) {
            self.own_placements(events, n - 1) + 1
        } else {
            self.own_placements(events, n - 1)
        }
    }

    /// Whether one of the first `n` events concerns this instance.
    pub open spec fn mentions_instance(self, events: Seq<EventModel>, n: int) -> bool {
        exists|j: int| 0 <= j < n && self.is_own_instance(#[trigger] events[j])
    }

    /// Whether one of the first `n` events concerns the placement under `key`.
    pub open spec fn mentions_key(self, events: Seq<EventModel>, n: int, key: KeyModel) -> bool {
        exists|j: int|
            0 <= j < n && self.is_own_placement(#[trigger] events[j]) && events[j]->key == key
    }

    /// Whether an event touches no placement that this instance answers for, neither as held nor
    /// as the event has it.
    pub open spec fn is_elsewhere(
        self,
        held: Map<KeyModel, EntryModel>,
        event: EventModel,
    ) -> bool {
        match event {
            EventModel::Placement { key, record, deleted, .. } => key.service()
                == self.service_kind ==> local_view(held, key) is None && (deleted
                || self.local_part(record) is None),
            _ => true,
        }
    }

    /// What is wrong with the event at `i` by itself and beside those before it.
    pub open spec fn event_fault(
        self,
        revision: PlacementRevision,
        events: Seq<EventModel>,
        i: int,
    ) -> Option<ErrorModel> {
        match events[i] {
            EventModel::Instance { registration, .. } => if self.is_own(registration)
                && self.mentions_instance(events, i) {
                Some(OwnershipSnapshotError::DuplicateInstanceEvent)
            } else {
                None
            },
            EventModel::Placement { key, record, proof, deleted } => {
                let proof_error = if deleted {
                    delete_fault(proof, revision, record)
                } else {
                    upsert_fault(proof, revision, record)
                };
                if key.service() != self.service_kind {
                    None
                } else if key != record.key() {
                    Some(
                        OwnershipSnapshotError::PlacementKeyMismatch {
                            event: Box::new(key),
                            record: Box::new(record.key()),
                        },
                    )
                } else if proof_error is Some {
                    Some(OwnershipSnapshotError::Proof { error: proof_error->0 })
                } else if self.own_placements(events, i + 1) > self.max_entries {
                    Some(self.capacity_error())
                } else if self.mentions_key(events, i, key) {
                    Some(OwnershipSnapshotError::DuplicatePlacementEvent { key: Box::new(key) })
                } else {
                    None
                }
            },
        }
    }

    /// The fault of the first faulty event among the first `n`.
    pub open spec fn first_event_fault(
        self,
        revision: PlacementRevision,
        events: Seq<EventModel>,
        n: int,
    ) -> Option<ErrorModel>
        decreases n,
    {
        if n <= 0 {
            None
        } else if self.first_event_fault(revision, events, n - 1) is Some {
            self.first_event_fault(revision, events, n - 1)
        } else {
            self.event_fault(revision, events, n - 1)
        }
    }

    /// What is wrong with a batch by itself.
    pub open spec fn batch_fault(
        self,
        revision: PlacementRevision,
        events: Seq<EventModel>,
    ) -> Option<ErrorModel> {
        if events.len() == 0 {
            Some(OwnershipSnapshotError::EmptyWatchBatch)
        } else if events.len() > MAX_OWNERSHIP_BATCH_EVENTS {
            Some(
                OwnershipSnapshotError::WatchBatchCapacityExceeded {
                    max_events: MAX_OWNERSHIP_BATCH_EVENTS,
                },
            )
        } else {
            self.first_event_fault(revision, events, events.len() as int)
        }
    }

    /// Whether an event takes the authority away under which this instance owns.
    pub open spec fn ends_authority(self, event: EventModel) -> bool {
        match event {
            EventModel::Instance { registration, deleted } => self.is_own(registration) && (deleted
                || self.state.replaces_authority(registration)),
            _ => false,
        }
    }

    pub open spec fn lifecycle_fences(self, events: Seq<EventModel>) -> bool {
        exists|j: int| 0 <= j < events.len() && self.ends_authority(#[trigger] events[j])
    }

    /// What is wrong with an event beside what is held; `fences` says whether the batch
    /// ends the authority of this instance.
    pub open spec fn progression_fault(self, event: EventModel, fences: bool) -> Option<ErrorModel> {
        match event {
            EventModel::Placement { key, record, proof, deleted } => {
                let held = self.state.placements;
                if key.service() != self.service_kind {
                    None
                } else if deleted {
                    if held.contains_key(key) && held[key].version == OwnershipRevision(
                        proof.record_revision.0,
                    ) && held[key].authority == floor_of(record) && held[key].observation.stored()
                        == Some(record) {
                        None
                    } else {
                        Some(
                            OwnershipSnapshotError::Proof {
                                error: OwnershipProofError::DeletePreviousMismatch { key },
                            },
                        )
                    }
                } else if held.contains_key(key) {
                    authority_fault(
                        key,
                        held[key].authority,
                        floor_of(record),
                        held[key].observation is Absent || ((
                        held[key].observation is LifecycleFenced || fences) && record.spec_owner()
                            == self.instance_id),
                    )
                } else {
                    None
                }
            },
            _ => None,
        }
    }

    /// The first fault of the first `n` events beside what is held.
    pub open spec fn first_progression_fault(
        self,
        events: Seq<EventModel>,
        fences: bool,
        n: int,
    ) -> Option<ErrorModel>
        decreases n,
    {
        if n <= 0 {
            None
        } else if self.first_progression_fault(events, fences, n - 1) is Some {
            self.first_progression_fault(events, fences, n - 1)
        } else {
            self.progression_fault(events[n - 1], fences)
        }
    }

    /// Why a batch is refused before anything of it is staged.
    pub open spec fn admission_fault(
        self,
        revision: PlacementRevision,
        events: Seq<EventModel>,
    ) -> Option<ErrorModel> {
        if self.batch_fault(revision, events) is Some {
            self.batch_fault(revision, events)
        } else {
            self.first_progression_fault(
                events,
                self.lifecycle_fences(events),
                events.len() as int,
            )
        }
    }

    /// What an event of the registration of this instance does to the state.
    pub open spec fn instance_staged(self, state: StateModel, event: EventModel) -> StateModel {
        match event {
            EventModel::Instance { registration, deleted } => if !self.is_own(registration) {
                state
            } else if deleted || registration.incarnation != self.incarnation {
                StateModel {
                    instance: None,
                    ..state.placements_fenced().leases_cleared().unavailable(
                        OwnershipFenceReason::LeaseLost,
                    )
                }
            } else if state.instance is Some && !state.replaces_authority(registration) {
                StateModel { instance: Some(authority_of(registration)), ..state }
            } else {
                StateModel {
                    instance: Some(authority_of(registration)),
                    ..state.placements_fenced().leases_cleared().unavailable(
                        OwnershipFenceReason::Initializing,
                    )
                }
            },
            _ => state,
        }
    }

    /// The state once the instance events among the first `n` are staged.
    pub open spec fn instances_staged(
        self,
        state: StateModel,
        events: Seq<EventModel>,
        n: int,
    ) -> StateModel
        decreases n,
    {
        if n <= 0 {
            state
        } else {
            self.instance_staged(self.instances_staged(state, events, n - 1), events[n - 1])
        }
    }

    /// Whether a placement event changes what this instance answers for.
    pub open spec fn placement_changes(
        self,
        state: StateModel,
        revision: OwnershipRevision,
        event: EventModel,
    ) -> bool {
        match event {
            EventModel::Placement { key, record, deleted, .. } => if key.service()
                != self.service_kind {
                false
            } else if deleted {
                removal_applies(state.placements, key, revision) && local_view(
                    state.placements,
                    key,
                ) is Some
            } else {
                local_view(state.placements, key) != self.local_part(record)
            },
            _ => false,
        }
    }

    /// Whether there is no room for what a placement event brings.
    pub open spec fn placement_overflows(self, state: StateModel, event: EventModel) -> bool {
        match event {
            EventModel::Placement { key, deleted, .. } => key.service() == self.service_kind
                && !deleted && !state.placements.contains_key(key) && state.entry_count()
                >= self.max_entries,
            _ => false,
        }
    }

    /// What a placement event for which there is room does to the state.
    pub open spec fn placement_staged(
        self,
        state: StateModel,
        revision: OwnershipRevision,
        event: EventModel,
    ) -> StateModel {
        match event {
            EventModel::Placement { key, record, deleted, .. } => if key.service()
                != self.service_kind {
                state
            } else if deleted {
                if removal_applies(state.placements, key, revision) {
                    state.with_placement(key, removed_entry(state.placements[key], revision))
                } else {
                    state
                }
            } else {
                state.with_placement(key, self.present_entry(record, revision))
            },
            _ => state,
        }
    }

    /// The state once the placement events among the first `n` are staged.
    pub open spec fn placements_staged(
        self,
        state: StateModel,
        revision: OwnershipRevision,
        events: Seq<EventModel>,
        n: int,
    ) -> StateModel
        decreases n,
    {
        if n <= 0 {
            state
        } else {
            self.placement_staged(
                self.placements_staged(state, revision, events, n - 1),
                revision,
                events[n - 1],
            )
        }
    }

    /// Whether one of the first `n` placement events finds no room.
    pub open spec fn overflows(
        self,
        state: StateModel,
        revision: OwnershipRevision,
        events: Seq<EventModel>,
        n: int,
    ) -> bool
        decreases n,
    {
        n > 0 && (self.overflows(state, revision, events, n - 1) || self.placement_overflows(
            self.placements_staged(state, revision, events, n - 1),
            events[n - 1],
        ))
    }

    /// Whether one of the first `n` placement events changes what this instance answers for.
    pub open spec fn placements_change(
        self,
        state: StateModel,
        revision: OwnershipRevision,
        events: Seq<EventModel>,
        n: int,
    ) -> bool
        decreases n,
    {
        n > 0 && (self.placements_change(state, revision, events, n - 1) || self.placement_changes(
            self.placements_staged(state, revision, events, n - 1),
            revision,
            events[n - 1],
        ))
    }

    /// The state in which the placement events of a batch are staged: the revision is
    /// taken, and the instance events are staged before any placement.
    pub open spec fn staging_base(
        self,
        revision: OwnershipRevision,
        events: Seq<EventModel>,
    ) -> StateModel {
        self.instances_staged(
            StateModel { revision: Some(revision), ..self.state },
            events,
            events.len() as int,
        )
    }

    /// Whether a batch changes what this instance answers for.
    pub open spec fn batch_changes(
        self,
        revision: OwnershipRevision,
        events: Seq<EventModel>,
    ) -> bool {
        self.mentions_instance(events, events.len() as int) || self.placements_change(
            self.staging_base(revision, events),
            revision,
            events,
            events.len() as int,
        )
    }

    /// What an admitted batch does to the state.
    pub open spec fn batch_staged(
        self,
        revision: OwnershipRevision,
        events: Seq<EventModel>,
    ) -> StateModel {
        let staged = self.placements_staged(
            self.staging_base(revision, events),
            revision,
            events,
            events.len() as int,
        );
        if self.batch_changes(revision, events) || self.state.availability
            == SnapshotAvailability::Unavailable(OwnershipFenceReason::Resyncing) {
            staged.bumped()
        } else {
            staged
        }
    }

    /// Why a batch is refused, if it is.
    pub open spec fn rejection(
        self,
        revision: PlacementRevision,
        events: Seq<EventModel>,
    ) -> Option<ErrorModel> {
        let incoming = OwnershipRevision(revision.0);
        if self.admission_fault(revision, events) is Some {
            self.admission_fault(revision, events)
        } else if self.overflows(
            self.staging_base(incoming, events),
            incoming,
            events,
            events.len() as int,
        ) {
            Some(self.capacity_error())
        } else {
            None
        }
    }
}

impl LocalOwnershipSnapshot {
    fn is_own_record(&self, record: &InstanceRecord) -> (own: bool)
        ensures
            own == self@.is_own(record@),
    {
        record.service_kind.same(&self.service_kind) && record.instance_id.same(&self.instance_id)
    }

    /// Checks each event of a batch by itself and beside those before it.
    pub fn validate_watch_events(
        &self,
        revision: PlacementRevision,
        events: &Vec<OwnershipWatchEvent>,
    ) -> (result: Result<(), OwnershipSnapshotError>)
        ensures
            fault_of(result) == self@.batch_fault(revision, seq_view(events@)),
    {
        let ghost model = seq_view(events@);
        if events.len() == 0 {
            return Err(OwnershipSnapshotError::EmptyWatchBatch);
        }
        if events.len() > MAX_OWNERSHIP_BATCH_EVENTS {
            return Err(
                OwnershipSnapshotError::WatchBatchCapacityExceeded {
                    max_events: MAX_OWNERSHIP_BATCH_EVENTS,
                },
            );
        }
        let mut saw_instance = false;
        let mut seen: KeyMap<OwnershipKey, bool> = KeyMap::new();
        let mut relevant: usize = 0;
        let mut i: usize = 0;
        while i < events.len()
            invariant
                i <= events.len(),
                events.len() <= MAX_OWNERSHIP_BATCH_EVENTS,
                model == seq_view(events@),
                saw_instance == self@.mentions_instance(model, i as int),
                forall|k: KeyModel|
                    #[trigger] seen@.contains_key(k) == self@.mentions_key(model, i as int, k),
                relevant == self@.own_placements(model, i as int),
                relevant <= i,
                self@.first_event_fault(revision, model, i as int) is None,
            decreases events.len() - i,
        {
            let ghost at = i as int;
            assert(model[at] == events@[at]@);
            let ghost earlier = seen@;
            proof {
                lemma_first_event_fault(self@, revision, model, at, model.len() as int);
            }
            match events[i].change() {
                Change::Instance { record, .. } => {
                    if self.is_own_record(record) {
                        if saw_instance {
                            return Err(OwnershipSnapshotError::DuplicateInstanceEvent);
                        }
                        saw_instance = true;
                        assert(self@.mentions_instance(model, at + 1)) by {
                            assert(self@.is_own_instance(model[at]));
                        }
                    }
                    assert forall|k: KeyModel| #[trigger] seen@.contains_key(k)
                        == self@.mentions_key(model, at + 1, k) by {
                        lemma_mentions_key(self@, model, at, k);
                    }
                },
                Change::Placement { key, record, proof, deleted } => {
                    if key.service_kind().same(&self.service_kind) {
                        let record_key = record.epoch_key();
                        if !key.same(&record_key) {
                            return Err(
                                OwnershipSnapshotError::PlacementKeyMismatch {
                                    event: Box::new(key),
                                    record: Box::new(record_key),
                                },
                            );
                        }
                        let checked = if deleted {
                            proof.validate_delete(revision, &record)
                        } else {
                            proof.validate_upsert(revision, &record)
                        };
                        match checked {
                            Err(error) => {
                                return Err(OwnershipSnapshotError::Proof { error });
                            },
                            Ok(()) => {},
                        }
                        relevant = relevant + 1;
                        if relevant > self.max_entries {
                            return Err(
                                OwnershipSnapshotError::CapacityExceeded {
                                    max_entries: self.max_entries,
                                },
                            );
                        }
                        if seen.contains_key(&key) {
                            return Err(
                                OwnershipSnapshotError::DuplicatePlacementEvent {
                                    key: Box::new(key),
                                },
                            );
                        }
                        seen.insert(key, true);
                    }
                    assert forall|k: KeyModel| #[trigger] seen@.contains_key(k)
                        == self@.mentions_key(model, at + 1, k) by {
                        lemma_mentions_key(self@, model, at, k);
                        assert(earlier.contains_key(k) == self@.mentions_key(model, at, k));
                    }
                },
            }
            proof {
                lemma_mentions_instance(self@, model, at);
            }
            i = i + 1;
        }
        Ok(())
    }
}

proof fn lemma_mentions_key(
    snapshot: SnapshotModel,
    events: Seq<EventModel>,
    at: int,
    key: KeyModel,
)
    requires
        0 <= at < events.len(),
    ensures
        snapshot.mentions_key(events, at + 1, key) == (snapshot.mentions_key(events, at, key) || (
        snapshot.is_own_placement(events[at]) && events[at]->key == key)),
{
    if snapshot.mentions_key(events, at, key) {
        let j = choose|j: int|
            0 <= j < at && snapshot.is_own_placement(#[trigger] events[j]) && events[j]->key == key;
        assert(snapshot.is_own_placement(events[j]));
    }
    if snapshot.is_own_placement(events[at]) && events[at]->key == key {
        assert(snapshot.mentions_key(events, at + 1, key));
    }
}

proof fn lemma_mentions_instance(snapshot: SnapshotModel, events: Seq<EventModel>, at: int)
    requires
        0 <= at < events.len(),
    ensures
        snapshot.mentions_instance(events, at + 1) == (snapshot.mentions_instance(events, at)
            || snapshot.is_own_instance(events[at])),
{
    if snapshot.mentions_instance(events, at) {
        let j = choose|j: int| 0 <= j < at && snapshot.is_own_instance(#[trigger] events[j]);
        assert(snapshot.is_own_instance(events[j]));
    }
    if snapshot.is_own_instance(events[at]) {
        assert(snapshot.mentions_instance(events, at + 1));
    }
}

/// The first fault of a prefix is the first fault of every longer prefix.
proof fn lemma_first_event_fault(
    snapshot: SnapshotModel,
    revision: PlacementRevision,
    events: Seq<EventModel>,
    at: int,
    n: int,
)
    requires
        0 <= at < n,
        snapshot.first_event_fault(revision, events, at) is None,
        n <= events.len(),
    ensures
        snapshot.event_fault(revision, events, at) is Some ==> snapshot.first_event_fault(
            revision,
            events,
            n,
        ) == snapshot.event_fault(revision, events, at),
    decreases n,
{
    if n > at + 1 {
        lemma_first_event_fault(snapshot, revision, events, at, n - 1);
    }
}

impl LocalOwnershipSnapshot {
    /// Whether the batch ends the authority under which this instance owns.
    fn batch_ends_authority(&self, events: &Vec<OwnershipWatchEvent>) -> (fences: bool)
        ensures
            fences == self@.lifecycle_fences(seq_view(events@)),
    {
        let ghost model = seq_view(events@);
        let mut i: usize = 0;
        while i < events.len()
            invariant
                i <= events.len(),
                model == seq_view(events@),
                forall|j: int| 0 <= j < i ==> !self@.ends_authority(#[trigger] model[j]),
            decreases events.len() - i,
        {
            assert(model[i as int] == events@[i as int]@);
            match events[i].change() {
                Change::Instance { record, deleted } => {
                    if self.is_own_record(record) {
                        let replaced = match &self.state.instance {
                            Some(current) => current.lease_id != record.lease_id
                                || !current.incarnation.same(&record.incarnation),
                            None => false,
                        };
                        if deleted || replaced {
                            assert(self@.ends_authority(model[i as int]));
                            return true;
                        }
                    }
                },
                Change::Placement { .. } => {},
            }
            i = i + 1;
        }
        false
    }

    /// Checks that a deletion speaks of exactly what is held under its key.
    fn validate_delete_previous(
        &self,
        key: &OwnershipKey,
        previous: &OwnershipRecordBinding,
        proof: &OwnershipEpochFloorProof,
    ) -> (result: Result<(), OwnershipSnapshotError>)
        requires
            key@.service() == self@.service_kind,
        ensures
            fault_of(result) == self@.progression_fault(
                EventModel::Placement {
                    key: key@,
                    record: previous@,
                    proof: proof@,
                    deleted: true,
                },
                false,
            ),
    {
        let authority = OwnershipAuthorityFloor::of(previous);
        let matches = match self.state.placements.get(key) {
            None => false,
            Some(current) => {
                let held = match current.observation.store_present_record() {
                    Some(record) => record.same(previous),
                    None => false,
                };
                current.version.0 == proof.record_revision().0 && current.authority.same(&authority)
                    && held
            },
        };
        if matches {
            Ok(())
        } else {
            Err(
                OwnershipSnapshotError::Proof {
                    error: OwnershipProofError::DeletePreviousMismatch { key: key.copy() },
                },
            )
        }
    }

    /// Checks each event of a batch beside what is held.
    pub fn validate_watch_epoch_progression(&self, events: &Vec<OwnershipWatchEvent>) -> (result:
        Result<(), OwnershipSnapshotError>)
        ensures
            fault_of(result) == self@.first_progression_fault(
                seq_view(events@),
                self@.lifecycle_fences(seq_view(events@)),
                events@.len() as int,
            ),
    {
        let ghost model = seq_view(events@);
        let fences = self.batch_ends_authority(events);
        let mut i: usize = 0;
        while i < events.len()
            invariant
                i <= events.len(),
                model == seq_view(events@),
                fences == self@.lifecycle_fences(model),
                self@.first_progression_fault(model, fences, i as int) is None,
            decreases events.len() - i,
        {
            let ghost at = i as int;
            assert(model[at] == events@[at]@);
            proof {
                lemma_first_progression_fault(self@, model, fences, at, model.len() as int);
            }
            match events[i].change() {
                Change::Instance { .. } => {},
                Change::Placement { key, record, proof, deleted } => {
                    if key.service_kind().same(&self.service_kind) {
                        let checked = if deleted {
                            self.validate_delete_previous(&key, &record, proof)
                        } else {
                            match self.state.placements.get(&key) {
                                Some(current) => validate_authority_progression(
                                    key,
                                    &current.authority,
                                    &OwnershipAuthorityFloor::of(&record),
                                    current.observation.is_absent() || ((
                                    current.observation.is_lifecycle_fenced() || fences)
                                        && record.owner().same(&self.instance_id)),
                                ),
                                None => Ok(()),
                            }
                        };
                        match checked {
                            Err(error) => {
                                return Err(error);
                            },
                            Ok(()) => {},
                        }
                    }
                },
            }
            i = i + 1;
        }
        Ok(())
    }

    /// Stages an event of the registration of this instance.
    fn stage_instance(&self, state: &mut LocalOwnershipState, record: &InstanceRecord, deleted: bool)
        requires
            self@.is_own(record@),
        ensures
            final(state)@ == self@.instance_staged(
                old(state)@,
                EventModel::Instance { registration: record@, deleted },
            ),
    {
        let ghost event = EventModel::Instance { registration: record@, deleted };
        let authority = LocalInstanceAuthority {
            lease_id: record.lease_id,
            incarnation: record.incarnation.copy(),
            state: record.state,
        };
        if deleted || !record.incarnation.same(&self.instance_incarnation) {
            state.fence_local_placements_for_lifecycle();
            state.clear_leases();
            state.make_unavailable(OwnershipFenceReason::LeaseLost);
            state.instance = None;
            assert(state@ =~= self@.instance_staged(old(state)@, event));
            return ;
        }
        let same_authority = match &state.instance {
            Some(current) => current.lease_id == record.lease_id && current.incarnation.same(
                &record.incarnation,
            ),
            None => false,
        };
        if same_authority {
            // Explicit keepalive validity of the current lease is kept: a registry event is
            // not evidence that local keepalive is live.
            state.instance = Some(authority);
        } else {
            state.fence_local_placements_for_lifecycle();
            state.clear_leases();
            state.make_unavailable(OwnershipFenceReason::Initializing);
            state.instance = Some(authority);
        }
        assert(state@ =~= self@.instance_staged(old(state)@, event));
    }

    /// Stages a written placement; says whether it changes what this instance answers for.
    fn stage_upsert(
        &self,
        state: &mut LocalOwnershipState,
        key: OwnershipKey,
        record: OwnershipRecordBinding,
        revision: OwnershipRevision,
    ) -> (result: Result<bool, OwnershipSnapshotError>)
        ensures
            match result {
                Ok(changed) => (old(state)@.placements.contains_key(key@)
                    || old(state)@.entry_count() < self@.max_entries) && changed == (local_view(
                    old(state)@.placements,
                    key@,
                ) != self@.local_part(record@)) && final(state)@ == old(state)@.with_placement(
                    key@,
                    self@.present_entry(record@, revision),
                ),
                Err(error) => !old(state)@.placements.contains_key(key@) && old(
                    state,
                )@.entry_count() >= self@.max_entries && error@ == self@.capacity_error(),
            },
    {
        let is_local = record.owner().same(&self.instance_id);
        if !state.placements.contains_key(&key) && state.entry_count() >= self.max_entries {
            return Err(OwnershipSnapshotError::CapacityExceeded { max_entries: self.max_entries });
        }
        let changed = local_authorization_changed(
            state.placements.get(&key),
            if is_local {
                Some(&record)
            } else {
                None
            },
        );
        let authority = OwnershipAuthorityFloor::of(&record);
        state.put(
            key,
            VersionedRecord {
                version: revision,
                authority,
                observation: StoreObservation::present(record, is_local),
            },
        );
        Ok(changed)
    }

    /// Stages a batch: the instance first, so that a new lease has the same result
    /// whatever the order of the events; then the placements. Says whether anything that
    /// this instance answers for has changed.
    fn stage_watch_events(
        &self,
        state: &mut LocalOwnershipState,
        revision: OwnershipRevision,
        events: &Vec<OwnershipWatchEvent>,
    ) -> (result: Result<bool, OwnershipSnapshotError>)
        ensures
            ({
                let model = seq_view(events@);
                let n = model.len() as int;
                let base = self@.instances_staged(old(state)@, model, n);
                match result {
                    Ok(changed) => {
                        &&& !self@.overflows(base, revision, model, n)
                        &&& changed == (self@.mentions_instance(model, n)
                            || self@.placements_change(base, revision, model, n))
                        &&& final(state)@ == self@.placements_staged(base, revision, model, n)
                    },
                    Err(error) => self@.overflows(base, revision, model, n) && error@
                        == self@.capacity_error(),
                }
            }),
    {
        let ghost model = seq_view(events@);
        let ghost n = model.len() as int;
        let ghost start = state@;
        let ghost base = self@.instances_staged(start, model, n);
        let mut changed = false;
        let mut i: usize = 0;
        while i < events.len()
            invariant
                i <= events.len(),
                model == seq_view(events@),
                state@ == self@.instances_staged(start, model, i as int),
                changed == self@.mentions_instance(model, i as int),
            decreases events.len() - i,
        {
            assert(model[i as int] == events@[i as int]@);
            match events[i].change() {
                Change::Instance { record, deleted } => {
                    if self.is_own_record(record) {
                        self.stage_instance(state, record, deleted);
                        changed = true;
                    }
                },
                Change::Placement { .. } => {},
            }
            proof {
                lemma_mentions_instance(self@, model, i as int);
            }
            i = i + 1;
        }
        let ghost instance_changed = changed;
        let mut k: usize = 0;
        while k < events.len()
            invariant
                k <= events.len(),
                model == seq_view(events@),
                n == model.len(),
                base == self@.instances_staged(start, model, n),
                start == old(state)@,
                state@ == self@.placements_staged(base, revision, model, k as int),
                instance_changed == self@.mentions_instance(model, n),
                !self@.overflows(base, revision, model, k as int),
                changed == (instance_changed || self@.placements_change(
                    base,
                    revision,
                    model,
                    k as int,
                )),
            decreases events.len() - k,
        {
            let ghost at = k as int;
            assert(model[at] == events@[at]@);
            let ghost before = state@;
            match events[k].change() {
                Change::Instance { .. } => {},
                Change::Placement { key, record, deleted, .. } => {
                    if key.service_kind().same(&self.service_kind) {
                        if deleted {
                            let (_, revoked) = state.apply_removal(&key, revision);
                            if revoked {
                                changed = true;
                            }
                        } else {
                            match self.stage_upsert(state, key, record, revision) {
                                Err(error) => {
                                    proof {
                                        assert(self@.placement_overflows(before, model[at]));
                                        lemma_overflows_monotone(
                                            self@,
                                            base,
                                            revision,
                                            model,
                                            at + 1,
                                            n,
                                        );
                                    }
                                    return Err(error);
                                },
                                Ok(revoked) => {
                                    if revoked {
                                        changed = true;
                                    }
                                },
                            }
                        }
                    }
                },
            }
            k = k + 1;
        }
        Ok(changed)
    }

    /// Applies one globally ordered watch revision as a single local state change.
    ///
    /// Events for other services and instances are ignored because ownership
    /// watches may cover a prefix shared by many service instances. All relevant
    /// events are validated before a staged state is committed. An invalid or
    /// over-capacity batch leaves the prior records and revision intact and
    /// fences the snapshot.
    pub fn apply_watch_batch(&mut self, batch: OwnershipWatchBatch) -> (result: Result<
        bool,
        OwnershipSnapshotError,
    >)
        ensures
            ({
                let before = old(self)@;
                let incoming = OwnershipRevision(batch.revision.0);
                let events = seq_view(batch.events@);
                match result {
                    Ok(applied) => {
                        &&& applied == !before.state.has_seen(incoming)
                        &&& applied ==> before.rejection(batch.revision, events) is None
                        &&& final(self)@ == if applied {
                            before.with_state(before.batch_staged(incoming, events))
                        } else {
                            before
                        }
                    },
                    Err(error) => {
                        &&& !before.state.has_seen(incoming)
                        &&& before.rejection(batch.revision, events) == Some(error@)
                        &&& final(self)@ == before.with_state(
                            before.state.unavailable(rejection_fence(error@)).bumped(),
                        )
                    },
                }
            }),
    {
        let incoming = OwnershipRevision(batch.revision.0);
        if self.state.has_seen_revision(incoming) {
            return Ok(false);
        }
        match self.validate_watch_events(batch.revision, &batch.events) {
            Err(error) => {
                self.fence_rejected(&error);
                return Err(error);
            },
            Ok(()) => {},
        }
        match self.validate_watch_epoch_progression(&batch.events) {
            Err(error) => {
                self.fence_rejected(&error);
                return Err(error);
            },
            Ok(()) => {},
        }
        let invalidate_resync = match self.state.availability {
            SnapshotAvailability::Unavailable(OwnershipFenceReason::Resyncing) => true,
            _ => false,
        };
        let mut staged = self.state.copy_state();
        staged.revision = Some(incoming);
        assert(staged@ =~= StateModel { revision: Some(incoming), ..self.state@ });
        match self.stage_watch_events(&mut staged, incoming, &batch.events) {
            Err(error) => {
                self.fence_rejected(&error);
                return Err(error);
            },
            Ok(changed) => {
                if changed || invalidate_resync {
                    staged.bump_generation();
                }
                self.state = staged;
                assert(self@ =~= old(self)@.with_state(
                    old(self)@.batch_staged(incoming, seq_view(batch.events@)),
                ));
                Ok(true)
            },
        }
    }
}

proof fn lemma_first_progression_fault(
    snapshot: SnapshotModel,
    events: Seq<EventModel>,
    fences: bool,
    at: int,
    n: int,
)
    requires
        0 <= at < n,
        snapshot.first_progression_fault(events, fences, at) is None,
        n <= events.len(),
    ensures
        snapshot.progression_fault(events[at], fences) is Some
            ==> snapshot.first_progression_fault(events, fences, n) == snapshot.progression_fault(
            events[at],
            fences,
        ),
    decreases n,
{
    if n > at + 1 {
        lemma_first_progression_fault(snapshot, events, fences, at, n - 1);
    }
}

proof fn lemma_overflows_monotone(
    snapshot: SnapshotModel,
    base: StateModel,
    revision: OwnershipRevision,
    events: Seq<EventModel>,
    m: int,
    n: int,
)
    requires
        0 <= m <= n <= events.len(),
        snapshot.overflows(base, revision, events, m),
    ensures
        snapshot.overflows(base, revision, events, n),
    decreases n,
{
    if m < n {
        lemma_overflows_monotone(snapshot, base, revision, events, m, n - 1);
    }
}

} // verus!
