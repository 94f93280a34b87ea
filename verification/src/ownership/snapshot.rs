//! The life of a snapshot: its instance, its leases, its fences and single records.
use vstd::prelude::*;

use crate::epoch_floor::{KeyModel, RecordModel};
use crate::keymap::{Key, KeyMap};
use crate::leases::LeaseSet;
use crate::ownership::gate::LocalOwnershipGate;
use crate::ownership::{
    authority_fault, fault_of, floor_of, local_authorization_changed, local_view,
    validate_authority_progression, AbsenceEvidence, EntryModel, ErrorModel,
    LocalInstanceAuthority, LocalOwnershipSnapshot, LocalOwnershipSnapshotConfig,
    LocalOwnershipState, OwnershipAuthorityFloor, OwnershipFenceReason, OwnershipRevision,
    OwnershipSnapshotError, SnapshotAvailability, SnapshotModel, StateModel, StoreObservation,
    VersionedRecord,
};
use crate::records::{
    ActorPlacementRecord, InstanceId, InstanceIncarnation, InstanceRecord, InstanceState, LeaseId,
    OwnershipKey, OwnershipRecordBinding, ServiceKind, SingletonPlacementRecord,
    VirtualShardPlacementRecord,
};

verus! {

/// A permission to replace the snapshot, void once its generation has passed.
#[derive(Debug, Clone, Copy, PartialEq, Eq, Structural)]
pub struct OwnershipResyncToken {
    lease_id: LeaseId,
    generation: u64,
}

impl OwnershipResyncToken {
    pub closed spec fn lease(self) -> LeaseId {
        self.lease_id
    }

    pub closed spec fn issued(self) -> u64 {
        self.generation
    }

    pub fn lease_id(&self) -> (lease_id: LeaseId)
        ensures
            lease_id == self.lease(),
    {
        self.lease_id
    }

    pub fn generation(&self) -> (generation: u64)
        ensures
            generation == self.issued(),
    {
        self.generation
    }
}

pub type InstanceModel = InstanceRecord<Seq<char>>;

/// The authority that a registration gives.
pub open spec fn authority_of(record: InstanceModel) -> LocalInstanceAuthority<Seq<char>> {
    LocalInstanceAuthority {
        lease_id: record.lease_id,
        incarnation: record.incarnation,
        state: record.state,
    }
}

impl StateModel {
    /// Whether a registration differs in lease or incarnation from the one that is held.
    pub open spec fn replaces_authority(self, record: InstanceModel) -> bool {
        match self.instance {
            Some(current) => current.lease_id != record.lease_id || current.incarnation
                != record.incarnation,
            None => false,
        }
    }

    /// The state once a registration of this very instance is installed.
    pub open spec fn with_instance(self, record: InstanceModel, lease_valid: bool) -> StateModel {
        let changed = self.replaces_authority(record);
        let base = if changed {
            self.placements_fenced().leases_cleared().unavailable(
                OwnershipFenceReason::Initializing,
            )
        } else {
            self
        };
        StateModel {
            instance: Some(authority_of(record)),
            valid_owner_leases: if lease_valid {
                base.valid_owner_leases.insert(record.lease_id)
            } else {
                base.valid_owner_leases.remove(record.lease_id)
            },
            availability: if !lease_valid && !changed {
                SnapshotAvailability::Unavailable(OwnershipFenceReason::LeaseLost)
            } else {
                base.availability
            },
            ..base
        }.bumped()
    }

    /// The state once a newer revision is accepted; a resync that is under way is voided.
    pub open spec fn with_revision(self, revision: OwnershipRevision) -> StateModel {
        let next = StateModel { revision: Some(revision), ..self };
        if self.availability == SnapshotAvailability::Unavailable(
            OwnershipFenceReason::Resyncing,
        ) {
            next.bumped()
        } else {
            next
        }
    }

    /// Whether a revision is no newer than what is held.
    pub open spec fn has_seen(self, revision: OwnershipRevision) -> bool {
        match self.revision {
            Some(current) => current.0 >= revision.0,
            None => false,
        }
    }

    pub open spec fn with_placement(self, key: KeyModel, entry: EntryModel) -> StateModel {
        StateModel { placements: self.placements.insert(key, entry), ..self }
    }
}

/// The fence that a refused change puts up.
pub open spec fn rejection_fence(error: ErrorModel) -> OwnershipFenceReason {
    match error {
        OwnershipSnapshotError::CapacityExceeded { .. } => OwnershipFenceReason::CapacityExceeded,
        OwnershipSnapshotError::WatchBatchCapacityExceeded {
            ..
        } => OwnershipFenceReason::CapacityExceeded,
        _ => OwnershipFenceReason::WatchLost,
    }
}

impl SnapshotModel {
    /// Why a registration is not one of this instance, if it is not.
    pub open spec fn identity_fault(self, record: InstanceModel) -> Option<ErrorModel> {
        if record.service_kind != self.service_kind {
            Some(
                OwnershipSnapshotError::ServiceMismatch {
                    expected: self.service_kind,
                    actual: record.service_kind,
                },
            )
        } else if record.instance_id != self.instance_id {
            Some(
                OwnershipSnapshotError::InstanceMismatch {
                    expected: self.instance_id,
                    actual: record.instance_id,
                },
            )
        } else if record.incarnation != self.incarnation {
            Some(
                OwnershipSnapshotError::InstanceIncarnationMismatch {
                    expected: self.incarnation,
                    actual: record.incarnation,
                },
            )
        } else {
            None
        }
    }

    /// The entry that a present record leaves.
    pub open spec fn present_entry(
        self,
        record: RecordModel,
        revision: OwnershipRevision,
    ) -> EntryModel {
        VersionedRecord {
            version: revision,
            authority: floor_of(record),
            observation: if record.spec_owner() == self.instance_id {
                StoreObservation::PresentLocal(record)
            } else {
                StoreObservation::PresentRemote(record)
            },
        }
    }

    /// The record as far as this instance answers for it.
    pub open spec fn local_part(self, record: RecordModel) -> Option<RecordModel> {
        if record.spec_owner() == self.instance_id {
            Some(record)
        } else {
            None
        }
    }

    /// Whether a record under `key` would bring back what was removed or fenced here.
    pub open spec fn reactivates(self, current: EntryModel, record: RecordModel) -> bool {
        current.observation is Absent || (current.observation is LifecycleFenced
            && record.spec_owner() == self.instance_id)
    }

    /// What a single record does to the state, and what is answered.
    pub open spec fn applied_record(
        self,
        version: OwnershipRevision,
        record: RecordModel,
    ) -> (StateModel, Result<bool, ErrorModel>) {
        let key = record.key();
        let held = self.state.placements;
        if self.state.has_seen(version) {
            (self.state, Ok(false))
        } else if record.service() != self.service_kind {
            (self.state.with_revision(version), Ok(false))
        } else if held.contains_key(key) && authority_fault(
            key,
            held[key].authority,
            floor_of(record),
            self.reactivates(held[key], record),
        ) is Some {
            let error = authority_fault(
                key,
                held[key].authority,
                floor_of(record),
                self.reactivates(held[key], record),
            )->0;
            (self.state.unavailable(rejection_fence(error)).bumped(), Err(error))
        } else if !held.contains_key(key) && self.state.entry_count() >= self.max_entries {
            (
                self.state.unavailable(OwnershipFenceReason::CapacityExceeded).bumped(),
                Err(self.capacity_error()),
            )
        } else {
            let changed = local_view(held, key) != self.local_part(record);
            let next = self.state.with_revision(version).with_placement(
                key,
                self.present_entry(record, version),
            );
            (
                if changed {
                    next.bumped()
                } else {
                    next
                },
                Ok(changed),
            )
        }
    }

    /// What the removal of one key does to the state, and whether it was applied.
    pub open spec fn removed(self, key: KeyModel, version: OwnershipRevision) -> (StateModel, bool) {
        if self.state.has_seen(version) {
            (self.state, false)
        } else {
            let next = self.state.with_revision(version);
            if removal_applies(next.placements, key, version) {
                let after = next.with_placement(
                    key,
                    removed_entry(next.placements[key], version),
                );
                (
                    if local_view(next.placements, key) is Some {
                        after.bumped()
                    } else {
                        after
                    },
                    true,
                )
            } else {
                (next, false)
            }
        }
    }
}

/// Whether an exact deletion at `version` is news.
pub open spec fn removal_applies(
    placements: Map<KeyModel, EntryModel>,
    key: KeyModel,
    version: OwnershipRevision,
) -> bool {
    placements.contains_key(key) && !(placements[key].version.0 > version.0 || (
    placements[key].version == version && placements[key].observation is Absent))
}

/// The entry that an exact deletion leaves.
pub open spec fn removed_entry(entry: EntryModel, version: OwnershipRevision) -> EntryModel {
    VersionedRecord {
        version,
        observation: StoreObservation::Absent {
            last_record: entry.observation.last(),
            evidence: AbsenceEvidence::ExactDelete,
        },
        ..entry
    }
}

impl LocalOwnershipState {
    pub(crate) fn accept_revision(&mut self, incoming: OwnershipRevision) -> (accepted: bool)
        ensures
            accepted == !old(self)@.has_seen(incoming),
            final(self)@ == if old(self)@.has_seen(incoming) {
                old(self)@
            } else {
                old(self)@.with_revision(incoming)
            },
    {
        if self.has_seen_revision(incoming) {
            return false;
        }
        let resyncing = match self.availability {
            SnapshotAvailability::Unavailable(OwnershipFenceReason::Resyncing) => true,
            _ => false,
        };
        self.revision = Some(incoming);
        assert(self@ =~= StateModel { revision: Some(incoming), ..old(self)@ });
        if resyncing {
            self.bump_generation();
        }
        true
    }

    pub(crate) fn has_seen_revision(&self, incoming: OwnershipRevision) -> (seen: bool)
        ensures
            seen == self@.has_seen(incoming),
    {
        match self.revision {
            Some(current) => current.0 >= incoming.0,
            None => false,
        }
    }

    pub(crate) fn put(&mut self, key: OwnershipKey, entry: VersionedRecord)
        ensures
            final(self)@ == old(self)@.with_placement(key@, entry@),
    {
        self.placements.insert(key, entry);
        assert(self@ =~= old(self)@.with_placement(key@, entry@));
    }

    /// Turns an entry into an exact absence; says whether it did, and whether this
    /// instance answered for the key until then.
    pub(crate) fn apply_removal(
        &mut self,
        key: &OwnershipKey,
        version: OwnershipRevision,
    ) -> (mutation: (bool, bool))
        ensures
            mutation.0 == removal_applies(old(self)@.placements, key@, version),
            mutation.1 == (mutation.0 && local_view(old(self)@.placements, key@) is Some),
            final(self)@ == if mutation.0 {
                old(self)@.with_placement(
                    key@,
                    removed_entry(old(self)@.placements[key@], version),
                )
            } else {
                old(self)@
            },
    {
        let (entry, changed) = match self.placements.get(key) {
            None => {
                return (false, false);
            },
            Some(current) => {
                if current.version.0 > version.0 || (current.version == version
                    && current.observation.is_absent()) {
                    return (false, false);
                }
                let changed = match current.observation.local_record() {
                    Some(_) => true,
                    None => false,
                };
                (
                    VersionedRecord {
                        version,
                        authority: current.authority.copy(),
                        observation: StoreObservation::Absent {
                            last_record: current.observation.last_record().copy(),
                            evidence: AbsenceEvidence::ExactDelete,
                        },
                    },
                    changed,
                )
            },
        };
        self.put(key.copy(), entry);
        (true, changed)
    }
}

impl LocalOwnershipSnapshot {
    pub fn new(
        service_kind: ServiceKind,
        instance_id: InstanceId,
        instance_incarnation: InstanceIncarnation,
    ) -> (snapshot: Self)
        ensures
            snapshot@ == fresh_snapshot(
                service_kind@,
                instance_id@,
                instance_incarnation@,
                65_536,
            ),
    {
        Self::with_config(
            service_kind,
            instance_id,
            instance_incarnation,
            LocalOwnershipSnapshotConfig::default(),
        )
    }

    pub fn with_config(
        service_kind: ServiceKind,
        instance_id: InstanceId,
        instance_incarnation: InstanceIncarnation,
        config: LocalOwnershipSnapshotConfig,
    ) -> (snapshot: Self)
        ensures
            snapshot@ == fresh_snapshot(
                service_kind@,
                instance_id@,
                instance_incarnation@,
                config.limit(),
            ),
    {
        let snapshot = LocalOwnershipSnapshot {
            service_kind,
            instance_id,
            instance_incarnation,
            max_entries: config.max_entries(),
            state: LocalOwnershipState {
                generation: 0,
                revision: None,
                availability: SnapshotAvailability::Unavailable(OwnershipFenceReason::Initializing),
                instance: None,
                valid_owner_leases: LeaseSet::new(),
                placements: KeyMap::new(),
            },
        };
        assert(snapshot@ =~= fresh_snapshot(
            service_kind@,
            instance_id@,
            instance_incarnation@,
            config.limit(),
        ));
        snapshot
    }

    /// What the snapshot has learnt.
    pub fn state(&self) -> (state: &LocalOwnershipState)
        ensures
            state@ == self@.state,
    {
        &self.state
    }

    pub fn gate(&self) -> (gate: LocalOwnershipGate<'_>)
        ensures
            gate.model() == self@,
    {
        LocalOwnershipGate::of(self)
    }

    fn validate_instance_identity(&self, record: &InstanceRecord) -> (result: Result<
        (),
        OwnershipSnapshotError,
    >)
        ensures
            fault_of(result) == self@.identity_fault(record@),
    {
        if !record.service_kind.same(&self.service_kind) {
            return Err(
                OwnershipSnapshotError::ServiceMismatch {
                    expected: self.service_kind.copy(),
                    actual: record.service_kind.copy(),
                },
            );
        }
        if !record.instance_id.same(&self.instance_id) {
            return Err(
                OwnershipSnapshotError::InstanceMismatch {
                    expected: self.instance_id.copy(),
                    actual: record.instance_id.copy(),
                },
            );
        }
        if !record.incarnation.same(&self.instance_incarnation) {
            return Err(
                OwnershipSnapshotError::InstanceIncarnationMismatch {
                    expected: self.instance_incarnation.copy(),
                    actual: record.incarnation.copy(),
                },
            );
        }
        Ok(())
    }

    /// Installs a registration of this instance. Only local keepalive may set `lease_valid`.
    pub fn install_local_instance(
        &mut self,
        record: InstanceRecord,
        lease_valid: bool,
    ) -> (result: Result<(), OwnershipSnapshotError>)
        ensures
            fault_of(result) == old(self)@.identity_fault(record@),
            final(self)@ == if result is Ok {
                old(self)@.with_state(old(self)@.state.with_instance(record@, lease_valid))
            } else {
                old(self)@
            },
    {
        match self.validate_instance_identity(&record) {
            Err(error) => {
                return Err(error);
            },
            Ok(()) => {},
        }
        let authority_changed = match &self.state.instance {
            Some(current) => current.lease_id != record.lease_id || !current.incarnation.same(
                &record.incarnation,
            ),
            None => false,
        };
        if authority_changed {
            self.state.fence_local_placements_for_lifecycle();
            self.state.clear_leases();
            self.state.make_unavailable(OwnershipFenceReason::Initializing);
        }
        let ghost base = self.state@;
        let lease_id = record.lease_id;
        self.state.instance = Some(
            LocalInstanceAuthority {
                lease_id: record.lease_id,
                incarnation: record.incarnation,
                state: record.state,
            },
        );
        if lease_valid {
            let _ = self.state.valid_owner_leases.insert(lease_id);
        } else {
            let _ = self.state.valid_owner_leases.remove(lease_id);
            if !authority_changed {
                self.state.availability =
                SnapshotAvailability::Unavailable(OwnershipFenceReason::LeaseLost);
            }
        }
        self.state.bump_generation();
        assert(self.state@ =~= old(self)@.state.with_instance(record@, lease_valid));
        assert(self@ =~= old(self)@.with_state(
            old(self)@.state.with_instance(record@, lease_valid),
        ));
        Ok(())
    }

    /// Notes a new state of the registered instance; says whether the lease is the held one.
    pub fn update_instance_state(&mut self, lease_id: LeaseId, state: InstanceState) -> (known: bool)
        ensures
            known == (old(self)@.state.instance is Some
                && old(self)@.state.instance->0.lease_id == lease_id),
            final(self)@ == if known && old(self)@.state.instance->0.state != state {
                old(self)@.with_state(
                    StateModel {
                        instance: Some(
                            LocalInstanceAuthority { state, ..old(self)@.state.instance->0 },
                        ),
                        ..old(self)@.state
                    }.bumped(),
                )
            } else {
                old(self)@
            },
    {
        let changed = match &self.state.instance {
            None => {
                return false;
            },
            Some(instance) => {
                if instance.lease_id != lease_id {
                    return false;
                }
                if instance.state == state {
                    None
                } else {
                    Some(
                        LocalInstanceAuthority {
                            lease_id: instance.lease_id,
                            incarnation: instance.incarnation.copy(),
                            state,
                        },
                    )
                }
            },
        };
        match changed {
            None => {},
            Some(instance) => {
                self.state.instance = Some(instance);
                self.state.bump_generation();
            },
        }
        assert(self@ =~= if old(self)@.state.instance->0.state != state {
            old(self)@.with_state(
                StateModel {
                    instance: Some(
                        LocalInstanceAuthority { state, ..old(self)@.state.instance->0 },
                    ),
                    ..old(self)@.state
                }.bumped(),
            )
        } else {
            old(self)@
        });
        true
    }

    /// Marks a lease alive or dead; says whether that was news.
    pub fn set_owner_lease_valid(&mut self, lease_id: LeaseId, valid: bool) -> (result: Result<
        bool,
        OwnershipSnapshotError,
    >)
        ensures
            match result {
                Ok(changed) => !lease_overflow(old(self)@, lease_id, valid) && changed
                    == lease_changes(old(self)@.state, lease_id, valid) && final(self)@
                    == old(self)@.with_state(lease_marked(old(self)@.state, lease_id, valid)),
                Err(error) => lease_overflow(old(self)@, lease_id, valid) && error@
                    == old(self)@.capacity_error() && final(self)@ == old(self)@.with_state(
                    old(self)@.state.unavailable(OwnershipFenceReason::CapacityExceeded).bumped(),
                ),
            },
    {
        let changed = if valid {
            if !self.state.valid_owner_leases.contains(lease_id)
                && self.state.valid_owner_leases.len() >= self.max_entries.saturating_add(1) {
                self.state.make_unavailable(OwnershipFenceReason::CapacityExceeded);
                self.state.bump_generation();
                assert(self@ =~= old(self)@.with_state(
                    old(self)@.state.unavailable(OwnershipFenceReason::CapacityExceeded).bumped(),
                ));
                return Err(
                    OwnershipSnapshotError::CapacityExceeded { max_entries: self.max_entries },
                );
            }
            self.state.valid_owner_leases.insert(lease_id)
        } else {
            self.state.valid_owner_leases.remove(lease_id)
        };
        let lost = match &self.state.instance {
            Some(instance) => !valid && instance.lease_id == lease_id,
            None => false,
        };
        if lost {
            self.state.availability =
            SnapshotAvailability::Unavailable(OwnershipFenceReason::LeaseLost);
        }
        if changed {
            self.state.bump_generation();
        }
        assert(self.state@ =~= lease_marked(old(self)@.state, lease_id, valid));
        assert(self@ =~= old(self)@.with_state(lease_marked(old(self)@.state, lease_id, valid)));
        Ok(changed)
    }

    /// Fences the snapshot and opens a resync under the held lease.
    pub fn begin_resync(&mut self, lease_id: LeaseId) -> (result: Result<
        OwnershipResyncToken,
        OwnershipSnapshotError,
    >)
        ensures
            match old(self)@.state.instance {
                None => result is Err && result->Err_0 is MissingInstanceLease && final(self)@
                    == old(self)@,
                Some(instance) => {
                    &&& final(self)@ == old(self)@.with_state(
                        old(self)@.state.unavailable(OwnershipFenceReason::Resyncing).bumped(),
                    )
                    &&& match result {
                        Ok(token) => instance.lease_id == lease_id && token.lease() == lease_id
                            && token.issued() == final(self)@.state.generation,
                        Err(error) => instance.lease_id != lease_id && error@ == (
                        ErrorModel::StaleLease {
                            expected: instance.lease_id,
                            actual: lease_id,
                        }),
                    }
                },
            },
    {
        let current_lease = match &self.state.instance {
            None => {
                return Err(OwnershipSnapshotError::MissingInstanceLease);
            },
            Some(instance) => instance.lease_id,
        };
        self.fence(OwnershipFenceReason::Resyncing);
        if current_lease != lease_id {
            return Err(
                OwnershipSnapshotError::StaleLease { expected: current_lease, actual: lease_id },
            );
        }
        Ok(OwnershipResyncToken { lease_id, generation: self.state.generation })
    }

    pub fn fence(&mut self, reason: OwnershipFenceReason)
        ensures
            final(self)@ == old(self)@.with_state(old(self)@.state.unavailable(reason).bumped()),
    {
        self.state.make_unavailable(reason);
        self.state.bump_generation();
        assert(self@ =~= old(self)@.with_state(old(self)@.state.unavailable(reason).bumped()));
    }

    pub(crate) fn fence_rejected(&mut self, error: &OwnershipSnapshotError)
        ensures
            final(self)@ == old(self)@.with_state(
                old(self)@.state.unavailable(rejection_fence(error@)).bumped(),
            ),
    {
        let reason = match error {
            OwnershipSnapshotError::CapacityExceeded {
                ..
            } => OwnershipFenceReason::CapacityExceeded,
            OwnershipSnapshotError::WatchBatchCapacityExceeded {
                ..
            } => OwnershipFenceReason::CapacityExceeded,
            _ => OwnershipFenceReason::WatchLost,
        };
        self.fence(reason);
    }

    /// Applies one record of any family at its own revision.
    pub fn apply_record(
        &mut self,
        version: OwnershipRevision,
        record: OwnershipRecordBinding,
    ) -> (result: Result<bool, OwnershipSnapshotError>)
        ensures
            final(self)@ == old(self)@.with_state(old(self)@.applied_record(version, record@).0),
            match result {
                Ok(changed) => old(self)@.applied_record(version, record@).1 == Ok::<
                    bool,
                    ErrorModel,
                >(changed),
                Err(error) => old(self)@.applied_record(version, record@).1 == Err::<
                    bool,
                    ErrorModel,
                >(error@),
            },
    {
        assert(self@ =~= self@.with_state(self@.state));
        if self.state.has_seen_revision(version) {
            return Ok(false);
        }
        if !record.service_kind().same(&self.service_kind) {
            let _ = self.state.accept_revision(version);
            assert(self@ =~= old(self)@.with_state(old(self)@.state.with_revision(version)));
            return Ok(false);
        }
        let key = record.epoch_key();
        let authority = OwnershipAuthorityFloor::of(&record);
        let is_local = record.owner().same(&self.instance_id);
        let held = self.state.placements.get(&key);
        let progression = match held {
            Some(current) => validate_authority_progression(
                key.copy(),
                &current.authority,
                &authority,
                current.observation.is_absent() || (current.observation.is_lifecycle_fenced()
                    && is_local),
            ),
            None => Ok(()),
        };
        let already_present = match held {
            Some(_) => true,
            None => false,
        };
        match progression {
            Err(error) => {
                self.fence_rejected(&error);
                return Err(error);
            },
            Ok(()) => {},
        }
        if !already_present && self.state.entry_count() >= self.max_entries {
            self.fence(OwnershipFenceReason::CapacityExceeded);
            return Err(OwnershipSnapshotError::CapacityExceeded { max_entries: self.max_entries });
        }
        let authorization_changed = local_authorization_changed(
            self.state.placements.get(&key),
            if is_local {
                Some(&record)
            } else {
                None
            },
        );
        let _ = self.state.accept_revision(version);
        self.state.put(
            key,
            VersionedRecord {
                version,
                authority,
                observation: StoreObservation::present(record, is_local),
            },
        );
        if authorization_changed {
            self.state.bump_generation();
        }
        assert(self@ =~= old(self)@.with_state(old(self)@.applied_record(version, record@).0));
        Ok(authorization_changed)
    }

    pub fn apply_actor(
        &mut self,
        version: OwnershipRevision,
        record: ActorPlacementRecord,
    ) -> (result: Result<bool, OwnershipSnapshotError>)
        ensures
            final(self)@ == old(self)@.with_state(
                old(self)@.applied_record(version, OwnershipRecordBinding::Actor(record@)).0,
            ),
            match result {
                Ok(changed) => old(self)@.applied_record(
                    version,
                    OwnershipRecordBinding::Actor(record@),
                ).1 == Ok::<bool, ErrorModel>(changed),
                Err(error) => old(self)@.applied_record(
                    version,
                    OwnershipRecordBinding::Actor(record@),
                ).1 == Err::<bool, ErrorModel>(error@),
            },
    {
        self.apply_record(version, OwnershipRecordBinding::Actor(record))
    }

    pub fn apply_virtual_shard(
        &mut self,
        version: OwnershipRevision,
        record: VirtualShardPlacementRecord,
    ) -> (result: Result<bool, OwnershipSnapshotError>)
        ensures
            final(self)@ == old(self)@.with_state(
                old(self)@.applied_record(version, OwnershipRecordBinding::VirtualShard(record@)).0,
            ),
            match result {
                Ok(changed) => old(self)@.applied_record(
                    version,
                    OwnershipRecordBinding::VirtualShard(record@),
                ).1 == Ok::<bool, ErrorModel>(changed),
                Err(error) => old(self)@.applied_record(
                    version,
                    OwnershipRecordBinding::VirtualShard(record@),
                ).1 == Err::<bool, ErrorModel>(error@),
            },
    {
        self.apply_record(version, OwnershipRecordBinding::VirtualShard(record))
    }

    pub fn apply_singleton(
        &mut self,
        version: OwnershipRevision,
        record: SingletonPlacementRecord,
    ) -> (result: Result<bool, OwnershipSnapshotError>)
        ensures
            final(self)@ == old(self)@.with_state(
                old(self)@.applied_record(version, OwnershipRecordBinding::Singleton(record@)).0,
            ),
            match result {
                Ok(changed) => old(self)@.applied_record(
                    version,
                    OwnershipRecordBinding::Singleton(record@),
                ).1 == Ok::<bool, ErrorModel>(changed),
                Err(error) => old(self)@.applied_record(
                    version,
                    OwnershipRecordBinding::Singleton(record@),
                ).1 == Err::<bool, ErrorModel>(error@),
            },
    {
        self.apply_record(version, OwnershipRecordBinding::Singleton(record))
    }

    /// Removes one key at a newer revision; says whether that was news.
    pub fn remove(&mut self, key: &OwnershipKey, version: OwnershipRevision) -> (applied: bool)
        ensures
            final(self)@ == old(self)@.with_state(old(self)@.removed(key@, version).0),
            applied == old(self)@.removed(key@, version).1,
    {
        if !self.state.accept_revision(version) {
            assert(self@ =~= old(self)@.with_state(old(self)@.state));
            return false;
        }
        let (applied, authorization_changed) = self.state.apply_removal(key, version);
        if authorization_changed {
            self.state.bump_generation();
        }
        assert(self@ =~= old(self)@.with_state(old(self)@.removed(key@, version).0));
        applied
    }
}

/// Whether one more lease would exceed what a snapshot remembers.
pub open spec fn lease_overflow(snapshot: SnapshotModel, lease_id: LeaseId, valid: bool) -> bool {
    valid && !snapshot.state.valid_owner_leases.contains(lease_id)
        && snapshot.state.valid_owner_leases.len() >= if snapshot.max_entries == usize::MAX {
        usize::MAX as int
    } else {
        snapshot.max_entries + 1
    }
}

/// Whether marking a lease is news.
pub open spec fn lease_changes(state: StateModel, lease_id: LeaseId, valid: bool) -> bool {
    valid != state.valid_owner_leases.contains(lease_id)
}

/// The state once a lease is marked alive or dead.
pub open spec fn lease_marked(state: StateModel, lease_id: LeaseId, valid: bool) -> StateModel {
    let marked = StateModel {
        valid_owner_leases: if valid {
            state.valid_owner_leases.insert(lease_id)
        } else {
            state.valid_owner_leases.remove(lease_id)
        },
        availability: if !valid && state.instance is Some && state.instance->0.lease_id
            == lease_id {
            SnapshotAvailability::Unavailable(OwnershipFenceReason::LeaseLost)
        } else {
            state.availability
        },
        ..state
    };
    if lease_changes(state, lease_id, valid) {
        marked.bumped()
    } else {
        marked
    }
}

/// A snapshot that has learnt nothing yet.
pub open spec fn fresh_snapshot(
    service_kind: Seq<char>,
    instance_id: Seq<char>,
    incarnation: Seq<char>,
    max_entries: usize,
) -> SnapshotModel {
    SnapshotModel {
        service_kind,
        instance_id,
        incarnation,
        max_entries,
        state: StateModel {
            generation: 0,
            revision: None,
            availability: SnapshotAvailability::Unavailable(OwnershipFenceReason::Initializing),
            instance: None,
            valid_owner_leases: Set::empty(),
            placements: Map::empty(),
        },
    }
}

} // verus!
