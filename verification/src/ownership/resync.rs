//! Resynchronisation: a coherent view of the store replaces what was learnt from watches.
use vstd::prelude::*;

use crate::epoch_floor::{
    proof_fault, KeyModel, OwnershipEpochFloorProof, OwnershipProofContext, ProofModel,
    RecordModel,
};
use crate::keymap::{seq_view, Key, KeyMap};
use crate::leases::LeaseSet;
use crate::ownership::snapshot::OwnershipResyncToken;
use crate::ownership::{
    authority_fault, fault_of, floor_of, validate_authority_progression, AbsenceEvidence,
    EntryModel, ErrorModel, LocalOwnershipSnapshot, LocalOwnershipState, OwnershipAuthorityFloor,
    OwnershipFenceReason, OwnershipRevision, OwnershipSnapshotError, SnapshotAvailability,
    SnapshotModel, StateModel, StoreObservation, VersionedRecord,
};
use crate::records::{
    ActorPlacementRecord, InstanceRecord, LeaseId, OwnershipKey, OwnershipRecordBinding,
    PlacementRevision, SingletonPlacementRecord, VirtualShardPlacementRecord,
};

verus! {

/// A record of a coherent view, with the revision at which it was last written.
#[allow(inconsistent_fields)]
#[derive(Debug, PartialEq, Eq)]
pub enum OwnershipSnapshotRecord {
    Actor {
        version: OwnershipRevision,
        record: ActorPlacementRecord,
        proof: OwnershipEpochFloorProof,
    },
    VirtualShard {
        version: OwnershipRevision,
        record: VirtualShardPlacementRecord,
        proof: OwnershipEpochFloorProof,
    },
    Singleton {
        version: OwnershipRevision,
        record: SingletonPlacementRecord,
        proof: OwnershipEpochFloorProof,
    },
}

/// What a record of a coherent view says.
pub struct SnapshotRecordModel {
    pub version: OwnershipRevision,
    pub record: RecordModel,
    pub proof: ProofModel,
}

impl View for OwnershipSnapshotRecord {
    type V = SnapshotRecordModel;

    open spec fn view(&self) -> SnapshotRecordModel {
        match self {
            OwnershipSnapshotRecord::Actor { version, record, proof } => SnapshotRecordModel {
                version: *version,
                record: OwnershipRecordBinding::Actor(record@),
                proof: proof@,
            },
            OwnershipSnapshotRecord::VirtualShard { version, record, proof } => SnapshotRecordModel {
                version: *version,
                record: OwnershipRecordBinding::VirtualShard(record@),
                proof: proof@,
            },
            OwnershipSnapshotRecord::Singleton { version, record, proof } => SnapshotRecordModel {
                version: *version,
                record: OwnershipRecordBinding::Singleton(record@),
                proof: proof@,
            },
        }
    }
}

impl OwnershipSnapshotRecord {
    fn version(&self) -> (version: OwnershipRevision)
        ensures
            version == self@.version,
    {
        match self {
            OwnershipSnapshotRecord::Actor { version, .. } => *version,
            OwnershipSnapshotRecord::VirtualShard { version, .. } => *version,
            OwnershipSnapshotRecord::Singleton { version, .. } => *version,
        }
    }

    fn binding(&self) -> (binding: OwnershipRecordBinding)
        ensures
            binding@ == self@.record,
    {
        match self {
            OwnershipSnapshotRecord::Actor { record, .. } => OwnershipRecordBinding::Actor(
                record.copy(),
            ),
            OwnershipSnapshotRecord::VirtualShard {
                record,
                ..
            } => OwnershipRecordBinding::VirtualShard(record.copy()),
            OwnershipSnapshotRecord::Singleton { record, .. } => OwnershipRecordBinding::Singleton(
                record.copy(),
            ),
        }
    }

    fn floor_proof(&self) -> (proof: &OwnershipEpochFloorProof)
        ensures
            proof@ == self@.proof,
    {
        match self {
            OwnershipSnapshotRecord::Actor { proof, .. } => proof,
            OwnershipSnapshotRecord::VirtualShard { proof, .. } => proof,
            OwnershipSnapshotRecord::Singleton { proof, .. } => proof,
        }
    }
}

/// A record as the backend hands it out.
#[allow(inconsistent_fields)]
#[derive(Debug, PartialEq, Eq)]
pub enum OwnershipViewRecord {
    Actor {
        revision: PlacementRevision,
        record: ActorPlacementRecord,
        proof: OwnershipEpochFloorProof,
    },
    VirtualShard {
        revision: PlacementRevision,
        record: VirtualShardPlacementRecord,
        proof: OwnershipEpochFloorProof,
    },
    Singleton {
        revision: PlacementRevision,
        record: SingletonPlacementRecord,
        proof: OwnershipEpochFloorProof,
    },
}

impl View for OwnershipViewRecord {
    type V = SnapshotRecordModel;

    open spec fn view(&self) -> SnapshotRecordModel {
        match self {
            OwnershipViewRecord::Actor { revision, record, proof } => SnapshotRecordModel {
                version: OwnershipRevision(revision.0),
                record: OwnershipRecordBinding::Actor(record@),
                proof: proof@,
            },
            OwnershipViewRecord::VirtualShard { revision, record, proof } => SnapshotRecordModel {
                version: OwnershipRevision(revision.0),
                record: OwnershipRecordBinding::VirtualShard(record@),
                proof: proof@,
            },
            OwnershipViewRecord::Singleton { revision, record, proof } => SnapshotRecordModel {
                version: OwnershipRevision(revision.0),
                record: OwnershipRecordBinding::Singleton(record@),
                proof: proof@,
            },
        }
    }
}

/// A coherent view of the store at one revision.
#[derive(Debug, PartialEq, Eq)]
pub struct OwnershipViewSnapshot {
    pub local_instance: Option<InstanceRecord>,
    pub revision: PlacementRevision,
    pub records: Vec<OwnershipViewRecord>,
}

/// The families of placements, in the order in which they are merged.
#[derive(Debug, Clone, Copy, PartialEq, Eq, Structural)]
pub enum Family {
    Explicit,
    VirtualShard,
    Singleton,
}

pub open spec fn family_of(record: RecordModel) -> Family {
    match record {
        OwnershipRecordBinding::Actor(_) => Family::Explicit,
        OwnershipRecordBinding::VirtualShard(_) => Family::VirtualShard,
        OwnershipRecordBinding::Singleton(_) => Family::Singleton,
    }
}

fn family(record: &OwnershipRecordBinding) -> (family: Family)
    ensures
        family == family_of(record@),
{
    match record {
        OwnershipRecordBinding::Actor(_) => Family::Explicit,
        OwnershipRecordBinding::VirtualShard(_) => Family::VirtualShard,
        OwnershipRecordBinding::Singleton(_) => Family::Singleton,
    }
}

/// A refusal, and the fence that it puts up, if it does.
pub struct CollectFault {
    pub error: ErrorModel,
    pub fence: Option<OwnershipFenceReason>,
}

/// The entry of a key that a coherent view no longer holds.
pub open spec fn absent_entry(entry: EntryModel, revision: OwnershipRevision) -> EntryModel {
    VersionedRecord {
        version: revision,
        authority: entry.authority,
        observation: StoreObservation::Absent {
            last_record: entry.observation.last(),
            evidence: match entry.observation {
                StoreObservation::Absent { evidence, .. } => evidence,
                _ => AbsenceEvidence::CoherentSnapshot,
            },
        },
    }
}

/// What is held once a coherent view has replaced it: the view's own entries, and an
/// absence for each key that the view lacks.
pub open spec fn merged(
    current: Map<KeyModel, EntryModel>,
    incoming: Map<KeyModel, EntryModel>,
    revision: OwnershipRevision,
) -> Map<KeyModel, EntryModel> {
    Map::new(
        |k: KeyModel| incoming.contains_key(k) || current.contains_key(k),
        |k: KeyModel|
            if incoming.contains_key(k) {
                incoming[k]
            } else {
                absent_entry(current[k], revision)
            },
    )
}

/// The leases that still matter: the instance's own, and those of local placements.
pub open spec fn lease_matters(
    placements: Map<KeyModel, EntryModel>,
    instance_lease: LeaseId,
    lease_id: LeaseId,
) -> bool {
    lease_id == instance_lease || exists|k: KeyModel|
        #[trigger] placements.contains_key(k) && local_lease(placements[k]) == Some(lease_id)
}

/// The lease of a placement that this instance owns.
pub open spec fn local_lease(entry: EntryModel) -> Option<LeaseId> {
    match entry.observation.local() {
        Some(record) => floor_of(record).lease_id,
        None => None,
    }
}

pub open spec fn pruned_leases(
    leases: Set<LeaseId>,
    placements: Map<KeyModel, EntryModel>,
    instance_lease: LeaseId,
) -> Set<LeaseId> {
    leases.filter(|lease_id: LeaseId| lease_matters(placements, instance_lease, lease_id))
}

impl SnapshotModel {
    /// The entries that the first `n` records of a view stand for.
    pub open spec fn collected(self, records: Seq<SnapshotRecordModel>, n: int) -> Map<
        KeyModel,
        EntryModel,
    >
        decreases n,
    {
        if n <= 0 {
            Map::empty()
        } else {
            let rest = self.collected(records, n - 1);
            let item = records[n - 1];
            if item.record.service() == self.service_kind {
                rest.insert(item.record.key(), self.present_entry(item.record, item.version))
            } else {
                rest
            }
        }
    }

    /// What is wrong with the record at `i` of a view.
    pub open spec fn collect_fault(
        self,
        revision: OwnershipRevision,
        records: Seq<SnapshotRecordModel>,
        i: int,
    ) -> Option<CollectFault> {
        let item = records[i];
        let proof_error = proof_fault(
            item.proof,
            OwnershipProofContext::Snapshot,
            PlacementRevision(revision.0),
            PlacementRevision(item.version.0),
            item.record,
        );
        if i >= self.max_entries {
            Some(
                CollectFault {
                    error: self.capacity_error(),
                    fence: Some(OwnershipFenceReason::CapacityExceeded),
                },
            )
        } else if item.version.0 > revision.0 {
            Some(
                CollectFault {
                    error: OwnershipSnapshotError::RecordAheadOfSnapshot {
                        record: item.version,
                        snapshot: revision,
                    },
                    fence: Some(OwnershipFenceReason::Resyncing),
                },
            )
        } else if item.record.service() != self.service_kind {
            None
        } else if proof_error is Some {
            Some(
                CollectFault {
                    error: OwnershipSnapshotError::Proof { error: proof_error->0 },
                    fence: Some(OwnershipFenceReason::Resyncing),
                },
            )
        } else if self.collected(records, i).contains_key(item.record.key()) {
            Some(
                CollectFault {
                    error: OwnershipSnapshotError::DuplicatePlacementEvent {
                        key: Box::new(item.record.key()),
                    },
                    fence: None,
                },
            )
        } else {
            None
        }
    }

    pub open spec fn first_collect_fault(
        self,
        revision: OwnershipRevision,
        records: Seq<SnapshotRecordModel>,
        n: int,
    ) -> Option<CollectFault>
        decreases n,
    {
        if n <= 0 {
            None
        } else if self.first_collect_fault(revision, records, n - 1) is Some {
            self.first_collect_fault(revision, records, n - 1)
        } else {
            self.collect_fault(revision, records, n - 1)
        }
    }

    /// Why a record of a view cannot follow what is held under its key.
    pub open spec fn merge_fault(self, item: SnapshotRecordModel) -> Option<ErrorModel> {
        let held = self.state.placements;
        let key = item.record.key();
        if item.record.service() != self.service_kind || !held.contains_key(key) {
            None
        } else if held[key].observation is Absent && item.version.0 <= held[key].version.0 {
            Some(
                OwnershipSnapshotError::ResurrectionRevisionNotAdvanced {
                    key: Box::new(key),
                    absence: held[key].version,
                    incoming: item.version,
                },
            )
        } else {
            authority_fault(
                key,
                held[key].authority,
                floor_of(item.record),
                self.reactivates(held[key], item.record),
            )
        }
    }

    /// The first fault of a family among the first `n` records.
    pub open spec fn first_merge_fault(
        self,
        records: Seq<SnapshotRecordModel>,
        family: Family,
        n: int,
    ) -> Option<ErrorModel>
        decreases n,
    {
        if n <= 0 {
            None
        } else if self.first_merge_fault(records, family, n - 1) is Some {
            self.first_merge_fault(records, family, n - 1)
        } else if family_of(records[n - 1].record) == family {
            self.merge_fault(records[n - 1])
        } else {
            None
        }
    }

    /// Why the records of a view cannot follow what is held, family by family.
    pub open spec fn merge_conflict(self, records: Seq<SnapshotRecordModel>) -> Option<ErrorModel> {
        let n = records.len() as int;
        if self.first_merge_fault(records, Family::Explicit, n) is Some {
            self.first_merge_fault(records, Family::Explicit, n)
        } else if self.first_merge_fault(records, Family::VirtualShard, n) is Some {
            self.first_merge_fault(records, Family::VirtualShard, n)
        } else {
            self.first_merge_fault(records, Family::Singleton, n)
        }
    }

    /// What a view does to the state under a token, and why it is refused, if it is.
    pub open spec fn resynced(
        self,
        lease: LeaseId,
        issued: u64,
        revision: OwnershipRevision,
        records: Seq<SnapshotRecordModel>,
    ) -> (StateModel, Option<ErrorModel>) {
        let fault = self.first_collect_fault(revision, records, records.len() as int);
        let refused = self.state.unavailable(OwnershipFenceReason::Resyncing).bumped();
        if fault is Some {
            (
                match fault->0.fence {
                    Some(reason) => self.state.unavailable(reason).bumped(),
                    None => self.state,
                },
                Some(fault->0.error),
            )
        } else if self.state.instance is None {
            (self.state, Some(OwnershipSnapshotError::MissingInstanceLease))
        } else if self.state.instance->0.lease_id != lease {
            (
                refused,
                Some(
                    OwnershipSnapshotError::StaleLease {
                        expected: self.state.instance->0.lease_id,
                        actual: lease,
                    },
                ),
            )
        } else if self.state.generation != issued {
            (
                refused,
                Some(
                    OwnershipSnapshotError::StaleResync {
                        expected_generation: issued,
                        actual_generation: self.state.generation,
                    },
                ),
            )
        } else if self.state.revision is Some && revision.0 < (self.state.revision->0).0 {
            (
                refused,
                Some(
                    OwnershipSnapshotError::StaleRevision {
                        current: self.state.revision->0,
                        incoming: revision,
                    },
                ),
            )
        } else if self.merge_conflict(records) is Some {
            (refused, self.merge_conflict(records))
        } else if self.merged_with(revision, records).dom().len() > self.max_entries {
            (
                self.state.unavailable(OwnershipFenceReason::CapacityExceeded).bumped(),
                Some(self.capacity_error()),
            )
        } else {
            (self.replaced(lease, revision, records), None)
        }
    }

    pub open spec fn merged_with(
        self,
        revision: OwnershipRevision,
        records: Seq<SnapshotRecordModel>,
    ) -> Map<KeyModel, EntryModel> {
        merged(self.state.placements, self.collected(records, records.len() as int), revision)
    }

    /// The state once an accepted view has replaced what was held.
    pub open spec fn replaced(
        self,
        lease: LeaseId,
        revision: OwnershipRevision,
        records: Seq<SnapshotRecordModel>,
    ) -> StateModel {
        let placements = self.merged_with(revision, records);
        StateModel {
            revision: Some(revision),
            availability: SnapshotAvailability::Ready,
            valid_owner_leases: pruned_leases(self.state.valid_owner_leases, placements, lease),
            placements,
            ..self.state
        }.bumped()
    }
}

proof fn lemma_first_collect_fault(
    snapshot: SnapshotModel,
    revision: OwnershipRevision,
    records: Seq<SnapshotRecordModel>,
    at: int,
    n: int,
)
    requires
        0 <= at < n <= records.len(),
        snapshot.first_collect_fault(revision, records, at) is None,
    ensures
        snapshot.collect_fault(revision, records, at) is Some ==> snapshot.first_collect_fault(
            revision,
            records,
            n,
        ) == snapshot.collect_fault(revision, records, at),
    decreases n,
{
    if n > at + 1 {
        lemma_first_collect_fault(snapshot, revision, records, at, n - 1);
    }
}

proof fn lemma_first_merge_fault(
    snapshot: SnapshotModel,
    records: Seq<SnapshotRecordModel>,
    family: Family,
    at: int,
    n: int,
)
    requires
        0 <= at < n <= records.len(),
        snapshot.first_merge_fault(records, family, at) is None,
    ensures
        family_of(records[at].record) == family && snapshot.merge_fault(records[at]) is Some
            ==> snapshot.first_merge_fault(records, family, n) == snapshot.merge_fault(records[at]),
    decreases n,
{
    if n > at + 1 {
        lemma_first_merge_fault(snapshot, records, family, at, n - 1);
    }
}

impl LocalOwnershipSnapshot {
    /// Checks the records of a view and collects those of this service. A refusal fences
    /// the snapshot, unless a key comes twice.
    fn collect_local_records(
        &mut self,
        snapshot_revision: OwnershipRevision,
        records: &Vec<OwnershipSnapshotRecord>,
    ) -> (result: Result<KeyMap<OwnershipKey, VersionedRecord>, OwnershipSnapshotError>)
        ensures
            ({
                let model = seq_view(records@);
                let fault = old(self)@.first_collect_fault(
                    snapshot_revision,
                    model,
                    model.len() as int,
                );
                match result {
                    Ok(maps) => fault is None && maps@ == old(self)@.collected(
                        model,
                        model.len() as int,
                    ) && final(self)@ == old(self)@,
                    Err(error) => fault is Some && fault->0.error == error@ && final(self)@
                        == match fault->0.fence {
                        Some(reason) => old(self)@.with_state(
                            old(self)@.state.unavailable(reason).bumped(),
                        ),
                        None => old(self)@,
                    },
                }
            }),
    {
        let ghost model = seq_view(records@);
        let mut collected: KeyMap<OwnershipKey, VersionedRecord> = KeyMap::new();
        let mut i: usize = 0;
        while i < records.len()
            invariant
                i <= records.len(),
                model == seq_view(records@),
                *self == *old(self),
                collected@ == self@.collected(model, i as int),
                self@.first_collect_fault(snapshot_revision, model, i as int) is None,
            decreases records.len() - i,
        {
            let item = &records[i];
            let ghost at = i as int;
            proof {
                assert(model[at] == item@);
                lemma_first_collect_fault(
                    self@,
                    snapshot_revision,
                    model,
                    at,
                    model.len() as int,
                );
            }
            if i >= self.max_entries {
                self.fence(OwnershipFenceReason::CapacityExceeded);
                return Err(
                    OwnershipSnapshotError::CapacityExceeded { max_entries: self.max_entries },
                );
            }
            let version = item.version();
            if version.0 > snapshot_revision.0 {
                self.fence(OwnershipFenceReason::Resyncing);
                return Err(
                    OwnershipSnapshotError::RecordAheadOfSnapshot {
                        record: version,
                        snapshot: snapshot_revision,
                    },
                );
            }
            let record = item.binding();
            if record.service_kind().same(&self.service_kind) {
                match item.floor_proof().validate_snapshot(
                    PlacementRevision(snapshot_revision.0),
                    PlacementRevision(version.0),
                    &record,
                ) {
                    Err(error) => {
                        self.fence(OwnershipFenceReason::Resyncing);
                        return Err(OwnershipSnapshotError::Proof { error });
                    },
                    Ok(()) => {},
                }
                let key = record.epoch_key();
                if collected.contains_key(&key) {
                    return Err(
                        OwnershipSnapshotError::DuplicatePlacementEvent { key: Box::new(key) },
                    );
                }
                let authority = OwnershipAuthorityFloor::of(&record);
                let is_local = record.owner().same(&self.instance_id);
                collected.insert(
                    key,
                    VersionedRecord {
                        version,
                        authority,
                        observation: StoreObservation::present(record, is_local),
                    },
                );
            }
            i = i + 1;
        }
        Ok(collected)
    }

    /// Checks the records of one family beside what is held.
    fn validate_resync_family(
        &self,
        records: &Vec<OwnershipSnapshotRecord>,
        only: Family,
    ) -> (result: Result<(), OwnershipSnapshotError>)
        ensures
            fault_of(result) == self@.first_merge_fault(
                seq_view(records@),
                only,
                records@.len() as int,
            ),
    {
        let ghost model = seq_view(records@);
        let mut i: usize = 0;
        while i < records.len()
            invariant
                i <= records.len(),
                model == seq_view(records@),
                self@.first_merge_fault(model, only, i as int) is None,
            decreases records.len() - i,
        {
            let item = &records[i];
            proof {
                assert(model[i as int] == item@);
                lemma_first_merge_fault(self@, model, only, i as int, model.len() as int);
            }
            let record = item.binding();
            if family(&record) == only && record.service_kind().same(&self.service_kind) {
                let key = record.epoch_key();
                match self.state.placements.get(&key) {
                    None => {},
                    Some(current) => {
                        let version = item.version();
                        if current.observation.is_absent() && version.0 <= current.version.0 {
                            return Err(
                                OwnershipSnapshotError::ResurrectionRevisionNotAdvanced {
                                    key: Box::new(key),
                                    absence: current.version,
                                    incoming: version,
                                },
                            );
                        }
                        match validate_authority_progression(
                            key,
                            &current.authority,
                            &OwnershipAuthorityFloor::of(&record),
                            current.observation.is_absent() || (
                            current.observation.is_lifecycle_fenced() && record.owner().same(
                                &self.instance_id,
                            )),
                        ) {
                            Err(error) => {
                                return Err(error);
                            },
                            Ok(()) => {},
                        }
                    },
                }
            }
            i = i + 1;
        }
        Ok(())
    }

    fn merge_resync_observations(&self, records: &Vec<OwnershipSnapshotRecord>) -> (result: Result<
        (),
        OwnershipSnapshotError,
    >)
        ensures
            fault_of(result) == self@.merge_conflict(seq_view(records@)),
    {
        match self.validate_resync_family(records, Family::Explicit) {
            Err(error) => {
                return Err(error);
            },
            Ok(()) => {},
        }
        match self.validate_resync_family(records, Family::VirtualShard) {
            Err(error) => {
                return Err(error);
            },
            Ok(()) => {},
        }
        self.validate_resync_family(records, Family::Singleton)
    }
}

impl LocalOwnershipState {
    /// Adds to the entries of a view an absence for each key that the view lacks.
    fn note_absences(
        &self,
        incoming: &mut KeyMap<OwnershipKey, VersionedRecord>,
        revision: OwnershipRevision,
    )
        ensures
            final(incoming)@ == merged(self@.placements, old(incoming)@, revision),
    {
        let count = self.placements.count();
        let ghost order = self.placements.order();
        let ghost current = self.placements@;
        let ghost view = incoming@;
        let mut i: usize = 0;
        while i < count
            invariant
                i <= count,
                count == order.len(),
                self.placements.order() == order,
                self.placements@ == current,
                forall|k: KeyModel| #[trigger] current.contains_key(k) <==> order.contains(k),
                forall|k: KeyModel|
                    #[trigger] incoming@.contains_key(k) <==> view.contains_key(k) || exists|j: int|
                        0 <= j < i && order[j] == k,
                forall|k: KeyModel| #[trigger]
                    incoming@.contains_key(k) ==> incoming@[k] == if view.contains_key(k) {
                        view[k]
                    } else {
                        absent_entry(current[k], revision)
                    },
            decreases count - i,
        {
            let (key, entry) = self.placements.entry_at(i);
            let ghost earlier = incoming@;
            if !incoming.contains_key(key) {
                let evidence = match &entry.observation {
                    StoreObservation::Absent { evidence, .. } => *evidence,
                    _ => AbsenceEvidence::CoherentSnapshot,
                };
                incoming.insert(
                    key.copy(),
                    VersionedRecord {
                        version: revision,
                        authority: entry.authority.copy(),
                        observation: StoreObservation::Absent {
                            last_record: entry.observation.last_record().copy(),
                            evidence,
                        },
                    },
                );
            }
            proof {
                assert forall|k: KeyModel| #[trigger] incoming@.contains_key(k)
                    <==> view.contains_key(k) || exists|j: int| 0 <= j < i + 1 && order[j] == k by {
                    assert(order[i as int] == key@);
                    if exists|j: int| 0 <= j < i + 1 && order[j] == k {
                        let j = choose|j: int| 0 <= j < i + 1 && order[j] == k;
                        if j < i {
                            assert(earlier.contains_key(k));
                        }
                    }
                    if earlier.contains_key(k) && !view.contains_key(k) {
                        let j = choose|j: int| 0 <= j < i && order[j] == k;
                        assert(0 <= j < i + 1 && order[j] == k);
                    }
                }
            }
            i = i + 1;
        }
        proof {
            let target = merged(current, view, revision);
            assert forall|k: KeyModel| #[trigger] target.contains_key(k) implies incoming@.contains_key(
                k,
            ) by {
                if !view.contains_key(k) {
                    assert(order.contains(k));
                    let j = choose|j: int| 0 <= j < order.len() && order[j] == k;
                    assert(0 <= j < i && order[j] == k);
                }
            }
            assert forall|k: KeyModel| #[trigger] incoming@.contains_key(k) implies target.contains_key(
                k,
            ) by {
                if !view.contains_key(k) {
                    let j = choose|j: int| 0 <= j < i && order[j] == k;
                    assert(order.contains(k));
                }
            }
            assert(incoming@ =~= target);
        }
    }

    /// Forgets the leases that matter no more.
    fn prune_owner_leases(&mut self, instance_lease: LeaseId)
        ensures
            final(self)@ == (StateModel {
                valid_owner_leases: pruned_leases(
                    old(self)@.valid_owner_leases,
                    old(self)@.placements,
                    instance_lease,
                ),
                ..old(self)@
            }),
    {
        let count = self.placements.count();
        let ghost order = self.placements.order();
        let ghost placements = self.placements@;
        let mut retained = LeaseSet::new();
        let _ = retained.insert(instance_lease);
        let mut i: usize = 0;
        while i < count
            invariant
                i <= count,
                count == order.len(),
                self.placements.order() == order,
                self.placements@ == placements,
                *self == *old(self),
                forall|l: LeaseId|
                    #[trigger] retained@.contains(l) <==> l == instance_lease || exists|j: int|
                        0 <= j < i && local_lease(placements[#[trigger] order[j]]) == Some(l),
            decreases count - i,
        {
            let (_, entry) = self.placements.entry_at(i);
            let ghost earlier = retained@;
            let ghost lease = local_lease(placements[order[i as int]]);
            match entry.observation.local_record() {
                Some(record) => {
                    match OwnershipAuthorityFloor::of(record).lease_id {
                        Some(lease_id) => {
                            let _ = retained.insert(lease_id);
                        },
                        None => {},
                    }
                },
                None => {},
            }
            proof {
                assert forall|l: LeaseId| #[trigger] retained@.contains(l) <==> l == instance_lease
                    || exists|j: int|
                    0 <= j < i + 1 && local_lease(placements[#[trigger] order[j]]) == Some(l) by {
                    assert(retained@.contains(l) <==> earlier.contains(l) || lease == Some(l));
                    if earlier.contains(l) && l != instance_lease {
                        let j = choose|j: int|
                            0 <= j < i && local_lease(placements[#[trigger] order[j]]) == Some(l);
                        assert(0 <= j < i + 1 && local_lease(placements[order[j]]) == Some(l));
                    }
                    if lease == Some(l) {
                        assert(0 <= i < i + 1 && local_lease(placements[order[i as int]]) == Some(
                            l,
                        ));
                    }
                }
            }
            i = i + 1;
        }
        let ghost before = self.valid_owner_leases@;
        self.valid_owner_leases.retain_in(&retained);
        proof {
            assert forall|l: LeaseId| retained@.contains(l) <==> lease_matters(
                placements,
                instance_lease,
                l,
            ) by {
                if retained@.contains(l) && l != instance_lease {
                    let j = choose|j: int|
                        0 <= j < i && local_lease(placements[#[trigger] order[j]]) == Some(l);
                    assert(order.contains(order[j]));
                    assert(placements.contains_key(order[j]));
                }
                if lease_matters(placements, instance_lease, l) && l != instance_lease {
                    let k = choose|k: KeyModel| #[trigger]
                        placements.contains_key(k) && local_lease(placements[k]) == Some(l);
                    assert(order.contains(k));
                    let j = choose|j: int| 0 <= j < order.len() && order[j] == k;
                    assert(0 <= j < i && local_lease(placements[order[j]]) == Some(l));
                }
            }
            assert(self.valid_owner_leases@ =~= pruned_leases(before, placements, instance_lease));
            assert(self@ =~= (StateModel {
                valid_owner_leases: pruned_leases(before, placements, instance_lease),
                ..old(self)@
            }));
        }
    }
}

impl LocalOwnershipSnapshot {
    /// Replaces what is held by a coherent view, under a token that is still good.
    pub fn replace_from_resync(
        &mut self,
        token: OwnershipResyncToken,
        snapshot_revision: OwnershipRevision,
        records: Vec<OwnershipSnapshotRecord>,
    ) -> (result: Result<(), OwnershipSnapshotError>)
        ensures
            ({
                let outcome = old(self)@.resynced(
                    token.lease(),
                    token.issued(),
                    snapshot_revision,
                    seq_view(records@),
                );
                &&& fault_of(result) == outcome.1
                &&& final(self)@ == old(self)@.with_state(outcome.0)
            }),
    {
        assert(self@ =~= self@.with_state(self@.state));
        let mut collected = match self.collect_local_records(snapshot_revision, &records) {
            Err(error) => {
                return Err(error);
            },
            Ok(collected) => collected,
        };
        let current_lease = match &self.state.instance {
            None => {
                return Err(OwnershipSnapshotError::MissingInstanceLease);
            },
            Some(instance) => instance.lease_id,
        };
        if current_lease != token.lease_id() {
            self.fence(OwnershipFenceReason::Resyncing);
            return Err(
                OwnershipSnapshotError::StaleLease {
                    expected: current_lease,
                    actual: token.lease_id(),
                },
            );
        }
        if self.state.generation != token.generation() {
            let actual_generation = self.state.generation;
            self.fence(OwnershipFenceReason::Resyncing);
            return Err(
                OwnershipSnapshotError::StaleResync {
                    expected_generation: token.generation(),
                    actual_generation,
                },
            );
        }
        match self.state.revision {
            Some(current) => {
                if snapshot_revision.0 < current.0 {
                    self.fence(OwnershipFenceReason::Resyncing);
                    return Err(
                        OwnershipSnapshotError::StaleRevision {
                            current,
                            incoming: snapshot_revision,
                        },
                    );
                }
            },
            None => {},
        }
        match self.merge_resync_observations(&records) {
            Err(error) => {
                self.fence(OwnershipFenceReason::Resyncing);
                return Err(error);
            },
            Ok(()) => {},
        }
        self.state.note_absences(&mut collected, snapshot_revision);
        if collected.len() > self.max_entries {
            self.fence(OwnershipFenceReason::CapacityExceeded);
            return Err(OwnershipSnapshotError::CapacityExceeded { max_entries: self.max_entries });
        }
        self.state.placements = collected;
        self.state.prune_owner_leases(current_lease);
        self.state.revision = Some(snapshot_revision);
        self.state.availability = SnapshotAvailability::Ready;
        self.state.bump_generation();
        assert(self@ =~= old(self)@.with_state(
            old(self)@.replaced(token.lease(), snapshot_revision, seq_view(records@)),
        ));
        Ok(())
    }

    /// Installs one coherent backend view before its no-gap watch is consumed.
    ///
    /// The caller must only set `lease_valid` from local keepalive authority;
    /// presence in the registry snapshot alone is not liveness evidence.
    pub fn replace_from_view_snapshot(
        &mut self,
        snapshot: OwnershipViewSnapshot,
        lease_valid: bool,
    ) -> (result: Result<(), OwnershipSnapshotError>)
        ensures
            match snapshot.local_instance {
                None => final(self)@ == old(self)@ && fault_of(result) == Some(
                    ErrorModel::MissingLocalInstanceRecord,
                ),
                Some(instance) => {
                    let before = old(self)@;
                    if before.identity_fault(instance@) is Some {
                        final(self)@ == before && fault_of(result) == before.identity_fault(
                            instance@,
                        )
                    } else {
                        let fenced = before.with_state(
                            before.state.with_instance(instance@, lease_valid).unavailable(
                                OwnershipFenceReason::Resyncing,
                            ).bumped(),
                        );
                        let outcome = fenced.resynced(
                            instance.lease_id,
                            fenced.state.generation,
                            OwnershipRevision(snapshot.revision.0),
                            seq_view(snapshot.records@),
                        );
                        final(self)@ == before.with_state(outcome.0) && fault_of(result)
                            == outcome.1
                    }
                },
            },
    {
        let revision = OwnershipRevision(snapshot.revision.0);
        let instance = match snapshot.local_instance {
            None => {
                return Err(OwnershipSnapshotError::MissingLocalInstanceRecord);
            },
            Some(instance) => instance,
        };
        let lease_id = instance.lease_id;
        match self.install_local_instance(instance, lease_valid) {
            Err(error) => {
                return Err(error);
            },
            Ok(()) => {},
        }
        let token = match self.begin_resync(lease_id) {
            Err(error) => {
                return Err(error);
            },
            Ok(token) => token,
        };
        let records = snapshot_records(snapshot.records);
        let result = self.replace_from_resync(token, revision, records);
        assert(self@ =~= old(self)@.with_state(self@.state));
        result
    }
}

/// The records of a backend view, as a resync takes them.
fn snapshot_records(records: Vec<OwnershipViewRecord>) -> (converted: Vec<OwnershipSnapshotRecord>)
    ensures
        seq_view(converted@) == seq_view(records@),
{
    let mut converted: Vec<OwnershipSnapshotRecord> = Vec::new();
    let ghost source = records@;
    let mut records = records;
    let ghost n = records@.len();
    // Taken from the back, then put in order again.
    let mut reversed: Vec<OwnershipSnapshotRecord> = Vec::new();
    while records.len() > 0
        invariant
            records@.len() + reversed@.len() == n,
            n == source.len(),
            records@ == source.subrange(0, records@.len() as int),
            forall|j: int|
                0 <= j < reversed@.len() ==> (#[trigger] reversed@[j])@ == source[n - 1 - j]@,
        decreases records.len(),
    {
        let ghost last = records@.len() - 1;
        match records.pop() {
            Some(record) => {
                assert(record == source[last as int]);
                reversed.push(snapshot_record(record));
            },
            None => {},
        }
    }
    while reversed.len() > 0
        invariant
            reversed@.len() + converted@.len() == n,
            n == source.len(),
            forall|j: int|
                0 <= j < reversed@.len() ==> (#[trigger] reversed@[j])@ == source[n - 1 - j]@,
            forall|j: int| 0 <= j < converted@.len() ==> (#[trigger] converted@[j])@ == source[j]@,
        decreases reversed.len(),
    {
        match reversed.pop() {
            Some(record) => {
                converted.push(record);
            },
            None => {},
        }
    }
    assert(seq_view(converted@) =~= seq_view(source));
    converted
}

fn snapshot_record(record: OwnershipViewRecord) -> (converted: OwnershipSnapshotRecord)
    ensures
        converted@ == record@,
{
    match record {
        OwnershipViewRecord::Actor { revision, record, proof } => OwnershipSnapshotRecord::Actor {
            version: OwnershipRevision(revision.0),
            record,
            proof,
        },
        OwnershipViewRecord::VirtualShard {
            revision,
            record,
            proof,
        } => OwnershipSnapshotRecord::VirtualShard {
            version: OwnershipRevision(revision.0),
            record,
            proof,
        },
        OwnershipViewRecord::Singleton {
            revision,
            record,
            proof,
        } => OwnershipSnapshotRecord::Singleton {
            version: OwnershipRevision(revision.0),
            record,
            proof,
        },
    }
}

} // verus!
