//! The local view of ownership: what this instance may answer for.
//!
//! A snapshot holds what this instance has learnt of the placement store, one entry per
//! placement key. Entries are never dropped while the process lives: a key that left the
//! store stays as an absence, so that its epoch floor is not forgotten.
use vstd::prelude::*;

use crate::epoch_floor::{KeyModel, OwnershipProofError, RecordModel};
use crate::keymap::{copy_option, option_view, same_option, Key, KeyMap, seq_view};
use crate::leases::LeaseSet;
use crate::records::{
    ActorPlacementKey, ActorPlacementRecord, Epoch, InstanceId, InstanceIncarnation, InstanceState,
    LeaseId, OwnershipKey, OwnershipRecordBinding, ServiceKind, SingletonKey,
    SingletonPlacementRecord, VirtualShardPlacementKey, VirtualShardPlacementRecord,
};

pub mod gate;
pub mod gate_laws;
pub mod laws;
pub mod learning_laws;
pub mod resync;
pub mod snapshot;
pub mod unordered;
pub mod watch;

verus! {

const DEFAULT_MAX_OWNERSHIP_ENTRIES: usize = 65_536;

pub const MAX_OWNERSHIP_BATCH_EVENTS: usize = 65_536;

/// Monotonic revision from one authoritative placement snapshot/watch stream.
///
/// This must not be populated from a per-key version that can reset after a
/// delete and recreate. A gate stays fenced until its watcher can supply a
/// no-gap revision order.
#[derive(Debug, Clone, Copy, PartialEq, Eq, Structural, PartialOrd, Ord, Hash)]
pub struct OwnershipRevision(pub u64);

/// How many placements a snapshot holds at most; at least one.
#[derive(Debug, Clone, Copy, PartialEq, Eq, Structural)]
pub struct LocalOwnershipSnapshotConfig {
    max_entries: usize,
}

impl LocalOwnershipSnapshotConfig {
    #[verifier::type_invariant]
    spec fn is_nonzero(self) -> bool {
        self.max_entries > 0
    }

    pub closed spec fn limit(self) -> usize {
        self.max_entries
    }

    pub fn try_new(max_entries: usize) -> (config: Result<Self, OwnershipSnapshotError>)
        ensures
            match config {
                Ok(c) => max_entries > 0 && c.limit() == max_entries,
                Err(error) => max_entries == 0 && error is InvalidCapacity,
            },
    {
        if max_entries == 0 {
            return Err(OwnershipSnapshotError::InvalidCapacity);
        }
        Ok(LocalOwnershipSnapshotConfig { max_entries })
    }

    pub fn max_entries(self) -> (max_entries: usize)
        ensures
            max_entries == self.limit(),
            max_entries > 0,
    {
        proof {
            use_type_invariant(&self);
        }
        self.max_entries
    }
}

impl Default for LocalOwnershipSnapshotConfig {
    fn default() -> (config: Self)
        ensures
            config.limit() == 65_536,
    {
        LocalOwnershipSnapshotConfig { max_entries: DEFAULT_MAX_OWNERSHIP_ENTRIES }
    }
}

/// Why a change of the snapshot is refused.
#[allow(inconsistent_fields)]
#[derive(Debug, PartialEq, Eq)]
pub enum OwnershipSnapshotError<S = String, B = Vec<u8>> {
    /// The capacity must be greater than zero.
    InvalidCapacity,
    ServiceMismatch { expected: S, actual: S },
    InstanceMismatch { expected: S, actual: S },
    InstanceIncarnationMismatch { expected: S, actual: S },
    /// There is no active instance lease.
    MissingInstanceLease,
    /// A coherent view omitted the local instance record.
    MissingLocalInstanceRecord,
    StaleLease { expected: LeaseId, actual: LeaseId },
    StaleResync { expected_generation: u64, actual_generation: u64 },
    StaleRevision { current: OwnershipRevision, incoming: OwnershipRevision },
    RecordAheadOfSnapshot { record: OwnershipRevision, snapshot: OwnershipRevision },
    CapacityExceeded { max_entries: usize },
    EmptyWatchBatch,
    WatchBatchCapacityExceeded { max_events: usize },
    DuplicateInstanceEvent,
    DuplicatePlacementEvent { key: Box<OwnershipKey<S, B>> },
    PlacementKeyMismatch { event: Box<OwnershipKey<S, B>>, record: Box<OwnershipKey<S, B>> },
    EpochRegression { key: Box<OwnershipKey<S, B>>, current: Epoch, incoming: Epoch },
    /// The authority changed without advancing the epoch.
    EpochAuthorityConflict { key: Box<OwnershipKey<S, B>>, epoch: Epoch },
    /// A removed placement cannot come back at its removed epoch.
    EpochReactivation { key: Box<OwnershipKey<S, B>>, epoch: Epoch },
    ResurrectionRevisionNotAdvanced {
        key: Box<OwnershipKey<S, B>>,
        absence: OwnershipRevision,
        incoming: OwnershipRevision,
    },
    Proof { error: OwnershipProofError<S, B> },
}

pub type ErrorModel = OwnershipSnapshotError<Seq<char>, Seq<u8>>;

impl View for OwnershipSnapshotError {
    type V = ErrorModel;

    open spec fn view(&self) -> ErrorModel {
        match self {
            OwnershipSnapshotError::InvalidCapacity => OwnershipSnapshotError::InvalidCapacity,
            OwnershipSnapshotError::ServiceMismatch { expected, actual } => OwnershipSnapshotError::ServiceMismatch {
                expected: expected@,
                actual: actual@,
            },
            OwnershipSnapshotError::InstanceMismatch { expected, actual } => OwnershipSnapshotError::InstanceMismatch {
                expected: expected@,
                actual: actual@,
            },
            OwnershipSnapshotError::InstanceIncarnationMismatch { expected, actual } => OwnershipSnapshotError::InstanceIncarnationMismatch {
                expected: expected@,
                actual: actual@,
            },
            OwnershipSnapshotError::MissingInstanceLease => OwnershipSnapshotError::MissingInstanceLease,
            OwnershipSnapshotError::MissingLocalInstanceRecord => OwnershipSnapshotError::MissingLocalInstanceRecord,
            OwnershipSnapshotError::StaleLease { expected, actual } => OwnershipSnapshotError::StaleLease {
                expected: *expected,
                actual: *actual,
            },
            OwnershipSnapshotError::StaleResync { expected_generation, actual_generation } => OwnershipSnapshotError::StaleResync {
                expected_generation: *expected_generation,
                actual_generation: *actual_generation,
            },
            OwnershipSnapshotError::StaleRevision { current, incoming } => OwnershipSnapshotError::StaleRevision {
                current: *current,
                incoming: *incoming,
            },
            OwnershipSnapshotError::RecordAheadOfSnapshot { record, snapshot } => OwnershipSnapshotError::RecordAheadOfSnapshot {
                record: *record,
                snapshot: *snapshot,
            },
            OwnershipSnapshotError::CapacityExceeded { max_entries } => OwnershipSnapshotError::CapacityExceeded {
                max_entries: *max_entries,
            },
            OwnershipSnapshotError::EmptyWatchBatch => OwnershipSnapshotError::EmptyWatchBatch,
            OwnershipSnapshotError::WatchBatchCapacityExceeded { max_events } => OwnershipSnapshotError::WatchBatchCapacityExceeded {
                max_events: *max_events,
            },
            OwnershipSnapshotError::DuplicateInstanceEvent => OwnershipSnapshotError::DuplicateInstanceEvent,
            OwnershipSnapshotError::DuplicatePlacementEvent { key } => OwnershipSnapshotError::DuplicatePlacementEvent {
                key: Box::new(key@),
            },
            OwnershipSnapshotError::PlacementKeyMismatch { event, record } => OwnershipSnapshotError::PlacementKeyMismatch {
                event: Box::new(event@),
                record: Box::new(record@),
            },
            OwnershipSnapshotError::EpochRegression { key, current, incoming } => OwnershipSnapshotError::EpochRegression {
                key: Box::new(key@),
                current: *current,
                incoming: *incoming,
            },
            OwnershipSnapshotError::EpochAuthorityConflict { key, epoch } => OwnershipSnapshotError::EpochAuthorityConflict {
                key: Box::new(key@),
                epoch: *epoch,
            },
            OwnershipSnapshotError::EpochReactivation { key, epoch } => OwnershipSnapshotError::EpochReactivation {
                key: Box::new(key@),
                epoch: *epoch,
            },
            OwnershipSnapshotError::ResurrectionRevisionNotAdvanced { key, absence, incoming } => OwnershipSnapshotError::ResurrectionRevisionNotAdvanced {
                key: Box::new(key@),
                absence: *absence,
                incoming: *incoming,
            },
            OwnershipSnapshotError::Proof { error } => OwnershipSnapshotError::Proof {
                error: error@,
            },
        }
    }
}

/// The fault of a result, or none where it succeeded.
pub open spec fn fault_of<T>(result: Result<T, OwnershipSnapshotError>) -> Option<ErrorModel> {
    match result {
        Ok(_) => None,
        Err(error) => Some(error@),
    }
}

#[derive(Debug, Clone, Copy, PartialEq, Eq, Structural)]
pub enum OwnershipFenceReason {
    Initializing,
    Resyncing,
    WatchLost,
    LeaseLost,
    CapacityExceeded,
    Manual,
}

#[derive(Debug, Clone, Copy, PartialEq, Eq, Structural)]
pub enum SnapshotAvailability {
    Ready,
    Unavailable(OwnershipFenceReason),
}

/// The registration under which this instance acts.
#[derive(Debug, PartialEq, Eq)]
pub struct LocalInstanceAuthority<S = String> {
    pub lease_id: LeaseId,
    pub incarnation: S,
    pub state: InstanceState,
}

impl View for LocalInstanceAuthority {
    type V = LocalInstanceAuthority<Seq<char>>;

    open spec fn view(&self) -> Self::V {
        LocalInstanceAuthority {
            lease_id: self.lease_id,
            incarnation: self.incarnation@,
            state: self.state,
        }
    }
}

impl Key for LocalInstanceAuthority {
    fn same(&self, other: &Self) -> (same: bool) {
        self.lease_id == other.lease_id && self.incarnation.same(&other.incarnation) && self.state
            == other.state
    }

    fn copy(&self) -> (copy: Self) {
        LocalInstanceAuthority {
            lease_id: self.lease_id,
            incarnation: self.incarnation.copy(),
            state: self.state,
        }
    }
}

#[derive(Debug, Clone, Copy, PartialEq, Eq, Structural)]
pub enum AbsenceEvidence {
    ExactDelete,
    CoherentSnapshot,
}

/// What was last seen of a placement.
#[derive(Debug, PartialEq, Eq)]
pub enum StoreObservation<T> {
    PresentLocal(T),
    PresentRemote(T),
    LifecycleFenced(T),
    Absent { last_record: T, evidence: AbsenceEvidence },
}

impl<T: View> View for StoreObservation<T> {
    type V = StoreObservation<T::V>;

    open spec fn view(&self) -> StoreObservation<T::V> {
        match self {
            StoreObservation::PresentLocal(record) => StoreObservation::PresentLocal(record@),
            StoreObservation::PresentRemote(record) => StoreObservation::PresentRemote(record@),
            StoreObservation::LifecycleFenced(record) => StoreObservation::LifecycleFenced(record@),
            StoreObservation::Absent { last_record, evidence } => StoreObservation::Absent {
                last_record: last_record@,
                evidence: *evidence,
            },
        }
    }
}

impl<T> StoreObservation<T> {
    /// The record, where this instance owns the placement.
    pub open spec fn local(self) -> Option<T> {
        match self {
            StoreObservation::PresentLocal(record) => Some(record),
            _ => None,
        }
    }

    /// The record, where the store still holds it.
    pub open spec fn stored(self) -> Option<T> {
        match self {
            StoreObservation::PresentLocal(record) => Some(record),
            StoreObservation::PresentRemote(record) => Some(record),
            StoreObservation::LifecycleFenced(record) => Some(record),
            StoreObservation::Absent { .. } => None,
        }
    }

    /// The record as it was last seen.
    pub open spec fn last(self) -> T {
        match self {
            StoreObservation::PresentLocal(record) => record,
            StoreObservation::PresentRemote(record) => record,
            StoreObservation::LifecycleFenced(record) => record,
            StoreObservation::Absent { last_record, .. } => last_record,
        }
    }

    /// The observation once this instance has lost the lease under which it owned.
    pub open spec fn fenced(self) -> StoreObservation<T> {
        match self {
            StoreObservation::PresentLocal(record) => StoreObservation::LifecycleFenced(record),
            other => other,
        }
    }

    pub fn present(record: T, is_local: bool) -> (observation: Self)
        ensures
            observation == if is_local {
                StoreObservation::PresentLocal(record)
            } else {
                StoreObservation::PresentRemote(record)
            },
    {
        if is_local {
            StoreObservation::PresentLocal(record)
        } else {
            StoreObservation::PresentRemote(record)
        }
    }

    pub fn local_record(&self) -> (record: Option<&T>)
        ensures
            match record {
                Some(r) => self.local() == Some(*r),
                None => self.local() is None,
            },
    {
        match self {
            StoreObservation::PresentLocal(record) => Some(record),
            _ => None,
        }
    }

    pub fn store_present_record(&self) -> (record: Option<&T>)
        ensures
            match record {
                Some(r) => self.stored() == Some(*r),
                None => self.stored() is None,
            },
    {
        match self {
            StoreObservation::PresentLocal(record) => Some(record),
            StoreObservation::PresentRemote(record) => Some(record),
            StoreObservation::LifecycleFenced(record) => Some(record),
            StoreObservation::Absent { .. } => None,
        }
    }

    pub fn last_record(&self) -> (record: &T)
        ensures
            *record == self.last(),
    {
        match self {
            StoreObservation::PresentLocal(record) => record,
            StoreObservation::PresentRemote(record) => record,
            StoreObservation::LifecycleFenced(record) => record,
            StoreObservation::Absent { last_record, .. } => last_record,
        }
    }

    pub fn is_absent(&self) -> (absent: bool)
        ensures
            absent == (self is Absent),
    {
        match self {
            StoreObservation::Absent { .. } => true,
            _ => false,
        }
    }

    pub fn is_lifecycle_fenced(&self) -> (fenced: bool)
        ensures
            fenced == (self is LifecycleFenced),
    {
        match self {
            StoreObservation::LifecycleFenced(_) => true,
            _ => false,
        }
    }
}

impl<T: Key> StoreObservation<T> {
    /// Fences a local observation, and says whether there was one to fence.
    pub fn fence_local_for_lifecycle(&mut self) -> (fenced: bool)
        ensures
            final(self)@ == old(self)@.fenced(),
            fenced == (old(self)@ is PresentLocal),
    {
        let record = match self {
            StoreObservation::PresentLocal(record) => record.copy(),
            _ => {
                return false;
            },
        };
        *self = StoreObservation::LifecycleFenced(record);
        true
    }

    pub fn copy_observation(&self) -> (copy: Self)
        ensures
            copy@ == self@,
    {
        match self {
            StoreObservation::PresentLocal(record) => StoreObservation::PresentLocal(record.copy()),
            StoreObservation::PresentRemote(record) => StoreObservation::PresentRemote(
                record.copy(),
            ),
            StoreObservation::LifecycleFenced(record) => StoreObservation::LifecycleFenced(
                record.copy(),
            ),
            StoreObservation::Absent { last_record, evidence } => StoreObservation::Absent {
                last_record: last_record.copy(),
                evidence: *evidence,
            },
        }
    }
}

/// The authority under which a placement was last seen; its epoch is a floor.
#[derive(Debug, PartialEq, Eq)]
pub struct OwnershipAuthorityFloor<S = String> {
    pub epoch: Epoch,
    pub owner: S,
    pub owner_incarnation: Option<S>,
    pub lease_id: Option<LeaseId>,
}

pub type FloorModel = OwnershipAuthorityFloor<Seq<char>>;

impl View for OwnershipAuthorityFloor {
    type V = FloorModel;

    open spec fn view(&self) -> FloorModel {
        OwnershipAuthorityFloor {
            epoch: self.epoch,
            owner: self.owner@,
            owner_incarnation: option_view(self.owner_incarnation),
            lease_id: self.lease_id,
        }
    }
}

impl Key for OwnershipAuthorityFloor {
    fn same(&self, other: &Self) -> (same: bool) {
        self.epoch == other.epoch && self.owner.same(&other.owner) && same_option(
            &self.owner_incarnation,
            &other.owner_incarnation,
        ) && same_lease(self.lease_id, other.lease_id)
    }

    fn copy(&self) -> (copy: Self) {
        OwnershipAuthorityFloor {
            epoch: self.epoch,
            owner: self.owner.copy(),
            owner_incarnation: copy_option(&self.owner_incarnation),
            lease_id: self.lease_id,
        }
    }
}

pub fn same_lease(left: Option<LeaseId>, right: Option<LeaseId>) -> (same: bool)
    ensures
        same == (left == right),
{
    match (left, right) {
        (Some(a), Some(b)) => a == b,
        (None, None) => true,
        _ => false,
    }
}

/// The authority that a record states.
pub open spec fn floor_of(record: RecordModel) -> FloorModel {
    match record {
        OwnershipRecordBinding::Actor(r) => OwnershipAuthorityFloor {
            epoch: r.epoch,
            owner: r.owner,
            owner_incarnation: None,
            lease_id: Some(r.lease_id),
        },
        OwnershipRecordBinding::VirtualShard(r) => OwnershipAuthorityFloor {
            epoch: r.epoch,
            owner: r.owner,
            owner_incarnation: None,
            lease_id: None,
        },
        OwnershipRecordBinding::Singleton(r) => OwnershipAuthorityFloor {
            epoch: r.epoch,
            owner: r.owner,
            owner_incarnation: Some(r.owner_incarnation),
            lease_id: Some(r.lease_id),
        },
    }
}

impl OwnershipAuthorityFloor {
    pub fn actor(record: &ActorPlacementRecord) -> (floor: Self)
        ensures
            floor@ == floor_of(OwnershipRecordBinding::Actor(record@)),
    {
        OwnershipAuthorityFloor {
            epoch: record.epoch,
            owner: record.owner.copy(),
            owner_incarnation: None,
            lease_id: Some(record.lease_id),
        }
    }

    pub fn virtual_shard(record: &VirtualShardPlacementRecord) -> (floor: Self)
        ensures
            floor@ == floor_of(OwnershipRecordBinding::VirtualShard(record@)),
    {
        OwnershipAuthorityFloor {
            epoch: record.epoch,
            owner: record.owner.copy(),
            owner_incarnation: None,
            lease_id: None,
        }
    }

    pub fn singleton(record: &SingletonPlacementRecord) -> (floor: Self)
        ensures
            floor@ == floor_of(OwnershipRecordBinding::Singleton(record@)),
    {
        OwnershipAuthorityFloor {
            epoch: record.epoch,
            owner: record.owner.copy(),
            owner_incarnation: Some(record.owner_incarnation.copy()),
            lease_id: Some(record.lease_id),
        }
    }

    pub fn of(record: &OwnershipRecordBinding) -> (floor: Self)
        ensures
            floor@ == floor_of(record@),
    {
        match record {
            OwnershipRecordBinding::Actor(r) => Self::actor(r),
            OwnershipRecordBinding::VirtualShard(r) => Self::virtual_shard(r),
            OwnershipRecordBinding::Singleton(r) => Self::singleton(r),
        }
    }
}

/// What a snapshot holds under one key.
#[derive(Debug, PartialEq, Eq)]
pub struct VersionedRecord<S = String, B = Vec<u8>> {
    pub version: OwnershipRevision,
    pub authority: OwnershipAuthorityFloor<S>,
    pub observation: StoreObservation<OwnershipRecordBinding<S, B>>,
}

pub type EntryModel = VersionedRecord<Seq<char>, Seq<u8>>;

impl View for VersionedRecord {
    type V = EntryModel;

    open spec fn view(&self) -> EntryModel {
        VersionedRecord {
            version: self.version,
            authority: self.authority@,
            observation: self.observation@,
        }
    }
}

impl VersionedRecord {
    pub fn copy_entry(&self) -> (copy: Self)
        ensures
            copy@ == self@,
    {
        VersionedRecord {
            version: self.version,
            authority: self.authority.copy(),
            observation: self.observation.copy_observation(),
        }
    }
}

/// An entry once this instance has lost the lease under which it owned.
pub open spec fn fenced_entry(entry: EntryModel) -> EntryModel {
    VersionedRecord { observation: entry.observation.fenced(), ..entry }
}

/// What a snapshot has learnt.
#[verifier::ext_equal]
pub struct StateModel {
    pub generation: u64,
    pub revision: Option<OwnershipRevision>,
    pub availability: SnapshotAvailability,
    pub instance: Option<LocalInstanceAuthority<Seq<char>>>,
    pub valid_owner_leases: Set<LeaseId>,
    pub placements: Map<KeyModel, EntryModel>,
}

impl StateModel {
    /// The state under the next generation, which revokes every grant made so far.
    pub open spec fn bumped(self) -> StateModel {
        StateModel { generation: next_generation(self.generation), ..self }
    }

    pub open spec fn unavailable(self, reason: OwnershipFenceReason) -> StateModel {
        StateModel { availability: SnapshotAvailability::Unavailable(reason), ..self }
    }

    /// The state once every local placement has lost its lease.
    pub open spec fn placements_fenced(self) -> StateModel {
        StateModel {
            placements: self.placements.map_values(|entry: EntryModel| fenced_entry(entry)),
            ..self
        }
    }

    pub open spec fn leases_cleared(self) -> StateModel {
        StateModel { valid_owner_leases: Set::empty(), ..self }
    }

    pub open spec fn entry_count(self) -> nat {
        self.placements.dom().len()
    }
}

/// Generations wrap around.
pub open spec fn next_generation(generation: u64) -> u64 {
    if generation == u64::MAX {
        0
    } else {
        (generation + 1) as u64
    }
}

pub struct LocalOwnershipState {
    generation: u64,
    revision: Option<OwnershipRevision>,
    availability: SnapshotAvailability,
    instance: Option<LocalInstanceAuthority>,
    valid_owner_leases: LeaseSet,
    placements: KeyMap<OwnershipKey, VersionedRecord>,
}

impl View for LocalOwnershipState {
    type V = StateModel;

    closed spec fn view(&self) -> StateModel {
        StateModel {
            generation: self.generation,
            revision: self.revision,
            availability: self.availability,
            instance: option_view(self.instance),
            valid_owner_leases: self.valid_owner_leases@,
            placements: self.placements@,
        }
    }
}

impl LocalOwnershipState {
    pub fn generation(&self) -> (generation: u64)
        ensures
            generation == self@.generation,
    {
        self.generation
    }

    pub fn revision(&self) -> (revision: Option<OwnershipRevision>)
        ensures
            revision == self@.revision,
    {
        self.revision
    }

    pub fn availability(&self) -> (availability: SnapshotAvailability)
        ensures
            availability == self@.availability,
    {
        self.availability
    }

    pub fn instance(&self) -> (instance: Option<&LocalInstanceAuthority>)
        ensures
            match instance {
                Some(i) => self@.instance == Some(i@),
                None => self@.instance is None,
            },
    {
        match &self.instance {
            Some(instance) => Some(instance),
            None => None,
        }
    }

    pub fn owner_lease_is_valid(&self, lease_id: LeaseId) -> (valid: bool)
        ensures
            valid == self@.valid_owner_leases.contains(lease_id),
    {
        self.valid_owner_leases.contains(lease_id)
    }

    pub fn owner_lease_count(&self) -> (count: usize)
        ensures
            count == self@.valid_owner_leases.len(),
    {
        self.valid_owner_leases.len()
    }

    pub fn placement(&self, key: &OwnershipKey) -> (entry: Option<&VersionedRecord>)
        ensures
            match entry {
                Some(e) => self@.placements.contains_key(key@) && self@.placements[key@] == e@,
                None => !self@.placements.contains_key(key@),
            },
    {
        self.placements.get(key)
    }

    /// The keys under which anything is known, each of them once.
    pub fn placement_keys(&self) -> (keys: Vec<OwnershipKey>)
        ensures
            seq_view(keys@).no_duplicates(),
            forall|key: KeyModel| #[trigger]
                seq_view(keys@).contains(key) <==> self@.placements.contains_key(key),
    {
        let count = self.placements.count();
        let ghost order = self.placements.order();
        let mut keys: Vec<OwnershipKey> = Vec::new();
        let mut i: usize = 0;
        while i < count
            invariant
                i <= count,
                count == order.len(),
                order == self.placements.order(),
                keys.len() == i,
                forall|j: int| 0 <= j < i ==> (#[trigger] keys@[j])@ == order[j],
            decreases count - i,
        {
            let (key, _) = self.placements.entry_at(i);
            keys.push(key.copy());
            i = i + 1;
        }
        assert(seq_view(keys@) =~= order);
        keys
    }

    pub fn entry_count(&self) -> (count: usize)
        ensures
            count == self@.entry_count(),
    {
        self.placements.len()
    }

    fn bump_generation(&mut self)
        ensures
            final(self)@ == old(self)@.bumped(),
    {
        self.generation = self.generation.wrapping_add(1);
        assert(self@ =~= old(self)@.bumped());
    }

    fn make_unavailable(&mut self, reason: OwnershipFenceReason)
        ensures
            final(self)@ == old(self)@.unavailable(reason),
    {
        self.availability = SnapshotAvailability::Unavailable(reason);
        assert(self@ =~= old(self)@.unavailable(reason));
    }

    fn clear_leases(&mut self)
        ensures
            final(self)@ == old(self)@.leases_cleared(),
    {
        self.valid_owner_leases = LeaseSet::new();
        assert(self@ =~= old(self)@.leases_cleared());
    }

    fn fence_local_placements_for_lifecycle(&mut self)
        ensures
            final(self)@ == old(self)@.placements_fenced(),
    {
        let count = self.placements.count();
        let mut fenced: KeyMap<OwnershipKey, VersionedRecord> = KeyMap::new();
        let ghost order = self.placements.order();
        let ghost before = self.placements@;
        let mut i: usize = 0;
        while i < count
            invariant
                i <= count,
                count == order.len(),
                order.no_duplicates(),
                self.placements.order() == order,
                self.placements@ == before,
                forall|k: KeyModel| #[trigger] before.contains_key(k) <==> order.contains(k),
                forall|k: KeyModel|
                    #[trigger] fenced@.contains_key(k) <==> exists|j: int|
                        0 <= j < i && order[j] == k,
                forall|k: KeyModel| #[trigger]
                    fenced@.contains_key(k) ==> before.contains_key(k) && fenced@[k]
                        == fenced_entry(before[k]),
                *self == *old(self),
            decreases count - i,
        {
            let (key, entry) = self.placements.entry_at(i);
            let mut copy = entry.copy_entry();
            let _ = copy.observation.fence_local_for_lifecycle();
            let ghost earlier = fenced@;
            fenced.insert(key.copy(), copy);
            proof {
                assert forall|k: KeyModel| #[trigger] fenced@.contains_key(k) <==> exists|j: int|
                    0 <= j < i + 1 && order[j] == k by {
                    if earlier.contains_key(k) {
                        let j = choose|j: int| 0 <= j < i && order[j] == k;
                        assert(order[j] == k);
                    }
                    if exists|j: int| 0 <= j < i + 1 && order[j] == k {
                        let j = choose|j: int| 0 <= j < i + 1 && order[j] == k;
                        if j < i {
                            assert(earlier.contains_key(k));
                        }
                    }
                    assert(order[i as int] == key@);
                }
            }
            i = i + 1;
        }
        proof {
            let target = old(self)@.placements_fenced().placements;
            assert forall|k: KeyModel| #[trigger] target.contains_key(k) implies fenced@.contains_key(
                k,
            ) by {
                assert(before.contains_key(k));
                assert(order.contains(k));
                let j = choose|j: int| 0 <= j < order.len() && order[j] == k;
                assert(0 <= j < i && order[j] == k);
            }
            assert(fenced@ =~= target);
        }
        self.placements = fenced;
        assert(self@ =~= old(self)@.placements_fenced());
    }

    fn copy_state(&self) -> (copy: Self)
        ensures
            copy@ == self@,
    {
        let count = self.placements.count();
        let mut placements: KeyMap<OwnershipKey, VersionedRecord> = KeyMap::new();
        let ghost order = self.placements.order();
        let mut i: usize = 0;
        while i < count
            invariant
                i <= count,
                count == order.len(),
                self.placements.order() == order,
                forall|k: KeyModel|
                    #[trigger] placements@.contains_key(k) <==> exists|j: int|
                        0 <= j < i && order[j] == k,
                forall|k: KeyModel| #[trigger]
                    placements@.contains_key(k) ==> self.placements@.contains_key(k)
                        && placements@[k] == self.placements@[k],
            decreases count - i,
        {
            let (key, entry) = self.placements.entry_at(i);
            let ghost earlier = placements@;
            placements.insert(key.copy(), entry.copy_entry());
            proof {
                assert forall|k: KeyModel| #[trigger] placements@.contains_key(k) <==> exists|
                    j: int,
                |
                    0 <= j < i + 1 && order[j] == k by {
                    if earlier.contains_key(k) {
                        let j = choose|j: int| 0 <= j < i && order[j] == k;
                        assert(order[j] == k);
                    }
                    if exists|j: int| 0 <= j < i + 1 && order[j] == k {
                        let j = choose|j: int| 0 <= j < i + 1 && order[j] == k;
                        if j < i {
                            assert(earlier.contains_key(k));
                        }
                    }
                    assert(order[i as int] == key@);
                }
            }
            i = i + 1;
        }
        proof {
            assert forall|k: KeyModel| #[trigger] self.placements@.contains_key(k) implies placements@.contains_key(
                k,
            ) by {
                assert(order.contains(k));
                let j = choose|j: int| 0 <= j < order.len() && order[j] == k;
                assert(0 <= j < i && order[j] == k);
            }
            assert(placements@ =~= self.placements@);
        }
        let copy = LocalOwnershipState {
            generation: self.generation,
            revision: self.revision,
            availability: self.availability,
            instance: copy_option(&self.instance),
            valid_owner_leases: self.valid_owner_leases.copy(),
            placements,
        };
        assert(copy@ =~= self@);
        copy
    }
}

/// The identity and the limit of a snapshot, and what it has learnt.
#[verifier::ext_equal]
pub struct SnapshotModel {
    pub service_kind: Seq<char>,
    pub instance_id: Seq<char>,
    pub incarnation: Seq<char>,
    pub max_entries: usize,
    pub state: StateModel,
}

impl SnapshotModel {
    pub open spec fn with_state(self, state: StateModel) -> SnapshotModel {
        SnapshotModel { state, ..self }
    }

    pub open spec fn capacity_error(self) -> ErrorModel {
        OwnershipSnapshotError::CapacityExceeded { max_entries: self.max_entries }
    }
}

/// What one instance of a service knows of the placements of that service.
pub struct LocalOwnershipSnapshot {
    service_kind: ServiceKind,
    instance_id: InstanceId,
    instance_incarnation: InstanceIncarnation,
    max_entries: usize,
    state: LocalOwnershipState,
}

impl View for LocalOwnershipSnapshot {
    type V = SnapshotModel;

    closed spec fn view(&self) -> SnapshotModel {
        SnapshotModel {
            service_kind: self.service_kind@,
            instance_id: self.instance_id@,
            incarnation: self.instance_incarnation@,
            max_entries: self.max_entries,
            state: self.state@,
        }
    }
}

/// Why the authority under a key cannot follow the one that is held, if it cannot.
pub open spec fn authority_fault(
    key: KeyModel,
    current: FloorModel,
    incoming: FloorModel,
    reactivating: bool,
) -> Option<ErrorModel> {
    if incoming.epoch.0 < current.epoch.0 {
        Some(
            OwnershipSnapshotError::EpochRegression {
                key: Box::new(key),
                current: current.epoch,
                incoming: incoming.epoch,
            },
        )
    } else if incoming.epoch == current.epoch && (incoming.owner != current.owner
        || incoming.lease_id != current.lease_id) {
        Some(
            OwnershipSnapshotError::EpochAuthorityConflict {
                key: Box::new(key),
                epoch: incoming.epoch,
            },
        )
    } else if incoming.epoch == current.epoch && reactivating {
        Some(
            OwnershipSnapshotError::EpochReactivation { key: Box::new(key), epoch: incoming.epoch },
        )
    } else {
        None
    }
}

pub fn validate_authority_progression(
    key: OwnershipKey,
    current: &OwnershipAuthorityFloor,
    incoming: &OwnershipAuthorityFloor,
    reactivating: bool,
) -> (result: Result<(), OwnershipSnapshotError>)
    ensures
        fault_of(result) == authority_fault(key@, current@, incoming@, reactivating),
{
    if incoming.epoch.0 < current.epoch.0 {
        return Err(
            OwnershipSnapshotError::EpochRegression {
                key: Box::new(key),
                current: current.epoch,
                incoming: incoming.epoch,
            },
        );
    }
    if incoming.epoch == current.epoch && (!incoming.owner.same(&current.owner) || !same_lease(
        incoming.lease_id,
        current.lease_id,
    )) {
        return Err(
            OwnershipSnapshotError::EpochAuthorityConflict {
                key: Box::new(key),
                epoch: incoming.epoch,
            },
        );
    }
    if incoming.epoch == current.epoch && reactivating {
        return Err(
            OwnershipSnapshotError::EpochReactivation { key: Box::new(key), epoch: incoming.epoch },
        );
    }
    Ok(())
}

/// What this instance may answer for under a key, before and after: a difference revokes.
pub open spec fn local_view(placements: Map<KeyModel, EntryModel>, key: KeyModel) -> Option<
    RecordModel,
> {
    if placements.contains_key(key) {
        placements[key].observation.local()
    } else {
        None
    }
}

/// Whether a record that arrives, local or not, changes what this instance answers for.
fn local_authorization_changed(
    current: Option<&VersionedRecord>,
    incoming_local: Option<&OwnershipRecordBinding>,
) -> (changed: bool)
    ensures
        changed == (match current {
            Some(entry) => entry@.observation.local(),
            None => None,
        } != match incoming_local {
            Some(record) => Some(record@),
            None => None,
        }),
{
    let held = match current {
        Some(entry) => entry.observation.local_record(),
        None => None,
    };
    match (held, incoming_local) {
        (Some(a), Some(b)) => !a.same(b),
        (None, None) => false,
        _ => true,
    }
}

pub fn actor_key(record: &ActorPlacementRecord) -> (key: ActorPlacementKey)
    ensures
        OwnershipKey::Explicit(key@) == OwnershipRecordBinding::Actor(record@).key(),
{
    ActorPlacementKey {
        service_kind: record.service_kind.copy(),
        actor_kind: record.actor_kind.copy(),
        actor_id: record.actor_id.copy(),
    }
}

pub fn virtual_shard_key(record: &VirtualShardPlacementRecord) -> (key: VirtualShardPlacementKey)
    ensures
        OwnershipKey::<Seq<char>, Seq<u8>>::VirtualShard(key@)
            == OwnershipRecordBinding::<Seq<char>, Seq<u8>>::VirtualShard(record@).key(),
{
    VirtualShardPlacementKey {
        service_kind: record.service_kind.copy(),
        actor_kind: record.actor_kind.copy(),
        shard_id: record.shard_id,
    }
}

pub fn singleton_key(record: &SingletonPlacementRecord) -> (key: SingletonKey)
    ensures
        OwnershipKey::<Seq<char>, Seq<u8>>::Singleton(key@)
            == OwnershipRecordBinding::<Seq<char>, Seq<u8>>::Singleton(record@).key(),
{
    SingletonKey {
        service_kind: record.service_kind.copy(),
        singleton_kind: record.singleton_kind.copy(),
        scope: record.scope.copy(),
    }
}

} // verus!
