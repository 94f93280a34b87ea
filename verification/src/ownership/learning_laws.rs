//! What a snapshot learns of instances, leases and placements, and what it refuses to learn.
use vstd::prelude::*;

use crate::epoch_floor::{
    delete_fault, proof_fault, upsert_fault, KeyModel, OwnershipProofContext, OwnershipProofError,
    ProofErrorModel, ProofModel, RecordModel,
};
use crate::ownership::resync::{
    absent_entry, family_of, lease_matters, merged, pruned_leases, Family, SnapshotRecordModel,
};
use crate::ownership::snapshot::{
    authority_of, fresh_snapshot, lease_changes, lease_marked, lease_overflow, rejection_fence,
    removal_applies, removed_entry, InstanceModel,
};
use crate::ownership::watch::EventModel;
use crate::ownership::{
    authority_fault, fenced_entry, floor_of, local_view, next_generation, AbsenceEvidence,
    EntryModel, ErrorModel, FloorModel, OwnershipFenceReason, OwnershipRevision,
    OwnershipSnapshotError, SnapshotAvailability, SnapshotModel, StateModel, StoreObservation,
};
use crate::records::{
    ActorPlacementKey, Epoch, LeaseId, OwnershipKey, OwnershipRecordBinding, PlacementRevision,
    SingletonKey, VirtualShardPlacementKey,
};

verus! {

/// A record stands under the key of what it places, belongs to the service of that key, and states
/// its owner, its epoch and, where it has them, the incarnation of the owner and the lease.
pub proof fn law_records_state_what_they_place(record: RecordModel)
    ensures
        record matches OwnershipRecordBinding::Actor(r) ==> {
            &&& record.key() == OwnershipKey::Explicit(
                ActorPlacementKey {
                    service_kind: r.service_kind,
                    actor_kind: r.actor_kind,
                    actor_id: r.actor_id,
                },
            )
            &&& record.service() == r.service_kind
            &&& record.spec_owner() == r.owner
            &&& record.spec_epoch() == r.epoch
            &&& floor_of(record) == (FloorModel {
                epoch: r.epoch,
                owner: r.owner,
                owner_incarnation: None,
                lease_id: Some(r.lease_id),
            })
            &&& family_of(record) == Family::Explicit
        },
        record matches OwnershipRecordBinding::VirtualShard(r) ==> {
            &&& record.key() == OwnershipKey::<Seq<char>, Seq<u8>>::VirtualShard(
                VirtualShardPlacementKey {
                    service_kind: r.service_kind,
                    actor_kind: r.actor_kind,
                    shard_id: r.shard_id,
                },
            )
            &&& record.service() == r.service_kind
            &&& record.spec_owner() == r.owner
            &&& record.spec_epoch() == r.epoch
            &&& floor_of(record) == (FloorModel {
                epoch: r.epoch,
                owner: r.owner,
                owner_incarnation: None,
                lease_id: None,
            })
            &&& family_of(record) == Family::VirtualShard
        },
        record matches OwnershipRecordBinding::Singleton(r) ==> {
            &&& record.key() == OwnershipKey::<Seq<char>, Seq<u8>>::Singleton(
                SingletonKey {
                    service_kind: r.service_kind,
                    singleton_kind: r.singleton_kind,
                    scope: r.scope,
                },
            )
            &&& record.service() == r.service_kind
            &&& record.spec_owner() == r.owner
            &&& record.spec_epoch() == r.epoch
            &&& floor_of(record) == (FloorModel {
                epoch: r.epoch,
                owner: r.owner,
                owner_incarnation: Some(r.owner_incarnation),
                lease_id: Some(r.lease_id),
            })
            &&& family_of(record) == Family::Singleton
        },
{
}

/// A proof covers a record exactly when it was issued for the same purpose, at the revisions at which
/// the record was read and written, for that very record, and with its key and epoch as the floor.
/// What is first wrong with it is told.
pub proof fn law_proofs_cover_one_record(
    proof: ProofModel,
    context: OwnershipProofContext,
    observed: PlacementRevision,
    written: PlacementRevision,
    record: RecordModel,
)
    ensures
        ({
            let fault = proof_fault(proof, context, observed, written, record);
            let meant = proof.context == context;
            let read = proof.observed_revision == observed;
            let current = proof.record_revision == written;
            let bound = proof.binding == record;
            let floored = proof.floor.key == record.key() && proof.floor.epoch
                == record.spec_epoch();
            &&& fault is None <==> meant && read && current && bound && floored
            &&& !meant ==> fault == Some(
                ProofErrorModel::ContextMismatch { expected: context, actual: proof.context },
            )
            &&& meant && !read ==> fault == Some(
                ProofErrorModel::RevisionMismatch {
                    expected: observed,
                    actual: proof.observed_revision,
                },
            )
            &&& meant && read && !current ==> fault == Some(
                ProofErrorModel::RevisionMismatch {
                    expected: written,
                    actual: proof.record_revision,
                },
            )
            &&& meant && read && current && !bound ==> fault == Some(
                ProofErrorModel::RecordBindingMismatch { key: record.key() },
            )
            &&& meant && read && current && bound && !floored ==> fault == Some(
                ProofErrorModel::FloorMismatch { key: record.key() },
            )
        }),
        upsert_fault(proof, observed, record) is None <==> proof_fault(
            proof,
            OwnershipProofContext::Upsert,
            observed,
            observed,
            record,
        ) is None,
        delete_fault(proof, observed, record) is None <==> proof.context
            == OwnershipProofContext::Delete && proof.observed_revision == observed && proof.binding
            == record && proof.floor.key == record.key() && proof.floor.epoch
            == record.spec_epoch(),
{
}

/// What is observed of a record: it is local only while this instance owns it under its lease, it is
/// stored until it is absent, and it is never forgotten what it last was. A lost lease fences what is
/// local and nothing else.
pub proof fn law_observations_tell_who_owns(
    observation: StoreObservation<RecordModel>,
    entry: EntryModel,
)
    ensures
        observation matches StoreObservation::PresentLocal(record) ==> observation.local() == Some(
            record,
        ) && observation.stored() == Some(record) && observation.last() == record
            && observation.fenced() == StoreObservation::LifecycleFenced(record),
        observation matches StoreObservation::PresentRemote(record) ==> observation.local() is None
            && observation.stored() == Some(record) && observation.last() == record
            && observation.fenced() == observation,
        observation matches StoreObservation::LifecycleFenced(record) ==> observation.local()
            is None && observation.stored() == Some(record) && observation.last() == record
            && observation.fenced() == observation,
        observation matches StoreObservation::Absent { last_record, .. } ==> observation.local()
            is None && observation.stored() is None && observation.last() == last_record
            && observation.fenced() == observation,
        fenced_entry(entry).version == entry.version,
        fenced_entry(entry).authority == entry.authority,
        fenced_entry(entry).observation == entry.observation.fenced(),
{
}

/// Generations count up, and begin again at zero; nothing but the generation changes with them.
pub proof fn law_generations_count_up(state: StateModel)
    ensures
        state.generation < u64::MAX ==> state.bumped().generation == state.generation + 1,
        state.generation == u64::MAX ==> state.bumped().generation == 0,
        state.bumped() == (StateModel { generation: state.bumped().generation, ..state }),
{
}

/// Whether a state fences what another held as local and keeps the rest.
pub open spec fn fences_local(before: StateModel, after: StateModel) -> bool {
    &&& after.placements.dom() == before.placements.dom()
    &&& forall|key: KeyModel| #[trigger]
        before.placements.contains_key(key) ==> {
            &&& after.placements[key].version == before.placements[key].version
            &&& after.placements[key].authority == before.placements[key].authority
            &&& before.placements[key].observation matches StoreObservation::PresentLocal(record)
                ==> after.placements[key].observation == StoreObservation::LifecycleFenced(record)
            &&& !(before.placements[key].observation is PresentLocal)
                ==> after.placements[key].observation == before.placements[key].observation
        }
}

proof fn lemma_fenced(state: StateModel)
    ensures
        fences_local(state, state.placements_fenced()),
{
    assert(state.placements_fenced().placements.dom() =~= state.placements.dom());
}

/// A registration gives this instance its lease, its incarnation and its state. One with another lease
/// or incarnation than before fences what is local, voids every lease but its own and begins anew; one
/// whose lease is dead takes the snapshot off. Every grant is revoked.
pub proof fn law_registrations_give_authority(
    state: StateModel,
    record: InstanceModel,
    lease_valid: bool,
    lease_id: LeaseId,
)
    ensures
        ({
            let after = state.with_instance(record, lease_valid);
            let changed = state.instance is Some && (state.instance->0.lease_id != record.lease_id
                || state.instance->0.incarnation != record.incarnation);
            &&& after.instance is Some
            &&& after.instance->0.lease_id == record.lease_id
            &&& after.instance->0.incarnation == record.incarnation
            &&& after.instance->0.state == record.state
            &&& changed ==> fences_local(state, after)
            &&& !changed ==> after.placements == state.placements
            &&& after.valid_owner_leases.contains(lease_id) <==> if lease_id == record.lease_id {
                lease_valid
            } else {
                !changed && state.valid_owner_leases.contains(lease_id)
            }
            &&& after.availability == if changed {
                SnapshotAvailability::Unavailable(OwnershipFenceReason::Initializing)
            } else if !lease_valid {
                SnapshotAvailability::Unavailable(OwnershipFenceReason::LeaseLost)
            } else {
                state.availability
            }
            &&& after.revision == state.revision
            &&& after.generation == next_generation(state.generation)
        }),
{
    lemma_fenced(state);
}

/// A revision is seen already exactly when it is no newer than the one that is held. One that is taken
/// is held from then on, and voids a resync that is under way.
pub proof fn law_revisions_are_taken_once(
    state: StateModel,
    revision: OwnershipRevision,
    later: OwnershipRevision,
)
    ensures
        state.has_seen(revision) <==> state.revision is Some && revision.0
            <= (state.revision->0).0,
        state.with_revision(revision).has_seen(later) <==> later.0 <= revision.0,
        ({
            let after = state.with_revision(revision);
            let resyncing = state.availability == SnapshotAvailability::Unavailable(
                OwnershipFenceReason::Resyncing,
            );
            &&& after.revision == Some(revision)
            &&& after.generation == if resyncing {
                next_generation(state.generation)
            } else {
                state.generation
            }
            &&& after == (StateModel {
                revision: after.revision,
                generation: after.generation,
                ..state
            })
        }),
{
}

/// A registration is one of this instance exactly when service, instance and incarnation are its own;
/// what differs first is told.
pub proof fn law_registrations_are_of_this_instance(
    snapshot: SnapshotModel,
    record: InstanceModel,
)
    ensures
        ({
            let fault = snapshot.identity_fault(record);
            let service = record.service_kind == snapshot.service_kind;
            let instance = record.instance_id == snapshot.instance_id;
            let incarnation = record.incarnation == snapshot.incarnation;
            &&& fault is None <==> service && instance && incarnation
            &&& !service ==> fault == Some(
                ErrorModel::ServiceMismatch {
                    expected: snapshot.service_kind,
                    actual: record.service_kind,
                },
            )
            &&& service && !instance ==> fault == Some(
                ErrorModel::InstanceMismatch {
                    expected: snapshot.instance_id,
                    actual: record.instance_id,
                },
            )
            &&& service && instance && !incarnation ==> fault == Some(
                ErrorModel::InstanceIncarnationMismatch {
                    expected: snapshot.incarnation,
                    actual: record.incarnation,
                },
            )
        }),
{
}

/// Whether an entry holds a record as of a revision: local exactly if this instance owns it.
pub open spec fn holds_record(
    snapshot: SnapshotModel,
    entry: EntryModel,
    record: RecordModel,
    revision: OwnershipRevision,
) -> bool {
    &&& entry.version == revision
    &&& entry.authority == floor_of(record)
    &&& record.spec_owner() == snapshot.instance_id ==> entry.observation
        == StoreObservation::PresentLocal(record)
    &&& record.spec_owner() != snapshot.instance_id ==> entry.observation
        == StoreObservation::PresentRemote(record)
}

/// The authority under a key follows the one that is held exactly when its epoch is higher, or the
/// same with the same owner and lease and nothing is brought back; what is first wrong is told.
pub proof fn law_authority_needs_its_epoch(
    key: KeyModel,
    current: FloorModel,
    incoming: FloorModel,
    reactivating: bool,
)
    ensures
        ({
            let fault = authority_fault(key, current, incoming, reactivating);
            let same = incoming.epoch == current.epoch;
            let alike = incoming.owner == current.owner && incoming.lease_id == current.lease_id;
            &&& fault is None <==> incoming.epoch.0 > current.epoch.0 || (same && alike
                && !reactivating)
            &&& incoming.epoch.0 < current.epoch.0 ==> fault == Some(
                ErrorModel::EpochRegression {
                    key: Box::new(key),
                    current: current.epoch,
                    incoming: incoming.epoch,
                },
            )
            &&& same && !alike ==> fault == Some(
                ErrorModel::EpochAuthorityConflict { key: Box::new(key), epoch: incoming.epoch },
            )
            &&& same && alike && reactivating ==> fault == Some(
                ErrorModel::EpochReactivation { key: Box::new(key), epoch: incoming.epoch },
            )
        }),
{
}

/// A single record is learnt exactly when its revision is new, it is of the service, its authority
/// can follow what is held and there is room. It answers whether what this instance may answer for
/// changed, and only then revokes grants. One of another service moves the revision alone; a refused
/// one takes the snapshot off.
pub proof fn law_records_are_learnt_once(
    snapshot: SnapshotModel,
    version: OwnershipRevision,
    record: RecordModel,
    other: KeyModel,
)
    ensures
        ({
            let key = record.key();
            let held = snapshot.state.placements;
            let state = snapshot.state;
            let (after, result) = snapshot.applied_record(version, record);
            let seen = state.revision is Some && version.0 <= (state.revision->0).0;
            let foreign = record.service() != snapshot.service_kind;
            let back = held.contains_key(key) && (held[key].observation is Absent || (
            held[key].observation is LifecycleFenced && record.spec_owner()
                == snapshot.instance_id));
            let fault = authority_fault(key, held[key].authority, floor_of(record), back);
            let refused = held.contains_key(key) && fault is Some;
            let full = !held.contains_key(key) && held.dom().len() >= snapshot.max_entries;
            let was = if held.contains_key(key) && held[key].observation is PresentLocal {
                Some(held[key].observation->PresentLocal_0)
            } else {
                None
            };
            let now = if record.spec_owner() == snapshot.instance_id {
                Some(record)
            } else {
                None
            };
            &&& seen ==> after == state && result == Ok::<_, ErrorModel>(false)
            &&& !seen && foreign ==> after == state.with_revision(version) && result == Ok::<
                _,
                ErrorModel,
            >(false)
            &&& !seen && !foreign && refused ==> result == Err::<bool, _>(fault->0)
                && after.placements == held && after.availability is Unavailable
                && after.generation == next_generation(state.generation)
            &&& !seen && !foreign && full ==> result == Err::<bool, _>(
                ErrorModel::CapacityExceeded { max_entries: snapshot.max_entries },
            ) && after.placements == held && after.availability
                == SnapshotAvailability::Unavailable(OwnershipFenceReason::CapacityExceeded)
            &&& !seen && !foreign && !refused && !full ==> {
                &&& result == Ok::<_, ErrorModel>(was != now)
                &&& after.revision == Some(version)
                &&& after.placements.contains_key(key)
                &&& holds_record(snapshot, after.placements[key], record, version)
                &&& other != key ==> (after.placements.contains_key(other) <==> held.contains_key(
                    other,
                )) && after.placements[other] == held[other]
                &&& was != now ==> after.generation == next_generation(
                    state.with_revision(version).generation,
                )
                &&& was == now ==> after.generation == state.with_revision(version).generation
                &&& after.instance == state.instance
                &&& after.valid_owner_leases == state.valid_owner_leases
                &&& after.availability == state.availability
            }
        }),
{
}

/// Whether an entry is that of a placement that was removed at a revision.
pub open spec fn is_removed(
    entry: EntryModel,
    before: EntryModel,
    revision: OwnershipRevision,
) -> bool {
    &&& entry.version == revision
    &&& entry.authority == before.authority
    &&& entry.observation matches StoreObservation::Absent { last_record, evidence }
    &&& last_record == before.observation.last()
    &&& evidence == AbsenceEvidence::ExactDelete
}

/// A removal is applied exactly when its revision is new and the placement is held, not from a later
/// revision and not as absent since this one. What was held stays known as absent, with its authority;
/// grants are revoked exactly if it was local.
pub proof fn law_removals_are_applied_once(
    snapshot: SnapshotModel,
    key: KeyModel,
    version: OwnershipRevision,
    other: KeyModel,
)
    ensures
        ({
            let state = snapshot.state;
            let held = state.placements;
            let (after, applied) = snapshot.removed(key, version);
            let seen = state.revision is Some && version.0 <= (state.revision->0).0;
            let news = held.contains_key(key) && held[key].version.0 <= version.0 && !(
            held[key].version == version && held[key].observation is Absent);
            &&& applied <==> !seen && news
            &&& seen ==> after == state
            &&& !seen && !news ==> after == state.with_revision(version)
            &&& applied ==> {
                &&& after.revision == Some(version)
                &&& is_removed(after.placements[key], held[key], version)
                &&& other != key ==> (after.placements.contains_key(other) <==> held.contains_key(
                    other,
                )) && after.placements[other] == held[other]
                &&& after.generation == if held[key].observation is PresentLocal {
                    next_generation(state.with_revision(version).generation)
                } else {
                    state.with_revision(version).generation
                }
            }
        }),
{
}

/// A lease is marked as it is told; grants are revoked exactly if that is news; and where the lease of
/// the instance is dead the snapshot is taken off. No more leases are remembered than placements and
/// the instance can have.
pub proof fn law_leases_are_marked(
    snapshot: SnapshotModel,
    lease_id: LeaseId,
    valid: bool,
    other: LeaseId,
)
    ensures
        ({
            let state = snapshot.state;
            let after = lease_marked(state, lease_id, valid);
            let news = state.valid_owner_leases.contains(lease_id) != valid;
            &&& after.valid_owner_leases.contains(other) <==> if other == lease_id {
                valid
            } else {
                state.valid_owner_leases.contains(other)
            }
            &&& lease_changes(state, lease_id, valid) <==> news
            &&& after.generation == if news {
                next_generation(state.generation)
            } else {
                state.generation
            }
            &&& !valid && state.instance is Some && state.instance->0.lease_id == lease_id
                ==> after.availability == SnapshotAvailability::Unavailable(
                OwnershipFenceReason::LeaseLost,
            )
            &&& valid || state.instance is None || state.instance->0.lease_id != lease_id
                ==> after.availability == state.availability
            &&& after.placements == state.placements
            &&& after.instance == state.instance
            &&& after.revision == state.revision
            &&& snapshot.max_entries < usize::MAX ==> (lease_overflow(snapshot, lease_id, valid)
                <==> valid && !state.valid_owner_leases.contains(lease_id)
                && state.valid_owner_leases.len() > snapshot.max_entries)
        }),
{
}

/// A snapshot that has learnt nothing is off, knows no instance, no lease and no placement.
pub proof fn law_snapshots_begin_with_nothing(
    service_kind: Seq<char>,
    instance_id: Seq<char>,
    incarnation: Seq<char>,
    max_entries: usize,
    key: KeyModel,
    lease_id: LeaseId,
)
    ensures
        ({
            let snapshot = fresh_snapshot(service_kind, instance_id, incarnation, max_entries);
            &&& snapshot.service_kind == service_kind
            &&& snapshot.instance_id == instance_id
            &&& snapshot.incarnation == incarnation
            &&& snapshot.max_entries == max_entries
            &&& snapshot.state.generation == 0
            &&& snapshot.state.revision is None
            &&& snapshot.state.instance is None
            &&& snapshot.state.availability == SnapshotAvailability::Unavailable(
                OwnershipFenceReason::Initializing,
            )
            &&& !snapshot.state.placements.contains_key(key)
            &&& !snapshot.state.valid_owner_leases.contains(lease_id)
        }),
{
}

/// What is refused for want of room fences the snapshot as full; anything else as a watch that is lost.
pub proof fn law_refusals_fence_for_their_reason(error: ErrorModel)
    ensures
        rejection_fence(error) == if error is CapacityExceeded || error
            is WatchBatchCapacityExceeded {
            OwnershipFenceReason::CapacityExceeded
        } else {
            OwnershipFenceReason::WatchLost
        },
{
}

/// Whether an event is a placement of the service of a snapshot, under a key.
pub open spec fn places(snapshot: SnapshotModel, event: EventModel, key: KeyModel) -> bool {
    &&& event matches EventModel::Placement { key: own, .. }
    &&& own == key
    &&& key.service() == snapshot.service_kind
}

/// What is wrong with an event by itself: a second event of this instance; a placement whose key is
/// not that of its record, that is not proven, for which the batch has no room, or a second one of
/// the same placement. Events of others are not looked at.
pub proof fn law_events_are_sound(
    snapshot: SnapshotModel,
    revision: PlacementRevision,
    events: Seq<EventModel>,
    i: int,
)
    requires
        0 <= i < events.len(),
    ensures
        events[i] matches EventModel::Instance { registration, .. } ==> {
            let own = registration.service_kind == snapshot.service_kind && registration.instance_id
                == snapshot.instance_id;
            let fault = snapshot.event_fault(revision, events, i);
            &&& fault is Some <==> own && exists|j: int|
                0 <= j < i && snapshot.is_own_instance(#[trigger] events[j])
            &&& fault is Some ==> fault == Some(ErrorModel::DuplicateInstanceEvent)
        },
        events[i] matches EventModel::Placement { key, record, proof, deleted } ==> {
            let own = key.service() == snapshot.service_kind;
            let fault = snapshot.event_fault(revision, events, i);
            let proven = if deleted {
                delete_fault(proof, revision, record)
            } else {
                upsert_fault(proof, revision, record)
            };
            let repeated = exists|j: int| 0 <= j < i && places(snapshot, #[trigger] events[j], key);
            let crowded = snapshot.own_placements(events, i + 1) > snapshot.max_entries;
            &&& !own ==> fault is None
            &&& own && key != record.key() ==> fault == Some(
                ErrorModel::PlacementKeyMismatch {
                    event: Box::new(key),
                    record: Box::new(record.key()),
                },
            )
            &&& own && key == record.key() && proven is Some ==> fault == Some(
                ErrorModel::Proof { error: proven->0 },
            )
            &&& own && key == record.key() && proven is None && crowded ==> fault == Some(
                ErrorModel::CapacityExceeded { max_entries: snapshot.max_entries },
            )
            &&& own && key == record.key() && proven is None && !crowded && repeated ==> fault
                == Some(ErrorModel::DuplicatePlacementEvent { key: Box::new(key) })
            &&& own && key == record.key() && proven is None && !crowded && !repeated ==> fault
                is None
        },
        snapshot.is_own_instance(events[i]) <==> {
            &&& events[i] matches EventModel::Instance { registration, .. }
            &&& registration.service_kind == snapshot.service_kind
            &&& registration.instance_id == snapshot.instance_id
        },
        snapshot.own_placements(events, 0) == 0,
        snapshot.own_placements(events, i + 1) == snapshot.own_placements(events, i) + if events[i]
            is Placement && events[i]->key.service() == snapshot.service_kind {
            1int
        } else {
            0
        },
{
    if let EventModel::Placement { key, record, proof, deleted } = events[i] {
        if exists|j: int| 0 <= j < i && places(snapshot, #[trigger] events[j], key) {
            let j = choose|j: int| 0 <= j < i && places(snapshot, #[trigger] events[j], key);
            assert(snapshot.is_own_placement(events[j]));
            assert(snapshot.mentions_key(events, i, key));
        }
        if snapshot.mentions_key(events, i, key) {
            let j = choose|j: int|
                0 <= j < i && snapshot.is_own_placement(#[trigger] events[j]) && events[j]->key
                    == key;
            assert(places(snapshot, events[j], key));
        }
    }
}

proof fn lemma_no_event_fault(
    snapshot: SnapshotModel,
    revision: PlacementRevision,
    events: Seq<EventModel>,
    n: int,
)
    requires
        0 <= n <= events.len(),
    ensures
        snapshot.first_event_fault(revision, events, n) is None <==> forall|i: int|
            0 <= i < n ==> (#[trigger] snapshot.event_fault(revision, events, i)) is None,
        snapshot.first_event_fault(revision, events, n) matches Some(fault) ==> exists|i: int|
            0 <= i < n && (#[trigger] snapshot.event_fault(revision, events, i)) == Some(fault),
    decreases n,
{
    if n > 0 {
        lemma_no_event_fault(snapshot, revision, events, n - 1);
        let before = snapshot.first_event_fault(revision, events, n - 1);
        if before is None {
            let last = snapshot.event_fault(revision, events, n - 1);
            assert(snapshot.first_event_fault(revision, events, n) == last);
        }
    }
}

proof fn lemma_no_progression_fault(
    snapshot: SnapshotModel,
    events: Seq<EventModel>,
    fences: bool,
    n: int,
)
    requires
        0 <= n <= events.len(),
    ensures
        snapshot.first_progression_fault(events, fences, n) is None <==> forall|i: int|
            0 <= i < n ==> snapshot.progression_fault(#[trigger] events[i], fences) is None,
        snapshot.first_progression_fault(events, fences, n) matches Some(fault) ==> exists|i: int|
            0 <= i < n && snapshot.progression_fault(#[trigger] events[i], fences) == Some(fault),
    decreases n,
{
    if n > 0 {
        lemma_no_progression_fault(snapshot, events, fences, n - 1);
        if snapshot.first_progression_fault(events, fences, n - 1) is None {
            assert(snapshot.first_progression_fault(events, fences, n)
                == snapshot.progression_fault(events[n - 1], fences));
        }
    }
}

/// Whether some event of a batch takes the authority of this instance away: its registration is
/// deleted, or comes with another lease or incarnation.
pub open spec fn ends_ownership(snapshot: SnapshotModel, events: Seq<EventModel>) -> bool {
    exists|j: int| 0 <= j < events.len() && takes_away(snapshot, #[trigger] events[j])
}

/// Whether an event takes the authority of this instance away.
pub open spec fn takes_away(snapshot: SnapshotModel, event: EventModel) -> bool {
    let held = snapshot.state.instance;
    &&& event matches EventModel::Instance { registration, deleted }
    &&& registration.service_kind == snapshot.service_kind
    &&& registration.instance_id == snapshot.instance_id
    &&& deleted || (held is Some && (held->0.lease_id != registration.lease_id
        || held->0.incarnation != registration.incarnation))
}

/// What is wrong with a placement event beside what is held: a deletion must be of exactly what is
/// stored; an update must have an authority that can follow, and one that brings something back to this
/// instance needs a higher epoch.
pub proof fn law_events_follow_what_is_held(
    snapshot: SnapshotModel,
    events: Seq<EventModel>,
    event: EventModel,
    fences: bool,
)
    ensures
        snapshot.lifecycle_fences(events) <==> ends_ownership(snapshot, events),
        event is Instance ==> snapshot.progression_fault(event, fences) is None,
        event matches EventModel::Placement { key, record, proof, deleted } ==> {
            let held = snapshot.state.placements;
            let own = key.service() == snapshot.service_kind;
            let fault = snapshot.progression_fault(event, fences);
            let stored = held.contains_key(key) && held[key].version.0 == proof.record_revision.0
                && held[key].authority == floor_of(record) && !(held[key].observation is Absent)
                && held[key].observation.last() == record;
            let back = held[key].observation is Absent || ((held[key].observation
                is LifecycleFenced || fences) && record.spec_owner() == snapshot.instance_id);
            &&& !own ==> fault is None
            &&& own && deleted ==> (fault is None <==> stored)
            &&& own && deleted && fault is Some ==> fault == Some(
                ErrorModel::Proof { error: ProofErrorModel::DeletePreviousMismatch { key } },
            )
            &&& own && !deleted && !held.contains_key(key) ==> fault is None
            &&& own && !deleted && held.contains_key(key) ==> fault == authority_fault(
                key,
                held[key].authority,
                floor_of(record),
                back,
            )
        },
{
    if snapshot.lifecycle_fences(events) {
        let j = choose|j: int|
            0 <= j < events.len() && snapshot.ends_authority(#[trigger] events[j]);
        assert(takes_away(snapshot, events[j]));
    }
    if ends_ownership(snapshot, events) {
        let j = choose|j: int| 0 <= j < events.len() && takes_away(snapshot, #[trigger] events[j]);
        assert(snapshot.ends_authority(events[j]));
    }
}

/// A batch is admitted exactly when it is not empty nor too long, each of its events is sound, and each
/// follows what is held. What is refused is refused for the fault of one of its events.
pub proof fn law_batches_are_admitted_whole(
    snapshot: SnapshotModel,
    revision: PlacementRevision,
    events: Seq<EventModel>,
)
    ensures
        ({
            let fences = snapshot.lifecycle_fences(events);
            let fault = snapshot.admission_fault(revision, events);
            &&& fault is None <==> {
                &&& 1 <= events.len() <= 65536
                &&& forall|i: int|
                    0 <= i < events.len() ==> (#[trigger] snapshot.event_fault(
                        revision,
                        events,
                        i,
                    )) is None
                &&& forall|i: int|
                    0 <= i < events.len() ==> snapshot.progression_fault(
                        #[trigger] events[i],
                        fences,
                    ) is None
            }
            &&& events.len() == 0 ==> fault == Some(ErrorModel::EmptyWatchBatch)
            &&& events.len() > 65536 ==> fault == Some(
                ErrorModel::WatchBatchCapacityExceeded { max_events: 65536 },
            )
            &&& fault is Some && 1 <= events.len() <= 65536 ==> (exists|i: int|
                0 <= i < events.len() && (#[trigger] snapshot.event_fault(revision, events, i))
                    == fault) || (exists|i: int|
                0 <= i < events.len() && snapshot.progression_fault(#[trigger] events[i], fences)
                    == fault)
            &&& fault is Some ==> snapshot.rejection(revision, events) == fault
        }),
{
    lemma_no_event_fault(snapshot, revision, events, events.len() as int);
    lemma_no_progression_fault(
        snapshot,
        events,
        snapshot.lifecycle_fences(events),
        events.len() as int,
    );
}

/// What an event of this instance does: a deletion, or another incarnation, takes its authority away;
/// the same lease and incarnation renew its state; anything else begins anew. What is local is fenced
/// and leases are voided unless it is a renewal. Events of others do nothing.
pub proof fn law_instance_events_end_or_renew(
    snapshot: SnapshotModel,
    state: StateModel,
    event: EventModel,
)
    ensures
        ({
            let after = snapshot.instance_staged(state, event);
            let own = event matches EventModel::Instance { registration, .. }
                && registration.service_kind == snapshot.service_kind && registration.instance_id
                == snapshot.instance_id;
            let registration = event->registration;
            let ended = event->Instance_deleted || registration.incarnation != snapshot.incarnation;
            let renewed = state.instance is Some && state.instance->0.lease_id
                == registration.lease_id && state.instance->0.incarnation
                == registration.incarnation;
            &&& !own ==> after == state
            &&& own && ended ==> after.instance is None && after.availability
                == SnapshotAvailability::Unavailable(OwnershipFenceReason::LeaseLost)
            &&& own && !ended ==> {
                &&& after.instance is Some
                &&& after.instance->0.lease_id == registration.lease_id
                &&& after.instance->0.incarnation == registration.incarnation
                &&& after.instance->0.state == registration.state
                &&& !renewed ==> after.availability == SnapshotAvailability::Unavailable(
                    OwnershipFenceReason::Initializing,
                )
            }
            &&& own && (ended || !renewed) ==> fences_local(state, after)
                && after.valid_owner_leases == Set::<LeaseId>::empty()
            &&& own && !ended && renewed ==> after == (StateModel {
                instance: after.instance,
                ..state
            })
            &&& after.revision == state.revision
            &&& after.generation == state.generation
        }),
{
    lemma_fenced(state);
}

/// What a placement event does to what is held: an update holds the record under its key, a deletion
/// that is news leaves an absence, and nothing else changes. It changes what this instance may answer
/// for exactly if the local record under the key differs before and after.
pub proof fn law_placement_events_store_their_record(
    snapshot: SnapshotModel,
    state: StateModel,
    revision: OwnershipRevision,
    event: EventModel,
    other: KeyModel,
)
    ensures
        ({
            let after = snapshot.placement_staged(state, revision, event);
            let own = event is Placement && event->key.service() == snapshot.service_kind;
            let key = event->key;
            let held = state.placements;
            let news = held.contains_key(key) && held[key].version.0 <= revision.0 && !(
            held[key].version == revision && held[key].observation is Absent);
            let was = local_view(held, key);
            &&& !own ==> after == state && !snapshot.placement_changes(state, revision, event)
                && !snapshot.placement_overflows(state, event)
            &&& own && !event->Placement_deleted ==> {
                &&& after.placements.contains_key(key)
                &&& holds_record(snapshot, after.placements[key], event->record, revision)
                &&& snapshot.placement_changes(state, revision, event) <==> was
                    != if event->record.spec_owner() == snapshot.instance_id {
                    Some(event->record)
                } else {
                    None
                }
                &&& snapshot.placement_overflows(state, event) <==> !held.contains_key(key)
                    && held.dom().len() >= snapshot.max_entries
            }
            &&& own && event->Placement_deleted ==> {
                &&& news ==> is_removed(after.placements[key], held[key], revision)
                &&& !news ==> after == state
                &&& snapshot.placement_changes(state, revision, event) <==> news && was is Some
                &&& !snapshot.placement_overflows(state, event)
            }
            &&& !own || other != key ==> (after.placements.contains_key(other)
                <==> held.contains_key(other)) && after.placements[other] == held[other]
            &&& after == (StateModel { placements: after.placements, ..state })
        }),
{
}

proof fn lemma_staged_before(
    snapshot: SnapshotModel,
    state: StateModel,
    revision: OwnershipRevision,
    events: Seq<EventModel>,
    key: KeyModel,
    m: int,
    n: int,
)
    requires
        0 <= m <= n <= events.len(),
        forall|j: int| m <= j < n ==> !places(snapshot, #[trigger] events[j], key),
    ensures
        ({
            let before = snapshot.placements_staged(state, revision, events, m).placements;
            let after = snapshot.placements_staged(state, revision, events, n).placements;
            &&& after.contains_key(key) <==> before.contains_key(key)
            &&& before.contains_key(key) ==> after[key] == before[key]
        }),
    decreases n - m,
{
    if m < n {
        lemma_staged_before(snapshot, state, revision, events, key, m, n - 1);
        assert(!places(snapshot, events[n - 1], key));
    }
}

proof fn lemma_instances_keep(
    snapshot: SnapshotModel,
    state: StateModel,
    events: Seq<EventModel>,
    key: KeyModel,
    n: int,
)
    requires
        0 <= n <= events.len(),
    ensures
        ({
            let after = snapshot.instances_staged(state, events, n);
            &&& after.placements.contains_key(key) <==> state.placements.contains_key(key)
            &&& state.placements.contains_key(key) ==> {
                &&& after.placements[key].version == state.placements[key].version
                &&& after.placements[key].authority == state.placements[key].authority
                &&& after.placements[key].observation.last()
                    == state.placements[key].observation.last()
                &&& after.placements[key].observation is Absent
                    <==> state.placements[key].observation is Absent
                &&& state.placements[key].observation is Absent ==> after.placements[key]
                    == state.placements[key]
            }
        }),
    decreases n,
{
    if n > 0 {
        lemma_instances_keep(snapshot, state, events, key, n - 1);
    }
}

/// What an accepted batch leaves of each of its placements: an updated one is held as of the batch,
/// and a deleted one is absent as of the batch, with the record that it last had.
pub proof fn law_accepted_batches_are_held(
    snapshot: SnapshotModel,
    revision: PlacementRevision,
    events: Seq<EventModel>,
    i: int,
)
    requires
        snapshot.rejection(revision, events) is None,
        0 <= i < events.len(),
        events[i] is Placement,
        events[i]->key.service() == snapshot.service_kind,
        events[i]->Placement_deleted ==> snapshot.state.placements[events[i]->key].version.0
            <= revision.0,
    ensures
        ({
            let incoming = OwnershipRevision(revision.0);
            let key = events[i]->key;
            let after = snapshot.batch_staged(incoming, events);
            &&& after.revision == Some(incoming)
            &&& after.placements.contains_key(key)
            &&& !events[i]->Placement_deleted ==> holds_record(
                snapshot,
                after.placements[key],
                events[i]->record,
                incoming,
            )
            &&& events[i]->Placement_deleted ==> {
                &&& after.placements[key].version == incoming
                &&& after.placements[key].observation == (StoreObservation::Absent {
                    last_record: events[i]->record,
                    evidence: AbsenceEvidence::ExactDelete,
                })
            }
        }),
{
    let incoming = OwnershipRevision(revision.0);
    let key = events[i]->key;
    let n = events.len() as int;
    law_batches_are_admitted_whole(snapshot, revision, events);
    let base = snapshot.staging_base(incoming, events);
    let start = StateModel { revision: Some(incoming), ..snapshot.state };
    lemma_instances_keep(snapshot, start, events, key, n);
    lemma_instances_revision(snapshot, start, events, n);
    lemma_placements_revision(snapshot, base, incoming, events, n);
    assert(snapshot.event_fault(revision, events, i) is None);
    assert forall|j: int| 0 <= j < i implies !places(snapshot, #[trigger] events[j], key) by {
        if places(snapshot, events[j], key) {
            assert(snapshot.is_own_placement(events[j]));
            assert(snapshot.mentions_key(events, i, key));
        }
    }
    assert forall|j: int| i + 1 <= j < n implies !places(snapshot, #[trigger] events[j], key) by {
        if places(snapshot, events[j], key) {
            assert(snapshot.event_fault(revision, events, j) is None);
            assert(snapshot.is_own_placement(events[i]));
            assert(snapshot.mentions_key(events, j, key));
        }
    }
    lemma_staged_before(snapshot, base, incoming, events, key, 0, i);
    lemma_staged_before(snapshot, base, incoming, events, key, i + 1, n);
    let before = snapshot.placements_staged(base, incoming, events, i);
    law_placement_events_store_their_record(snapshot, before, incoming, events[i], key);
    law_events_follow_what_is_held(
        snapshot,
        events,
        events[i],
        snapshot.lifecycle_fences(events),
    );
    assert(snapshot.progression_fault(events[i], snapshot.lifecycle_fences(events)) is None);
}

proof fn lemma_instances_revision(
    snapshot: SnapshotModel,
    state: StateModel,
    events: Seq<EventModel>,
    n: int,
)
    ensures
        snapshot.instances_staged(state, events, n).revision == state.revision,
    decreases n,
{
    if n > 0 {
        lemma_instances_revision(snapshot, state, events, n - 1);
    }
}

proof fn lemma_placements_revision(
    snapshot: SnapshotModel,
    state: StateModel,
    revision: OwnershipRevision,
    events: Seq<EventModel>,
    n: int,
)
    ensures
        snapshot.placements_staged(state, revision, events, n).revision == state.revision,
    decreases n,
{
    if n > 0 {
        lemma_placements_revision(snapshot, state, revision, events, n - 1);
    }
}

/// A key that a coherent view lacks is absent as of the view, with the authority and the record that
/// it last had, and is known to be so from the view unless it was absent before; what the view has is
/// held as the view has it. No key is forgotten.
pub proof fn law_views_replace_what_is_held(
    current: Map<KeyModel, EntryModel>,
    incoming: Map<KeyModel, EntryModel>,
    revision: OwnershipRevision,
    key: KeyModel,
)
    ensures
        ({
            let after = merged(current, incoming, revision);
            &&& after.contains_key(key) <==> incoming.contains_key(key) || current.contains_key(key)
            &&& incoming.contains_key(key) ==> after[key] == incoming[key]
            &&& !incoming.contains_key(key) && current.contains_key(key) ==> {
                &&& after[key].version == revision
                &&& after[key].authority == current[key].authority
                &&& after[key].observation matches StoreObservation::Absent {
                    last_record,
                    evidence,
                }
                &&& last_record == current[key].observation.last()
                &&& current[key].observation matches StoreObservation::Absent { evidence: was, .. }
                    ==> evidence == was
                &&& !(current[key].observation is Absent) ==> evidence
                    == AbsenceEvidence::CoherentSnapshot
            }
        }),
{
}

/// The leases that are still remembered are those of the instance and of what it holds as its own.
pub proof fn law_leases_are_kept_for_what_is_local(
    leases: Set<LeaseId>,
    placements: Map<KeyModel, EntryModel>,
    instance_lease: LeaseId,
    lease_id: LeaseId,
)
    ensures
        pruned_leases(leases, placements, instance_lease).contains(lease_id) <==> leases.contains(
            lease_id,
        ) && (lease_id == instance_lease || exists|key: KeyModel| #[trigger]
            placements.contains_key(key) && is_held_under(placements[key], lease_id)),
{
    if exists|key: KeyModel| #[trigger]
        placements.contains_key(key) && is_held_under(placements[key], lease_id) {
        let key = choose|key: KeyModel| #[trigger]
            placements.contains_key(key) && is_held_under(placements[key], lease_id);
        assert(placements.contains_key(key));
        assert(lease_matters(placements, instance_lease, lease_id));
    }
    if lease_matters(placements, instance_lease, lease_id) && lease_id != instance_lease {
        let key = choose|key: KeyModel|
            #[trigger] placements.contains_key(key) && crate::ownership::resync::local_lease(
                placements[key],
            ) == Some(lease_id);
        assert(is_held_under(placements[key], lease_id));
    }
}

/// Whether an entry is local, and under a lease.
pub open spec fn is_held_under(entry: EntryModel, lease_id: LeaseId) -> bool {
    &&& entry.observation matches StoreObservation::PresentLocal(record)
    &&& match record {
        OwnershipRecordBinding::Actor(r) => r.lease_id == lease_id,
        OwnershipRecordBinding::VirtualShard(_) => false,
        OwnershipRecordBinding::Singleton(r) => r.lease_id == lease_id,
    }
}

/// Whether some record of a view is of the service and under a key.
pub open spec fn lists(
    snapshot: SnapshotModel,
    item: SnapshotRecordModel,
    key: KeyModel,
) -> bool {
    item.record.key() == key && item.record.service() == snapshot.service_kind
}

/// A view holds exactly the placements of the service that its records are of, each as its last record
/// states it.
pub proof fn law_views_hold_their_records(
    snapshot: SnapshotModel,
    records: Seq<SnapshotRecordModel>,
    n: int,
    key: KeyModel,
)
    requires
        0 <= n <= records.len(),
    ensures
        ({
            let held = snapshot.collected(records, n);
            &&& held.contains_key(key) <==> exists|i: int|
                0 <= i < n && lists(snapshot, #[trigger] records[i], key)
            &&& held.contains_key(key) ==> exists|i: int|
                0 <= i < n && lists(snapshot, #[trigger] records[i], key) && holds_record(
                    snapshot,
                    held[key],
                    records[i].record,
                    records[i].version,
                ) && forall|j: int| i < j < n ==> !lists(snapshot, #[trigger] records[j], key)
        }),
    decreases n,
{
    if n > 0 {
        law_views_hold_their_records(snapshot, records, n - 1, key);
        let before = snapshot.collected(records, n - 1);
        let held = snapshot.collected(records, n);
        if lists(snapshot, records[n - 1], key) {
            assert(holds_record(
                snapshot,
                held[key],
                records[n - 1].record,
                records[n - 1].version,
            ));
        } else if before.contains_key(key) {
            let i = choose|i: int|
                0 <= i < n - 1 && lists(snapshot, #[trigger] records[i], key) && holds_record(
                    snapshot,
                    before[key],
                    records[i].record,
                    records[i].version,
                ) && forall|j: int|
                    i < j < n - 1 ==> !lists(snapshot, #[trigger] records[j], key);
            assert(held[key] == before[key]);
            assert(lists(snapshot, records[i], key));
        }
    }
}

/// What is wrong with a record of a view: that there are too many before it, that it is ahead of the
/// view, that it is not proven for the view, or that its placement is listed already. Records of other
/// services are not looked at further.
pub proof fn law_views_list_proven_records(
    snapshot: SnapshotModel,
    revision: OwnershipRevision,
    records: Seq<SnapshotRecordModel>,
    i: int,
)
    requires
        0 <= i < records.len(),
    ensures
        ({
            let item = records[i];
            let fault = snapshot.collect_fault(revision, records, i);
            let full = i >= snapshot.max_entries;
            let ahead = item.version.0 > revision.0;
            let own = item.record.service() == snapshot.service_kind;
            let proven = proof_fault(
                item.proof,
                OwnershipProofContext::Snapshot,
                PlacementRevision(revision.0),
                PlacementRevision(item.version.0),
                item.record,
            );
            let repeated = exists|j: int|
                0 <= j < i && lists(snapshot, #[trigger] records[j], item.record.key());
            &&& full ==> fault is Some && fault->0.error == (ErrorModel::CapacityExceeded {
                max_entries: snapshot.max_entries,
            }) && fault->0.fence == Some(OwnershipFenceReason::CapacityExceeded)
            &&& !full && ahead ==> fault is Some && fault->0.error == (
            ErrorModel::RecordAheadOfSnapshot { record: item.version, snapshot: revision })
                && fault->0.fence == Some(OwnershipFenceReason::Resyncing)
            &&& !full && !ahead && !own ==> fault is None
            &&& !full && !ahead && own && proven is Some ==> fault is Some && fault->0.error == (
            ErrorModel::Proof { error: proven->0 }) && fault->0.fence == Some(
                OwnershipFenceReason::Resyncing,
            )
            &&& !full && !ahead && own && proven is None && repeated ==> fault is Some
                && fault->0.error == (ErrorModel::DuplicatePlacementEvent {
                key: Box::new(item.record.key()),
            }) && fault->0.fence is None
            &&& !full && !ahead && own && proven is None && !repeated ==> fault is None
        }),
{
    law_views_hold_their_records(snapshot, records, i, records[i].record.key());
}

/// Why a record of a view cannot follow what is held: a placement that was absent comes back only with
/// a later revision, and every placement only with an authority that can follow.
pub proof fn law_views_follow_what_is_held(snapshot: SnapshotModel, item: SnapshotRecordModel)
    ensures
        ({
            let key = item.record.key();
            let held = snapshot.state.placements;
            let fault = snapshot.merge_fault(item);
            let concerns = item.record.service() == snapshot.service_kind && held.contains_key(key);
            let early = held[key].observation is Absent && item.version.0 <= held[key].version.0;
            let back = held[key].observation is Absent || (held[key].observation is LifecycleFenced
                && item.record.spec_owner() == snapshot.instance_id);
            &&& !concerns ==> fault is None
            &&& concerns && early ==> fault == Some(
                ErrorModel::ResurrectionRevisionNotAdvanced {
                    key: Box::new(key),
                    absence: held[key].version,
                    incoming: item.version,
                },
            )
            &&& concerns && !early ==> fault == authority_fault(
                key,
                held[key].authority,
                floor_of(item.record),
                back,
            )
        }),
{
}

proof fn lemma_no_collect_fault(
    snapshot: SnapshotModel,
    revision: OwnershipRevision,
    records: Seq<SnapshotRecordModel>,
    n: int,
)
    requires
        0 <= n <= records.len(),
    ensures
        snapshot.first_collect_fault(revision, records, n) is None <==> forall|i: int|
            0 <= i < n ==> (#[trigger] snapshot.collect_fault(revision, records, i)) is None,
    decreases n,
{
    if n > 0 {
        lemma_no_collect_fault(snapshot, revision, records, n - 1);
        if snapshot.first_collect_fault(revision, records, n - 1) is None {
            assert(snapshot.first_collect_fault(revision, records, n) == snapshot.collect_fault(
                revision,
                records,
                n - 1,
            ));
        }
    }
}

proof fn lemma_no_merge_fault(
    snapshot: SnapshotModel,
    records: Seq<SnapshotRecordModel>,
    family: Family,
    n: int,
)
    requires
        0 <= n <= records.len(),
    ensures
        snapshot.first_merge_fault(records, family, n) is None <==> forall|i: int|
            0 <= i < n && family_of(#[trigger] records[i].record) == family
                ==> snapshot.merge_fault(records[i]) is None,
    decreases n,
{
    if n > 0 {
        lemma_no_merge_fault(snapshot, records, family, n - 1);
    }
}

/// A resync is accepted exactly when every record of the view is sound, this instance is registered
/// under the lease of the token, nothing has changed since the token was issued, the view is no older
/// than what is held, each of its records follows what is held, and there is room for all. The snapshot
/// is then ready at the revision of the view, and every earlier grant is revoked.
pub proof fn law_resyncs_need_their_token(
    snapshot: SnapshotModel,
    lease: LeaseId,
    issued: u64,
    revision: OwnershipRevision,
    records: Seq<SnapshotRecordModel>,
)
    ensures
        ({
            let state = snapshot.state;
            let (after, fault) = snapshot.resynced(lease, issued, revision, records);
            let held = merged(
                state.placements,
                snapshot.collected(records, records.len() as int),
                revision,
            );
            &&& fault is None <==> {
                &&& forall|i: int|
                    0 <= i < records.len() ==> (#[trigger] snapshot.collect_fault(
                        revision,
                        records,
                        i,
                    )) is None
                &&& state.instance is Some
                &&& state.instance->0.lease_id == lease
                &&& state.generation == issued
                &&& state.revision is None || (state.revision->0).0 <= revision.0
                &&& forall|i: int|
                    0 <= i < records.len() ==> snapshot.merge_fault(#[trigger] records[i]) is None
                &&& held.dom().len() <= snapshot.max_entries
            }
            &&& fault is None ==> {
                &&& after.placements == held
                &&& after.revision == Some(revision)
                &&& after.availability == SnapshotAvailability::Ready
                &&& after.instance == state.instance
                &&& after.valid_owner_leases == pruned_leases(
                    state.valid_owner_leases,
                    held,
                    lease,
                )
                &&& after.generation == next_generation(state.generation)
            }
            &&& fault is Some ==> after.placements == state.placements && after.revision
                == state.revision && after.instance == state.instance && after.availability
                != SnapshotAvailability::Ready || after == state
        }),
{
    let n = records.len() as int;
    lemma_no_collect_fault(snapshot, revision, records, n);
    lemma_no_merge_fault(snapshot, records, Family::Explicit, n);
    lemma_no_merge_fault(snapshot, records, Family::VirtualShard, n);
    lemma_no_merge_fault(snapshot, records, Family::Singleton, n);
    if forall|i: int|
        0 <= i < records.len() ==> snapshot.merge_fault(#[trigger] records[i]) is None {
        assert(snapshot.merge_conflict(records) is None);
    }
    if snapshot.merge_conflict(records) is None {
        assert forall|i: int| 0 <= i < records.len() implies snapshot.merge_fault(
            #[trigger] records[i],
        ) is None by {
            let family = family_of(records[i].record);
            assert(snapshot.first_merge_fault(records, Family::Explicit, n) is None);
            assert(snapshot.first_merge_fault(records, Family::VirtualShard, n) is None);
            assert(snapshot.first_merge_fault(records, Family::Singleton, n) is None);
        }
    }
}

proof fn lemma_merge_fault_of_one(
    snapshot: SnapshotModel,
    records: Seq<SnapshotRecordModel>,
    family: Family,
    n: int,
)
    requires
        0 <= n <= records.len(),
    ensures
        snapshot.first_merge_fault(records, family, n) matches Some(fault) ==> exists|i: int|
            0 <= i < n && snapshot.merge_fault(#[trigger] records[i]) == Some(fault),
    decreases n,
{
    if n > 0 {
        lemma_merge_fault_of_one(snapshot, records, family, n - 1);
        if snapshot.first_merge_fault(records, family, n - 1) is None {
            assert(snapshot.merge_fault(records[n - 1]) == snapshot.merge_fault(records[n - 1]));
        }
    }
}

/// A resync is refused for what is first wrong: a record of the view; that this instance is not
/// registered, or under another lease than that of the token; that something has changed since the
/// token was issued; that the view is older than what is held; a record that cannot follow; or that
/// there is no room. Each leaves what was learnt and takes the snapshot off, but for an instance that
/// is not registered, which changes nothing.
pub proof fn law_resyncs_are_refused_for_a_reason(
    snapshot: SnapshotModel,
    lease: LeaseId,
    issued: u64,
    revision: OwnershipRevision,
    records: Seq<SnapshotRecordModel>,
)
    requires
        forall|i: int|
            0 <= i < records.len() ==> (#[trigger] snapshot.collect_fault(revision, records, i))
                is None,
    ensures
        ({
            let state = snapshot.state;
            let (after, fault) = snapshot.resynced(lease, issued, revision, records);
            let registered = state.instance is Some;
            let leased = registered && state.instance->0.lease_id == lease;
            let unchanged = state.generation == issued;
            let current = state.revision is None || (state.revision->0).0 <= revision.0;
            let off = SnapshotAvailability::Unavailable(OwnershipFenceReason::Resyncing);
            &&& !registered ==> fault == Some(ErrorModel::MissingInstanceLease) && after == state
            &&& registered && !leased ==> fault == Some(
                ErrorModel::StaleLease { expected: state.instance->0.lease_id, actual: lease },
            ) && after.availability == off
            &&& leased && !unchanged ==> fault == Some(
                ErrorModel::StaleResync {
                    expected_generation: issued,
                    actual_generation: state.generation,
                },
            ) && after.availability == off
            &&& leased && unchanged && !current ==> fault == Some(
                ErrorModel::StaleRevision { current: state.revision->0, incoming: revision },
            ) && after.availability == off
            &&& leased && unchanged && current && fault is Some ==> {
                ||| fault == Some(
                    ErrorModel::CapacityExceeded { max_entries: snapshot.max_entries },
                ) && after.availability == SnapshotAvailability::Unavailable(
                    OwnershipFenceReason::CapacityExceeded,
                )
                ||| after.availability == off && exists|i: int|
                    0 <= i < records.len() && snapshot.merge_fault(#[trigger] records[i]) == fault
            }
            &&& fault is Some && registered ==> after.generation == next_generation(
                state.generation,
            ) && after.placements == state.placements
        }),
{
    let n = records.len() as int;
    lemma_no_collect_fault(snapshot, revision, records, n);
    lemma_merge_fault_of_one(snapshot, records, Family::Explicit, n);
    lemma_merge_fault_of_one(snapshot, records, Family::VirtualShard, n);
    lemma_merge_fault_of_one(snapshot, records, Family::Singleton, n);
}

proof fn lemma_overflows_somewhere(
    snapshot: SnapshotModel,
    state: StateModel,
    revision: OwnershipRevision,
    events: Seq<EventModel>,
    n: int,
)
    requires
        0 <= n <= events.len(),
    ensures
        snapshot.overflows(state, revision, events, n) <==> exists|i: int|
            0 <= i < n && snapshot.placement_overflows(
                snapshot.placements_staged(state, revision, events, i),
                #[trigger] events[i],
            ),
    decreases n,
{
    if n > 0 {
        lemma_overflows_somewhere(snapshot, state, revision, events, n - 1);
        if snapshot.overflows(state, revision, events, n) && !snapshot.overflows(
            state,
            revision,
            events,
            n - 1,
        ) {
            assert(snapshot.placement_overflows(
                snapshot.placements_staged(state, revision, events, n - 1),
                events[n - 1],
            ));
        }
    }
}

/// An admitted batch is refused exactly when one of its events finds no room beside what is held and
/// what the events before it brought.
pub proof fn law_admitted_batches_are_refused_for_room(
    snapshot: SnapshotModel,
    revision: PlacementRevision,
    events: Seq<EventModel>,
)
    requires
        snapshot.admission_fault(revision, events) is None,
    ensures
        ({
            let incoming = OwnershipRevision(revision.0);
            let base = snapshot.staging_base(incoming, events);
            let refusal = snapshot.rejection(revision, events);
            &&& refusal is Some <==> exists|i: int|
                0 <= i < events.len() && snapshot.placement_overflows(
                    snapshot.placements_staged(base, incoming, events, i),
                    #[trigger] events[i],
                )
            &&& refusal is Some ==> refusal == Some(
                ErrorModel::CapacityExceeded { max_entries: snapshot.max_entries },
            )
        }),
{
    let incoming = OwnershipRevision(revision.0);
    lemma_overflows_somewhere(
        snapshot,
        snapshot.staging_base(incoming, events),
        incoming,
        events,
        events.len() as int,
    );
}

proof fn lemma_first_faulty_event(
    snapshot: SnapshotModel,
    revision: PlacementRevision,
    events: Seq<EventModel>,
    at: int,
    n: int,
)
    requires
        0 <= at < n <= events.len(),
        forall|i: int|
            0 <= i < at ==> (#[trigger] snapshot.event_fault(revision, events, i)) is None,
        snapshot.event_fault(revision, events, at) is Some,
    ensures
        snapshot.first_event_fault(revision, events, n) == snapshot.event_fault(
            revision,
            events,
            at,
        ),
    decreases n,
{
    if n > at + 1 {
        lemma_first_faulty_event(snapshot, revision, events, at, n - 1);
    } else {
        lemma_no_event_fault(snapshot, revision, events, at);
    }
}

/// Of several faulty events of a batch the first is told.
pub proof fn law_the_first_faulty_event_is_told(
    snapshot: SnapshotModel,
    revision: PlacementRevision,
    events: Seq<EventModel>,
    at: int,
)
    requires
        0 <= at < events.len() <= 65536,
        forall|i: int|
            0 <= i < at ==> (#[trigger] snapshot.event_fault(revision, events, i)) is None,
        snapshot.event_fault(revision, events, at) is Some,
    ensures
        snapshot.admission_fault(revision, events) == snapshot.event_fault(revision, events, at),
        snapshot.rejection(revision, events) == snapshot.event_fault(revision, events, at),
{
    lemma_first_faulty_event(snapshot, revision, events, at, events.len() as int);
}

proof fn lemma_first_event_out_of_order(
    snapshot: SnapshotModel,
    events: Seq<EventModel>,
    fences: bool,
    at: int,
    n: int,
)
    requires
        0 <= at < n <= events.len(),
        forall|i: int|
            0 <= i < at ==> snapshot.progression_fault(#[trigger] events[i], fences) is None,
        snapshot.progression_fault(events[at], fences) is Some,
    ensures
        snapshot.first_progression_fault(events, fences, n) == snapshot.progression_fault(
            events[at],
            fences,
        ),
    decreases n,
{
    if n > at + 1 {
        lemma_first_event_out_of_order(snapshot, events, fences, at, n - 1);
    } else {
        lemma_no_progression_fault(snapshot, events, fences, at);
    }
}

/// Of several sound events of a batch that do not follow what is held the first is told.
pub proof fn law_the_first_event_out_of_order_is_told(
    snapshot: SnapshotModel,
    revision: PlacementRevision,
    events: Seq<EventModel>,
    at: int,
)
    requires
        0 <= at < events.len() <= 65536,
        forall|i: int|
            0 <= i < events.len() ==> (#[trigger] snapshot.event_fault(revision, events, i))
                is None,
        forall|i: int|
            0 <= i < at ==> snapshot.progression_fault(
                #[trigger] events[i],
                snapshot.lifecycle_fences(events),
            ) is None,
        snapshot.progression_fault(events[at], snapshot.lifecycle_fences(events)) is Some,
    ensures
        snapshot.rejection(revision, events) == snapshot.progression_fault(
            events[at],
            snapshot.lifecycle_fences(events),
        ),
{
    lemma_no_event_fault(snapshot, revision, events, events.len() as int);
    lemma_first_event_out_of_order(
        snapshot,
        events,
        snapshot.lifecycle_fences(events),
        at,
        events.len() as int,
    );
}

proof fn lemma_first_faulty_record(
    snapshot: SnapshotModel,
    revision: OwnershipRevision,
    records: Seq<SnapshotRecordModel>,
    at: int,
    n: int,
)
    requires
        0 <= at < n <= records.len(),
        forall|i: int|
            0 <= i < at ==> (#[trigger] snapshot.collect_fault(revision, records, i)) is None,
        snapshot.collect_fault(revision, records, at) is Some,
    ensures
        snapshot.first_collect_fault(revision, records, n) == snapshot.collect_fault(
            revision,
            records,
            at,
        ),
    decreases n,
{
    if n > at + 1 {
        lemma_first_faulty_record(snapshot, revision, records, at, n - 1);
    } else {
        lemma_no_collect_fault(snapshot, revision, records, at);
    }
}

/// Of several faulty records of a view the first is told, before anything is asked of the token, and
/// the snapshot is taken off as that fault demands.
pub proof fn law_the_first_faulty_record_is_told(
    snapshot: SnapshotModel,
    lease: LeaseId,
    issued: u64,
    revision: OwnershipRevision,
    records: Seq<SnapshotRecordModel>,
    at: int,
)
    requires
        0 <= at < records.len(),
        forall|i: int|
            0 <= i < at ==> (#[trigger] snapshot.collect_fault(revision, records, i)) is None,
        snapshot.collect_fault(revision, records, at) is Some,
    ensures
        ({
            let state = snapshot.state;
            let first = snapshot.collect_fault(revision, records, at)->0;
            let (after, fault) = snapshot.resynced(lease, issued, revision, records);
            &&& fault == Some(first.error)
            &&& first.fence is None ==> after == state
            &&& first.fence matches Some(reason) ==> {
                &&& after.availability == SnapshotAvailability::Unavailable(reason)
                &&& after.generation == next_generation(state.generation)
                &&& after.placements == state.placements
                &&& after.revision == state.revision
            }
        }),
{
    lemma_first_faulty_record(snapshot, revision, records, at, records.len() as int);
}

/// Whether a record is of a family that is gone through before that of another.
pub open spec fn family_precedes(left: Family, right: Family) -> bool {
    match left {
        Family::Explicit => right != Family::Explicit,
        Family::VirtualShard => right == Family::Singleton,
        Family::Singleton => false,
    }
}

proof fn lemma_first_record_out_of_order(
    snapshot: SnapshotModel,
    records: Seq<SnapshotRecordModel>,
    at: int,
    n: int,
)
    requires
        0 <= at < n <= records.len(),
        forall|i: int|
            0 <= i < at && family_of(#[trigger] records[i].record) == family_of(records[at].record)
                ==> snapshot.merge_fault(records[i]) is None,
        snapshot.merge_fault(records[at]) is Some,
    ensures
        snapshot.first_merge_fault(records, family_of(records[at].record), n)
            == snapshot.merge_fault(records[at]),
    decreases n,
{
    if n > at + 1 {
        lemma_first_record_out_of_order(snapshot, records, at, n - 1);
    } else {
        lemma_no_merge_fault(snapshot, records, family_of(records[at].record), at);
    }
}

/// Of several records of a view that do not follow what is held the one that is told is the first of
/// the first family that has one: actors, then shards, then singletons.
pub proof fn law_the_first_record_out_of_order_is_told(
    snapshot: SnapshotModel,
    records: Seq<SnapshotRecordModel>,
    at: int,
)
    requires
        0 <= at < records.len(),
        forall|i: int|
            0 <= i < at && family_of(#[trigger] records[i].record) == family_of(records[at].record)
                ==> snapshot.merge_fault(records[i]) is None,
        forall|i: int|
            0 <= i < records.len() && family_precedes(
                family_of(#[trigger] records[i].record),
                family_of(records[at].record),
            ) ==> snapshot.merge_fault(records[i]) is None,
        snapshot.merge_fault(records[at]) is Some,
    ensures
        snapshot.merge_conflict(records) == snapshot.merge_fault(records[at]),
{
    let n = records.len() as int;
    lemma_first_record_out_of_order(snapshot, records, at, n);
    lemma_no_merge_fault(snapshot, records, Family::Explicit, n);
    lemma_no_merge_fault(snapshot, records, Family::VirtualShard, n);
}

} // verus!
