//! What every change of a snapshot keeps.
use vstd::prelude::*;

use crate::epoch_floor::{KeyModel, RecordModel};
use crate::ownership::gate::{GrantModel, RequestModel};
use crate::ownership::resync::{family_of, merged, Family, SnapshotRecordModel};
use crate::ownership::snapshot::{lease_marked, InstanceModel};
use crate::ownership::watch::EventModel;
use crate::ownership::{
    authority_fault, fenced_entry, floor_of, local_view, next_generation, EntryModel, FloorModel,
    OwnershipFenceReason, OwnershipRevision, SnapshotAvailability, SnapshotModel, StateModel,
};
use crate::records::{InstanceState, LeaseId, PlacementRevision};

verus! {

/// No key is forgotten, and no epoch floor falls.
pub open spec fn floors_kept(
    before: Map<KeyModel, EntryModel>,
    after: Map<KeyModel, EntryModel>,
) -> bool {
    forall|k: KeyModel| #[trigger]
        before.contains_key(k) ==> after.contains_key(k) && before[k].authority.epoch.0
            <= after[k].authority.epoch.0
}

/// Each entry stands under the key of its record, states the authority of that record, and
/// is local only where this instance is the owner.
pub open spec fn coherent(snapshot: SnapshotModel) -> bool {
    forall|k: KeyModel| #[trigger]
        snapshot.state.placements.contains_key(k) ==> entry_coherent(
            snapshot,
            k,
            snapshot.state.placements[k],
        )
}

pub open spec fn entry_coherent(snapshot: SnapshotModel, key: KeyModel, entry: EntryModel) -> bool {
    &&& entry.observation.last().key() == key
    &&& key.service() == snapshot.service_kind
    &&& entry.authority == floor_of(entry.observation.last())
    &&& entry.observation.local() is Some ==> entry.observation.last().spec_owner()
        == snapshot.instance_id
}

/// The snapshot holds no more placements than it may.
pub open spec fn bounded(snapshot: SnapshotModel) -> bool {
    snapshot.state.placements.dom().finite() && snapshot.state.entry_count()
        <= snapshot.max_entries
}

/// A generation never follows itself, so that a bump revokes every grant made before it.
pub proof fn law_generations_differ(state: StateModel)
    ensures
        state.bumped().generation != state.generation,
{
}

/// The generation after so many bumps.
pub open spec fn generation_after(generation: u64, bumps: nat) -> u64
    decreases bumps,
{
    if bumps == 0 {
        generation
    } else {
        next_generation(generation_after(generation, (bumps - 1) as nat))
    }
}

proof fn lemma_generation_after(generation: u64, bumps: nat)
    requires
        bumps <= u64::MAX,
    ensures
        generation_after(generation, bumps) == if generation + bumps <= u64::MAX {
            generation + bumps
        } else {
            generation + bumps - 0x1_0000_0000_0000_0000
        },
    decreases bumps,
{
    if bumps > 0 {
        lemma_generation_after(generation, (bumps - 1) as nat);
    }
}

/// A grant that a bump has revoked is not honoured again before generations have wrapped around,
/// whatever the snapshot learns.
pub proof fn law_revoked_grants_stay_revoked(
    snapshot: SnapshotModel,
    grant: GrantModel,
    bumps: nat,
)
    requires
        0 < bumps <= u64::MAX,
        snapshot.state.generation == generation_after(grant.generation, bumps),
    ensures
        !snapshot.honours(grant),
{
    lemma_generation_after(grant.generation, bumps);
}

/// A refused change fences the snapshot and revokes every grant, and leaves what was
/// learnt as it was.
pub proof fn law_refusal_keeps_what_was_learnt(
    snapshot: SnapshotModel,
    reason: OwnershipFenceReason,
    grant: GrantModel,
)
    ensures
        ({
            let after = snapshot.with_state(snapshot.state.unavailable(reason).bumped());
            &&& after.state.placements == snapshot.state.placements
            &&& after.state.revision == snapshot.state.revision
            &&& after.state.instance == snapshot.state.instance
            &&& after.state.valid_owner_leases == snapshot.state.valid_owner_leases
            &&& after.state.generation == next_generation(snapshot.state.generation)
            &&& !after.honours(grant)
        }),
{
}

/// A grant holds when it is made.
pub proof fn law_granted_is_honoured(snapshot: SnapshotModel, request: RequestModel)
    ensures
        snapshot.decision(request) is Ok ==> snapshot.honours(snapshot.decision(request)->Ok_0),
{
}

/// A request is granted only while the snapshot is ready and its instance is ready under a
/// live lease, for a placement that this instance owns under a live lease, at the epoch
/// that the request was routed under.
pub proof fn law_grant_needs_live_ownership(snapshot: SnapshotModel, request: RequestModel)
    requires
        coherent(snapshot),
    ensures
        snapshot.decision(request) matches Ok(grant) ==> {
            let state = snapshot.state;
            &&& state.availability == SnapshotAvailability::Ready
            &&& state.instance is Some
            &&& state.instance->0.state == InstanceState::Ready
            &&& state.valid_owner_leases.contains(state.instance->0.lease_id)
            &&& state.valid_owner_leases.contains(grant.lease_id)
            &&& request.target() == Some(grant.key)
            &&& request.expected_service == snapshot.service_kind
            &&& local_view(state.placements, grant.key) is Some
            &&& local_view(state.placements, grant.key)->0.spec_owner() == snapshot.instance_id
            &&& local_view(state.placements, grant.key)->0.spec_epoch() == grant.epoch
            &&& request.route_epoch == Some(grant.epoch)
            &&& grant.generation == state.generation
        },
{
}

/// What is local is owned by this instance, so a request is never refused because another
/// instance owns a local placement.
pub proof fn law_no_owner_mismatch(snapshot: SnapshotModel, request: RequestModel)
    requires
        coherent(snapshot),
    ensures
        snapshot.decision(request) matches Err(rejection)
            ==> rejection.reason !is OwnerMismatch,
{
    match snapshot.addressed(request) {
        Ok(key) => {
            if snapshot.authority(key) is Some {
                assert(entry_coherent(snapshot, key, snapshot.state.placements[key]));
            }
        },
        Err(_) => {},
    }
}

/// A key that was removed, or fenced together with its owner's lease, comes back to this
/// instance only at a higher epoch.
pub proof fn law_reactivation_needs_a_higher_epoch(
    key: KeyModel,
    current: FloorModel,
    incoming: FloorModel,
)
    ensures
        authority_fault(key, current, incoming, true) is None <==> incoming.epoch.0
            > current.epoch.0,
{
}

/// At one epoch the owner and its lease do not change, and epochs do not fall.
pub proof fn law_authority_follows_epochs(
    key: KeyModel,
    current: FloorModel,
    incoming: FloorModel,
    reactivating: bool,
)
    requires
        authority_fault(key, current, incoming, reactivating) is None,
    ensures
        incoming.epoch.0 >= current.epoch.0,
        incoming.epoch == current.epoch ==> incoming.owner == current.owner && incoming.lease_id
            == current.lease_id && !reactivating,
{
}

/// Installing an instance keeps every floor and every entry.
pub proof fn law_instance_keeps_floors(
    snapshot: SnapshotModel,
    record: InstanceModel,
    lease_valid: bool,
)
    ensures
        ({
            let after = snapshot.state.with_instance(record, lease_valid);
            &&& floors_kept(snapshot.state.placements, after.placements)
            &&& after.placements.dom() == snapshot.state.placements.dom()
            &&& coherent(snapshot) ==> coherent(snapshot.with_state(after))
        }),
{
    let after = snapshot.state.with_instance(record, lease_valid);
    lemma_fence_keeps(snapshot, snapshot.state);
    assert(after.placements.dom() =~= snapshot.state.placements.dom());
    if coherent(snapshot) {
        assert forall|k: KeyModel| #[trigger] after.placements.contains_key(k) implies entry_coherent(
            snapshot.with_state(after),
            k,
            after.placements[k],
        ) by {
            assert(snapshot.state.placements.contains_key(k));
            assert(entry_coherent(snapshot, k, snapshot.state.placements[k]));
        }
    }
}

proof fn lemma_fence_keeps(snapshot: SnapshotModel, state: StateModel)
    ensures
        floors_kept(state.placements, state.placements_fenced().placements),
        state.placements_fenced().placements.dom() =~= state.placements.dom(),
        forall|k: KeyModel| #[trigger]
            state.placements.contains_key(k) ==> state.placements_fenced().placements[k]
                == fenced_entry(state.placements[k]),
{
}

/// A single record keeps every floor.
pub proof fn law_record_keeps_floors(
    snapshot: SnapshotModel,
    version: OwnershipRevision,
    record: RecordModel,
)
    ensures
        ({
            let after = snapshot.applied_record(version, record).0;
            &&& floors_kept(snapshot.state.placements, after.placements)
            &&& coherent(snapshot) ==> coherent(snapshot.with_state(after))
            &&& bounded(snapshot) ==> bounded(snapshot.with_state(after))
        }),
{
    let after = snapshot.applied_record(version, record).0;
    if coherent(snapshot) {
        assert forall|k: KeyModel| #[trigger] after.placements.contains_key(k) implies entry_coherent(
            snapshot.with_state(after),
            k,
            after.placements[k],
        ) by {
            if snapshot.state.placements.contains_key(k) {
                assert(entry_coherent(snapshot, k, snapshot.state.placements[k]));
            }
        }
    }
}

/// A removal keeps every floor and every entry.
pub proof fn law_removal_keeps_floors(
    snapshot: SnapshotModel,
    key: KeyModel,
    version: OwnershipRevision,
)
    ensures
        ({
            let after = snapshot.removed(key, version).0;
            &&& floors_kept(snapshot.state.placements, after.placements)
            &&& after.placements.dom() == snapshot.state.placements.dom()
            &&& coherent(snapshot) ==> coherent(snapshot.with_state(after))
        }),
{
    let after = snapshot.removed(key, version).0;
    assert(after.placements.dom() =~= snapshot.state.placements.dom());
    if coherent(snapshot) {
        assert forall|k: KeyModel| #[trigger] after.placements.contains_key(k) implies entry_coherent(
            snapshot.with_state(after),
            k,
            after.placements[k],
        ) by {
            assert(entry_coherent(snapshot, k, snapshot.state.placements[k]));
        }
    }
}

proof fn lemma_event_faults(
    snapshot: SnapshotModel,
    revision: PlacementRevision,
    events: Seq<EventModel>,
    n: int,
    i: int,
)
    requires
        0 <= i < n <= events.len(),
        snapshot.first_event_fault(revision, events, n) is None,
    ensures
        snapshot.event_fault(revision, events, i) is None,
    decreases n,
{
    if i < n - 1 {
        lemma_event_faults(snapshot, revision, events, n - 1, i);
    }
}

proof fn lemma_progression_faults(
    snapshot: SnapshotModel,
    events: Seq<EventModel>,
    fences: bool,
    n: int,
    i: int,
)
    requires
        0 <= i < n <= events.len(),
        snapshot.first_progression_fault(events, fences, n) is None,
    ensures
        snapshot.progression_fault(events[i], fences) is None,
    decreases n,
{
    if i < n - 1 {
        lemma_progression_faults(snapshot, events, fences, n - 1, i);
    }
}

/// Staging instance events fences entries at most.
proof fn lemma_instances_staged(
    snapshot: SnapshotModel,
    state: StateModel,
    events: Seq<EventModel>,
    n: int,
)
    requires
        0 <= n <= events.len(),
    ensures
        ({
            let after = snapshot.instances_staged(state, events, n);
            &&& after.placements.dom() =~= state.placements.dom()
            &&& after.generation == state.generation
            &&& after.revision == state.revision
            &&& forall|k: KeyModel| #[trigger]
                state.placements.contains_key(k) ==> after.placements[k] == state.placements[k]
                    || after.placements[k] == fenced_entry(state.placements[k])
            &&& !snapshot.mentions_instance(events, n) ==> after == state
        }),
    decreases n,
{
    if n > 0 {
        lemma_instances_staged(snapshot, state, events, n - 1);
        let before = snapshot.instances_staged(state, events, n - 1);
        lemma_fence_keeps(snapshot, before);
        if !snapshot.mentions_instance(events, n) {
            assert(!snapshot.is_own_instance(events[n - 1]));
            assert forall|j: int| 0 <= j < n - 1 implies !snapshot.is_own_instance(
                #[trigger] events[j],
            ) by {}
        }
    }
}

/// Staging the placement events of an admitted batch.
proof fn lemma_placements_staged(
    snapshot: SnapshotModel,
    base: StateModel,
    revision: PlacementRevision,
    events: Seq<EventModel>,
    fences: bool,
    n: int,
)
    requires
        0 <= n <= events.len(),
        snapshot.first_event_fault(revision, events, events.len() as int) is None,
        snapshot.first_progression_fault(events, fences, events.len() as int) is None,
        floors_kept(snapshot.state.placements, base.placements),
    ensures
        ({
            let incoming = OwnershipRevision(revision.0);
            let after = snapshot.placements_staged(base, incoming, events, n);
            &&& floors_kept(snapshot.state.placements, after.placements)
            &&& coherent(snapshot.with_state(base)) ==> coherent(snapshot.with_state(after))
            &&& bounded(snapshot.with_state(base)) && !snapshot.overflows(
                base,
                incoming,
                events,
                n,
            ) ==> bounded(snapshot.with_state(after))
            &&& after.generation == base.generation
            &&& after.revision == base.revision
            &&& after.instance == base.instance
            &&& after.availability == base.availability
            &&& after.valid_owner_leases == base.valid_owner_leases
            &&& !snapshot.placements_change(base, incoming, events, n) ==> forall|k: KeyModel|
                #[trigger] local_view(after.placements, k) == local_view(base.placements, k)
        }),
    decreases n,
{
    if n > 0 {
        let incoming = OwnershipRevision(revision.0);
        lemma_placements_staged(snapshot, base, revision, events, fences, n - 1);
        lemma_event_faults(snapshot, revision, events, events.len() as int, n - 1);
        lemma_progression_faults(snapshot, events, fences, events.len() as int, n - 1);
        let before = snapshot.placements_staged(base, incoming, events, n - 1);
        let after = snapshot.placements_staged(base, incoming, events, n);
        let event = events[n - 1];
        assert(after == snapshot.placement_staged(before, incoming, event));
        if !snapshot.placements_change(base, incoming, events, n) {
            assert forall|k: KeyModel| #[trigger] local_view(after.placements, k) == local_view(
                base.placements,
                k,
            ) by {
                assert(local_view(before.placements, k) == local_view(base.placements, k));
            }
        }
        match event {
            EventModel::Instance { .. } => {},
            EventModel::Placement { key, record, deleted, .. } => {
                if key.service() == snapshot.service_kind {
                    assert(after.placements.dom() =~= before.placements.dom()
                        || after.placements.dom() =~= before.placements.dom().insert(key));
                    if coherent(snapshot.with_state(base)) {
                        assert forall|k: KeyModel| #[trigger]
                            after.placements.contains_key(k) implies entry_coherent(
                            snapshot.with_state(after),
                            k,
                            after.placements[k],
                        ) by {
                            if before.placements.contains_key(k) {
                                assert(snapshot.with_state(before).state.placements.contains_key(
                                    k,
                                ));
                                assert(entry_coherent(
                                    snapshot.with_state(before),
                                    k,
                                    before.placements[k],
                                ));
                            }
                        }
                    }
                }
            },
        }
    }
}

proof fn lemma_batch(snapshot: SnapshotModel, revision: PlacementRevision, events: Seq<EventModel>)
    requires
        snapshot.rejection(revision, events) is None,
    ensures
        ({
            let incoming = OwnershipRevision(revision.0);
            let base = snapshot.staging_base(incoming, events);
            &&& floors_kept(snapshot.state.placements, base.placements)
            &&& coherent(snapshot) ==> coherent(snapshot.with_state(base))
            &&& bounded(snapshot) ==> bounded(snapshot.with_state(base))
            &&& base.generation == snapshot.state.generation
            &&& base.revision == Some(incoming)
            &&& !snapshot.mentions_instance(events, events.len() as int) ==> base
                == StateModel { revision: Some(incoming), ..snapshot.state }
        }),
{
    let incoming = OwnershipRevision(revision.0);
    let start = StateModel { revision: Some(incoming), ..snapshot.state };
    let base = snapshot.staging_base(incoming, events);
    lemma_instances_staged(snapshot, start, events, events.len() as int);
    if coherent(snapshot) {
        assert forall|k: KeyModel| #[trigger] base.placements.contains_key(k) implies entry_coherent(
            snapshot.with_state(base),
            k,
            base.placements[k],
        ) by {
            assert(start.placements.contains_key(k));
            assert(entry_coherent(snapshot, k, snapshot.state.placements[k]));
        }
    }
}

/// An accepted batch keeps every floor, stays within the limit, and moves the revision on.
pub proof fn law_batch_keeps_floors(
    snapshot: SnapshotModel,
    revision: PlacementRevision,
    events: Seq<EventModel>,
)
    requires
        snapshot.rejection(revision, events) is None,
        !snapshot.state.has_seen(OwnershipRevision(revision.0)),
    ensures
        ({
            let after = snapshot.batch_staged(OwnershipRevision(revision.0), events);
            &&& floors_kept(snapshot.state.placements, after.placements)
            &&& coherent(snapshot) ==> coherent(snapshot.with_state(after))
            &&& bounded(snapshot) ==> bounded(snapshot.with_state(after))
            &&& after.revision == Some(OwnershipRevision(revision.0))
            &&& snapshot.state.revision matches Some(current) ==> current.0 < revision.0
        }),
{
    let incoming = OwnershipRevision(revision.0);
    lemma_batch(snapshot, revision, events);
    lemma_placements_staged(
        snapshot,
        snapshot.staging_base(incoming, events),
        revision,
        events,
        snapshot.lifecycle_fences(events),
        events.len() as int,
    );
}

/// A batch that changes what this instance answers for under any key, or that carries an event of
/// this instance, moves the generation on by exactly one, so that no grant that held before it
/// holds after it.
pub proof fn law_batch_revokes_grants(
    snapshot: SnapshotModel,
    revision: PlacementRevision,
    events: Seq<EventModel>,
    key: KeyModel,
    grant: GrantModel,
)
    requires
        snapshot.rejection(revision, events) is None,
        snapshot.mentions_instance(events, events.len() as int) || local_view(
            snapshot.batch_staged(OwnershipRevision(revision.0), events).placements,
            key,
        ) != local_view(snapshot.state.placements, key),
    ensures
        ({
            let after = snapshot.with_state(
                snapshot.batch_staged(OwnershipRevision(revision.0), events),
            );
            &&& after.state.generation == next_generation(snapshot.state.generation)
            &&& snapshot.honours(grant) ==> !after.honours(grant)
        }),
{
    let incoming = OwnershipRevision(revision.0);
    let base = snapshot.staging_base(incoming, events);
    let n = events.len() as int;
    lemma_batch(snapshot, revision, events);
    lemma_placements_staged(
        snapshot,
        base,
        revision,
        events,
        snapshot.lifecycle_fences(events),
        n,
    );
    if !snapshot.batch_changes(incoming, events) {
        assert(local_view(
            snapshot.placements_staged(base, incoming, events, n).placements,
            key,
        ) == local_view(base.placements, key));
    }
}

/// The generation moves on by at most one with a batch.
pub proof fn law_batch_steps_the_generation_once(
    snapshot: SnapshotModel,
    revision: PlacementRevision,
    events: Seq<EventModel>,
)
    requires
        snapshot.rejection(revision, events) is None,
    ensures
        ({
            let incoming = OwnershipRevision(revision.0);
            let after = snapshot.batch_staged(incoming, events);
            if snapshot.batch_changes(incoming, events) || snapshot.state.availability
                == SnapshotAvailability::Unavailable(OwnershipFenceReason::Resyncing) {
                after.generation == next_generation(snapshot.state.generation)
            } else {
                after.generation == snapshot.state.generation
            }
        }),
{
    let incoming = OwnershipRevision(revision.0);
    lemma_batch(snapshot, revision, events);
    lemma_placements_staged(
        snapshot,
        snapshot.staging_base(incoming, events),
        revision,
        events,
        snapshot.lifecycle_fences(events),
        events.len() as int,
    );
}

/// A batch that concerns neither this instance nor this service only moves the revision
/// on, and voids a resync that is under way.
pub proof fn law_unrelated_batch_only_moves_the_revision(
    snapshot: SnapshotModel,
    revision: OwnershipRevision,
    events: Seq<EventModel>,
)
    requires
        forall|j: int|
            0 <= j < events.len() ==> !snapshot.is_own_instance(#[trigger] events[j])
                && !snapshot.is_own_placement(events[j]),
    ensures
        snapshot.batch_staged(revision, events) == snapshot.state.with_revision(revision),
{
    let start = StateModel { revision: Some(revision), ..snapshot.state };
    lemma_instances_staged(snapshot, start, events, events.len() as int);
    assert(!snapshot.mentions_instance(events, events.len() as int));
    lemma_unrelated(snapshot, start, revision, events, events.len() as int);
}

proof fn lemma_unrelated(
    snapshot: SnapshotModel,
    base: StateModel,
    revision: OwnershipRevision,
    events: Seq<EventModel>,
    n: int,
)
    requires
        0 <= n <= events.len(),
        forall|j: int| 0 <= j < events.len() ==> !snapshot.is_own_placement(#[trigger] events[j]),
    ensures
        snapshot.placements_staged(base, revision, events, n) == base,
        !snapshot.placements_change(base, revision, events, n),
    decreases n,
{
    if n > 0 {
        lemma_unrelated(snapshot, base, revision, events, n - 1);
        assert(!snapshot.is_own_placement(events[n - 1]));
    }
}

/// Staging placement events of keys that are not held here, neither before nor after, changes
/// nothing that this instance answers for.
proof fn lemma_elsewhere(
    snapshot: SnapshotModel,
    base: StateModel,
    revision: OwnershipRevision,
    events: Seq<EventModel>,
    n: int,
)
    requires
        0 <= n <= events.len(),
        forall|j: int|
            0 <= j < events.len() ==> snapshot.is_elsewhere(base.placements, #[trigger] events[j]),
    ensures
        !snapshot.placements_change(base, revision, events, n),
        ({
            let staged = snapshot.placements_staged(base, revision, events, n);
            &&& staged == StateModel { placements: staged.placements, ..base }
            &&& forall|k: KeyModel| #[trigger]
                local_view(staged.placements, k) == local_view(base.placements, k)
        }),
    decreases n,
{
    if n > 0 {
        lemma_elsewhere(snapshot, base, revision, events, n - 1);
        assert(snapshot.is_elsewhere(base.placements, events[n - 1]));
        let prior = snapshot.placements_staged(base, revision, events, n - 1);
        let staged = snapshot.placements_staged(base, revision, events, n);
        assert forall|k: KeyModel| #[trigger]
            local_view(staged.placements, k) == local_view(base.placements, k) by {
            assert(local_view(prior.placements, k) == local_view(base.placements, k));
        }
        if let EventModel::Placement { key, .. } = events[n - 1] {
            assert(local_view(prior.placements, key) == local_view(base.placements, key));
        }
    }
}

/// A grant goes on to hold after a batch that carries no event of this instance and no placement
/// that is or becomes local: one of other services, of other instances, or of keys that are not
/// held here.
pub proof fn law_unrelated_batches_keep_grants(
    snapshot: SnapshotModel,
    revision: PlacementRevision,
    events: Seq<EventModel>,
    grant: GrantModel,
)
    requires
        snapshot.rejection(revision, events) is None,
        snapshot.honours(grant),
        forall|j: int|
            0 <= j < events.len() ==> !snapshot.is_own_instance(#[trigger] events[j])
                && snapshot.is_elsewhere(snapshot.state.placements, events[j]),
    ensures
        snapshot.with_state(
            snapshot.batch_staged(OwnershipRevision(revision.0), events),
        ).honours(grant),
{
    let incoming = OwnershipRevision(revision.0);
    let n = events.len() as int;
    let start = StateModel { revision: Some(incoming), ..snapshot.state };
    lemma_instances_staged(snapshot, start, events, n);
    assert(!snapshot.mentions_instance(events, n));
    assert(snapshot.staging_base(incoming, events) == start);
    lemma_elsewhere(snapshot, start, incoming, events, n);
}

/// A grant no longer holds once the snapshot is fenced for any reason, which a refused change and
/// a resync that begins do, once a registration of this instance is installed, or once its lease
/// is marked dead.
pub proof fn law_grants_end(
    snapshot: SnapshotModel,
    grant: GrantModel,
    reason: OwnershipFenceReason,
    record: InstanceModel,
    lease_valid: bool,
)
    requires
        snapshot.honours(grant),
    ensures
        !snapshot.with_state(snapshot.state.unavailable(reason).bumped()).honours(grant),
        !snapshot.with_state(snapshot.state.with_instance(record, lease_valid)).honours(grant),
        !snapshot.with_state(lease_marked(snapshot.state, grant.lease_id, false)).honours(grant),
{
}

proof fn lemma_merge_faults(
    snapshot: SnapshotModel,
    records: Seq<SnapshotRecordModel>,
    family: Family,
    n: int,
    i: int,
)
    requires
        0 <= i < n <= records.len(),
        snapshot.first_merge_fault(records, family, n) is None,
        family_of(records[i].record) == family,
    ensures
        snapshot.merge_fault(records[i]) is None,
    decreases n,
{
    if i < n - 1 {
        lemma_merge_faults(snapshot, records, family, n - 1, i);
    }
}

/// Each collected entry is the present entry of a record of this service.
proof fn lemma_collected(
    snapshot: SnapshotModel,
    records: Seq<SnapshotRecordModel>,
    n: int,
    key: KeyModel,
) -> (at: int)
    requires
        0 <= n <= records.len(),
        snapshot.collected(records, n).contains_key(key),
    ensures
        0 <= at < n,
        records[at].record.service() == snapshot.service_kind,
        records[at].record.key() == key,
        snapshot.collected(records, n)[key] == snapshot.present_entry(
            records[at].record,
            records[at].version,
        ),
    decreases n,
{
    let item = records[n - 1];
    if item.record.service() == snapshot.service_kind && item.record.key() == key {
        n - 1
    } else {
        lemma_collected(snapshot, records, n - 1, key)
    }
}

/// An accepted view keeps every floor, holds each key that was held before, stays within
/// the limit, and does not move the revision back. A key that was removed, or fenced
/// together with its owner's lease, comes back only at a higher epoch.
pub proof fn law_resync_keeps_floors(
    snapshot: SnapshotModel,
    lease: LeaseId,
    issued: u64,
    revision: OwnershipRevision,
    records: Seq<SnapshotRecordModel>,
)
    requires
        snapshot.resynced(lease, issued, revision, records).1 is None,
    ensures
        ({
            let after = snapshot.resynced(lease, issued, revision, records).0;
            &&& floors_kept(snapshot.state.placements, after.placements)
            &&& coherent(snapshot) ==> coherent(snapshot.with_state(after))
            &&& snapshot.state.placements.dom().finite() ==> bounded(snapshot.with_state(after))
            &&& after.availability == SnapshotAvailability::Ready
            &&& after.revision == Some(revision)
            &&& snapshot.state.revision matches Some(current) ==> current.0 <= revision.0
            &&& after.generation == next_generation(snapshot.state.generation)
            &&& forall|k: KeyModel| #[trigger]
                snapshot.state.placements.contains_key(k) && (
                snapshot.state.placements[k].observation is Absent
                    || snapshot.state.placements[k].observation is LifecycleFenced)
                    && after.placements[k].observation.local() is Some
                    ==> snapshot.state.placements[k].authority.epoch.0
                    < after.placements[k].authority.epoch.0
        }),
{
    let after = snapshot.resynced(lease, issued, revision, records).0;
    let n = records.len() as int;
    let held = snapshot.state.placements;
    let incoming = snapshot.collected(records, n);
    assert(after.placements == merged(held, incoming, revision));
    assert forall|k: KeyModel| #[trigger] held.contains_key(k) implies {
        &&& after.placements.contains_key(k)
        &&& held[k].authority.epoch.0 <= after.placements[k].authority.epoch.0
        &&& (held[k].observation is Absent || held[k].observation is LifecycleFenced)
            && after.placements[k].observation.local() is Some ==> held[k].authority.epoch.0
            < after.placements[k].authority.epoch.0
    } by {
        assert(after.placements.contains_key(k));
        if incoming.contains_key(k) {
            let at = lemma_collected(snapshot, records, n, k);
            lemma_merge_faults(
                snapshot,
                records,
                family_of(records[at].record),
                n,
                at,
            );
        }
    }
    if coherent(snapshot) {
        assert forall|k: KeyModel| #[trigger] after.placements.contains_key(k) implies entry_coherent(
            snapshot.with_state(after),
            k,
            after.placements[k],
        ) by {
            if incoming.contains_key(k) {
                let at = lemma_collected(snapshot, records, n, k);
            } else {
                assert(entry_coherent(snapshot, k, held[k]));
            }
        }
    }
    if held.dom().finite() {
        lemma_collected_finite(snapshot, records, n);
        assert(after.placements.dom() =~= held.dom().union(incoming.dom()));
    }
}

proof fn lemma_collected_finite(
    snapshot: SnapshotModel,
    records: Seq<SnapshotRecordModel>,
    n: int,
)
    requires
        0 <= n <= records.len(),
    ensures
        snapshot.collected(records, n).dom().finite(),
    decreases n,
{
    if n > 0 {
        lemma_collected_finite(snapshot, records, n - 1);
    }
}

} // verus!
