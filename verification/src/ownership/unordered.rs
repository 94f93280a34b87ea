//! The order of the events of a watch batch makes no difference.
use vstd::prelude::*;

use crate::epoch_floor::{delete_fault, upsert_fault};
use crate::ownership::watch::EventModel;
use crate::ownership::{OwnershipRevision, SnapshotModel, StateModel};
use crate::records::PlacementRevision;

verus! {

/// The events with two neighbours exchanged.
pub open spec fn exchanged(events: Seq<EventModel>, at: int) -> Seq<EventModel> {
    events.update(at, events[at + 1]).update(at + 1, events[at])
}

/// Where an event stands once two neighbours are exchanged.
spec fn place(at: int, i: int) -> int {
    if i == at {
        at + 1
    } else if i == at + 1 {
        at
    } else {
        i
    }
}

impl SnapshotModel {
    /// Whether two events can stand in one batch: no two are of this instance, and no two are of
    /// the same placement of this service.
    pub open spec fn apart(self, a: EventModel, b: EventModel) -> bool {
        &&& !(self.is_own_instance(a) && self.is_own_instance(b))
        &&& !(self.is_own_placement(a) && self.is_own_placement(b) && a->key == b->key)
    }

    /// Whether an event is sound by itself.
    pub open spec fn sound(self, revision: PlacementRevision, event: EventModel) -> bool {
        match event {
            EventModel::Instance { .. } => true,
            EventModel::Placement { key, record, proof, deleted } => key.service()
                == self.service_kind ==> key == record.key() && if deleted {
                delete_fault(proof, revision, record) is None
            } else {
                upsert_fault(proof, revision, record) is None
            },
        }
    }

    /// Whether the events of a batch are sound, apart from each other and not too many.
    pub open spec fn consistent(self, revision: PlacementRevision, events: Seq<EventModel>) -> bool {
        &&& forall|i: int| 0 <= i < events.len() ==> self.sound(revision, #[trigger] events[i])
        &&& forall|i: int, j: int|
            0 <= i < j < events.len() ==> self.apart(#[trigger] events[i], #[trigger] events[j])
        &&& self.own_placements(events, events.len() as int) <= self.max_entries
    }

    /// Whether two batches come to the same: both are refused, or both are accepted and leave the
    /// same state.
    pub open spec fn same_outcome(
        self,
        revision: PlacementRevision,
        left: Seq<EventModel>,
        right: Seq<EventModel>,
    ) -> bool {
        let incoming = OwnershipRevision(revision.0);
        &&& self.rejection(revision, left) is None <==> self.rejection(revision, right) is None
        &&& self.rejection(revision, left) is None ==> self.batch_staged(incoming, left)
            == self.batch_staged(incoming, right)
    }
}

proof fn lemma_own_placements(snapshot: SnapshotModel, events: Seq<EventModel>, m: int, n: int)
    requires
        0 <= m <= n <= events.len(),
    ensures
        snapshot.own_placements(events, m) <= snapshot.own_placements(events, n),
    decreases n,
{
    if m < n {
        lemma_own_placements(snapshot, events, m, n - 1);
    }
}

/// Where no event is at fault, they are consistent.
proof fn lemma_consistent(
    snapshot: SnapshotModel,
    revision: PlacementRevision,
    events: Seq<EventModel>,
    n: int,
)
    requires
        0 <= n <= events.len(),
        snapshot.first_event_fault(revision, events, n) is None,
    ensures
        forall|i: int| 0 <= i < n ==> snapshot.sound(revision, #[trigger] events[i]),
        forall|i: int, j: int|
            0 <= i < j < n ==> snapshot.apart(#[trigger] events[i], #[trigger] events[j]),
        snapshot.own_placements(events, n) <= snapshot.max_entries,
    decreases n,
{
    if n > 0 {
        lemma_consistent(snapshot, revision, events, n - 1);
        assert(snapshot.event_fault(revision, events, n - 1) is None);
        assert forall|i: int| 0 <= i < n - 1 implies snapshot.apart(
            #[trigger] events[i],
            events[n - 1],
        ) by {
            if snapshot.is_own_instance(events[i]) && snapshot.is_own_instance(events[n - 1]) {
                assert(snapshot.mentions_instance(events, n - 1));
            }
            if snapshot.is_own_placement(events[i]) && snapshot.is_own_placement(events[n - 1])
                && events[i]->key == events[n - 1]->key {
                assert(snapshot.mentions_key(events, n - 1, events[n - 1]->key));
            }
        }
    }
}

/// Where events are consistent, none is at fault.
proof fn lemma_faultless(
    snapshot: SnapshotModel,
    revision: PlacementRevision,
    events: Seq<EventModel>,
    n: int,
)
    requires
        0 <= n <= events.len(),
        snapshot.consistent(revision, events),
    ensures
        snapshot.first_event_fault(revision, events, n) is None,
    decreases n,
{
    if n > 0 {
        lemma_faultless(snapshot, revision, events, n - 1);
        lemma_own_placements(snapshot, events, n, events.len() as int);
        let event = events[n - 1];
        assert(snapshot.sound(revision, event));
        if snapshot.is_own_instance(event) && snapshot.mentions_instance(events, n - 1) {
            let j = choose|j: int| 0 <= j < n - 1 && snapshot.is_own_instance(#[trigger] events[j]);
            assert(snapshot.apart(events[j], events[n - 1]));
        }
        if snapshot.is_own_placement(event) && snapshot.mentions_key(events, n - 1, event->key) {
            let j = choose|j: int|
                0 <= j < n - 1 && snapshot.is_own_placement(#[trigger] events[j])
                    && events[j]->key == event->key;
            assert(snapshot.apart(events[j], events[n - 1]));
        }
    }
}

proof fn lemma_progresses(
    snapshot: SnapshotModel,
    events: Seq<EventModel>,
    fences: bool,
    n: int,
)
    requires
        0 <= n <= events.len(),
    ensures
        snapshot.first_progression_fault(events, fences, n) is None <==> forall|i: int|
            0 <= i < n ==> snapshot.progression_fault(#[trigger] events[i], fences) is None,
    decreases n,
{
    if n > 0 {
        lemma_progresses(snapshot, events, fences, n - 1);
        if snapshot.first_progression_fault(events, fences, n) is Some
            && snapshot.first_progression_fault(events, fences, n - 1) is None {
            assert(snapshot.progression_fault(events[n - 1], fences) is Some);
        }
        if forall|i: int|
            0 <= i < n ==> snapshot.progression_fault(#[trigger] events[i], fences) is None {
            assert(snapshot.progression_fault(events[n - 1], fences) is None);
        }
    }
}

proof fn lemma_exchanged_counts(snapshot: SnapshotModel, events: Seq<EventModel>, at: int, n: int)
    requires
        0 <= at < events.len() - 1,
        0 <= n <= events.len(),
        n != at + 1,
    ensures
        snapshot.own_placements(exchanged(events, at), n) == snapshot.own_placements(events, n),
    decreases n,
{
    let other = exchanged(events, at);
    if n == at + 2 {
        lemma_exchanged_counts(snapshot, events, at, at);
        reveal_with_fuel(SnapshotModel::own_placements, 3);
        assert(other[at] == events[at + 1] && other[at + 1] == events[at]);
    } else if n > 0 {
        lemma_exchanged_counts(snapshot, events, at, n - 1);
        assert(other[n - 1] == events[n - 1]);
    }
}

proof fn lemma_exchanged_consistent(
    snapshot: SnapshotModel,
    revision: PlacementRevision,
    events: Seq<EventModel>,
    at: int,
)
    requires
        0 <= at < events.len() - 1,
        snapshot.consistent(revision, events),
    ensures
        snapshot.consistent(revision, exchanged(events, at)),
{
    let other = exchanged(events, at);
    assert forall|i: int| 0 <= i < other.len() implies snapshot.sound(
        revision,
        #[trigger] other[i],
    ) by {
        assert(other[i] == events[place(at, i)]);
    }
    assert forall|i: int, j: int| 0 <= i < j < other.len() implies snapshot.apart(
        #[trigger] other[i],
        #[trigger] other[j],
    ) by {
        let (k, l) = (place(at, i), place(at, j));
        assert(other[i] == events[k] && other[j] == events[l]);
        if k < l {
            assert(snapshot.apart(events[k], events[l]));
        } else {
            assert(snapshot.apart(events[l], events[k]));
        }
    }
    lemma_exchanged_counts(snapshot, events, at, events.len() as int);
}

/// Two events that are apart can be staged in either order.
proof fn lemma_instances_commute(
    snapshot: SnapshotModel,
    state: StateModel,
    a: EventModel,
    b: EventModel,
)
    requires
        snapshot.apart(a, b),
    ensures
        snapshot.instance_staged(snapshot.instance_staged(state, a), b)
            == snapshot.instance_staged(snapshot.instance_staged(state, b), a),
{
}

proof fn lemma_exchanged_instances(
    snapshot: SnapshotModel,
    start: StateModel,
    events: Seq<EventModel>,
    at: int,
    n: int,
)
    requires
        0 <= at < events.len() - 1,
        0 <= n <= events.len(),
        n != at + 1,
        snapshot.apart(events[at], events[at + 1]),
    ensures
        snapshot.instances_staged(start, events, n) == snapshot.instances_staged(
            start,
            exchanged(events, at),
            n,
        ),
    decreases n,
{
    let other = exchanged(events, at);
    if n == at + 2 {
        lemma_exchanged_instances(snapshot, start, events, at, at);
        let prior = snapshot.instances_staged(start, events, at);
        assert(snapshot.instances_staged(start, events, at + 1) == snapshot.instance_staged(
            prior,
            events[at],
        ));
        assert(snapshot.instances_staged(start, other, at + 1) == snapshot.instance_staged(
            prior,
            events[at + 1],
        ));
        assert(other[at + 1] == events[at]);
        lemma_instances_commute(snapshot, prior, events[at], events[at + 1]);
    } else if n > 0 {
        lemma_exchanged_instances(snapshot, start, events, at, n - 1);
        assert(other[n - 1] == events[n - 1]);
    }
}

proof fn lemma_placements_commute(
    snapshot: SnapshotModel,
    state: StateModel,
    revision: OwnershipRevision,
    a: EventModel,
    b: EventModel,
)
    requires
        snapshot.apart(a, b),
        state.placements.dom().finite(),
    ensures
        ({
            let first = snapshot.placement_staged(state, revision, a);
            let second = snapshot.placement_staged(state, revision, b);
            &&& snapshot.placement_staged(first, revision, b) == snapshot.placement_staged(
                second,
                revision,
                a,
            )
            &&& (snapshot.placement_changes(state, revision, a) || snapshot.placement_changes(
                first,
                revision,
                b,
            )) == (snapshot.placement_changes(state, revision, b) || snapshot.placement_changes(
                second,
                revision,
                a,
            ))
            &&& (snapshot.placement_overflows(state, a) || snapshot.placement_overflows(first, b))
                == (snapshot.placement_overflows(state, b) || snapshot.placement_overflows(
                second,
                a,
            ))
        }),
{
    let first = snapshot.placement_staged(state, revision, a);
    let second = snapshot.placement_staged(state, revision, b);
    if snapshot.is_own_placement(a) && snapshot.is_own_placement(b) {
        assert(snapshot.placement_staged(first, revision, b) =~= snapshot.placement_staged(
            second,
            revision,
            a,
        ));
    }
}

proof fn lemma_staged_finite(
    snapshot: SnapshotModel,
    base: StateModel,
    revision: OwnershipRevision,
    events: Seq<EventModel>,
    n: int,
)
    requires
        base.placements.dom().finite(),
    ensures
        snapshot.placements_staged(base, revision, events, n).placements.dom().finite(),
    decreases n,
{
    if n > 0 {
        lemma_staged_finite(snapshot, base, revision, events, n - 1);
    }
}

proof fn lemma_exchanged_placements(
    snapshot: SnapshotModel,
    base: StateModel,
    revision: OwnershipRevision,
    events: Seq<EventModel>,
    at: int,
    n: int,
)
    requires
        0 <= at < events.len() - 1,
        0 <= n <= events.len(),
        n != at + 1,
        snapshot.apart(events[at], events[at + 1]),
        base.placements.dom().finite(),
    ensures
        ({
            let other = exchanged(events, at);
            &&& snapshot.placements_staged(base, revision, events, n)
                == snapshot.placements_staged(base, revision, other, n)
            &&& snapshot.placements_change(base, revision, events, n)
                == snapshot.placements_change(base, revision, other, n)
            &&& snapshot.overflows(base, revision, events, n) == snapshot.overflows(
                base,
                revision,
                other,
                n,
            )
        }),
    decreases n,
{
    let other = exchanged(events, at);
    if n == at + 2 {
        lemma_exchanged_placements(snapshot, base, revision, events, at, at);
        lemma_staged_finite(snapshot, base, revision, events, at);
        let prior = snapshot.placements_staged(base, revision, events, at);
        let (a, b) = (events[at], events[at + 1]);
        assert(other[at] == b && other[at + 1] == a);
        assert(snapshot.placements_staged(base, revision, events, at + 1)
            == snapshot.placement_staged(prior, revision, a));
        assert(snapshot.placements_staged(base, revision, other, at + 1)
            == snapshot.placement_staged(prior, revision, b));
        assert(snapshot.placements_change(base, revision, events, at + 1) == (
        snapshot.placements_change(base, revision, events, at) || snapshot.placement_changes(
            prior,
            revision,
            a,
        )));
        assert(snapshot.placements_change(base, revision, other, at + 1) == (
        snapshot.placements_change(base, revision, other, at) || snapshot.placement_changes(
            prior,
            revision,
            b,
        )));
        assert(snapshot.overflows(base, revision, events, at + 1) == (snapshot.overflows(
            base,
            revision,
            events,
            at,
        ) || snapshot.placement_overflows(prior, a)));
        assert(snapshot.overflows(base, revision, other, at + 1) == (snapshot.overflows(
            base,
            revision,
            other,
            at,
        ) || snapshot.placement_overflows(prior, b)));
        lemma_placements_commute(snapshot, prior, revision, a, b);
    } else if n > 0 {
        lemma_exchanged_placements(snapshot, base, revision, events, at, n - 1);
        assert(other[n - 1] == events[n - 1]);
    }
}

proof fn lemma_instances_finite(
    snapshot: SnapshotModel,
    start: StateModel,
    events: Seq<EventModel>,
    n: int,
)
    requires
        start.placements.dom().finite(),
    ensures
        snapshot.instances_staged(start, events, n).placements.dom().finite(),
    decreases n,
{
    if n > 0 {
        lemma_instances_finite(snapshot, start, events, n - 1);
        let prior = snapshot.instances_staged(start, events, n - 1);
        assert(prior.placements_fenced().placements.dom() =~= prior.placements.dom());
    }
}

/// An accepted batch stays accepted, and leaves the same state, if two neighbours are exchanged.
proof fn lemma_exchanged(
    snapshot: SnapshotModel,
    revision: PlacementRevision,
    events: Seq<EventModel>,
    at: int,
)
    requires
        snapshot.state.placements.dom().finite(),
        0 <= at < events.len() - 1,
        snapshot.rejection(revision, events) is None,
    ensures
        snapshot.rejection(revision, exchanged(events, at)) is None,
        snapshot.batch_staged(OwnershipRevision(revision.0), exchanged(events, at))
            == snapshot.batch_staged(OwnershipRevision(revision.0), events),
{
    let other = exchanged(events, at);
    let incoming = OwnershipRevision(revision.0);
    let n = events.len() as int;
    lemma_consistent(snapshot, revision, events, n);
    lemma_exchanged_consistent(snapshot, revision, events, at);
    lemma_faultless(snapshot, revision, other, n);
    assert(snapshot.apart(events[at], events[at + 1]));
    assert(snapshot.lifecycle_fences(events) == snapshot.lifecycle_fences(other)) by {
        if snapshot.lifecycle_fences(events) {
            let j = choose|j: int| 0 <= j < n && snapshot.ends_authority(#[trigger] events[j]);
            assert(other[place(at, j)] == events[j]);
        }
        if snapshot.lifecycle_fences(other) {
            let j = choose|j: int| 0 <= j < n && snapshot.ends_authority(#[trigger] other[j]);
            assert(events[place(at, j)] == other[j]);
        }
    }
    assert(snapshot.mentions_instance(events, n) == snapshot.mentions_instance(other, n)) by {
        if snapshot.mentions_instance(events, n) {
            let j = choose|j: int| 0 <= j < n && snapshot.is_own_instance(#[trigger] events[j]);
            assert(other[place(at, j)] == events[j]);
        }
        if snapshot.mentions_instance(other, n) {
            let j = choose|j: int| 0 <= j < n && snapshot.is_own_instance(#[trigger] other[j]);
            assert(events[place(at, j)] == other[j]);
        }
    }
    let fences = snapshot.lifecycle_fences(events);
    lemma_progresses(snapshot, events, fences, n);
    lemma_progresses(snapshot, other, fences, n);
    assert forall|i: int| 0 <= i < n implies snapshot.progression_fault(
        #[trigger] other[i],
        fences,
    ) is None by {
        assert(other[i] == events[place(at, i)]);
    }
    let start = StateModel { revision: Some(incoming), ..snapshot.state };
    lemma_exchanged_instances(snapshot, start, events, at, n);
    lemma_instances_finite(snapshot, start, events, n);
    lemma_exchanged_placements(
        snapshot,
        snapshot.staging_base(incoming, events),
        incoming,
        events,
        at,
        n,
    );
}

proof fn lemma_exchange_is_immaterial(
    snapshot: SnapshotModel,
    revision: PlacementRevision,
    events: Seq<EventModel>,
    at: int,
)
    requires
        snapshot.state.placements.dom().finite(),
        0 <= at < events.len() - 1,
    ensures
        snapshot.same_outcome(revision, events, exchanged(events, at)),
{
    let other = exchanged(events, at);
    if snapshot.rejection(revision, events) is None {
        lemma_exchanged(snapshot, revision, events, at);
    }
    if snapshot.rejection(revision, other) is None {
        lemma_exchanged(snapshot, revision, other, at);
        assert(exchanged(other, at) =~= events);
    }
}

/// Moving an event of the front of a batch to the end of that front makes no difference.
proof fn lemma_moved(
    snapshot: SnapshotModel,
    revision: PlacementRevision,
    front: Seq<EventModel>,
    rest: Seq<EventModel>,
    at: int,
)
    requires
        snapshot.state.placements.dom().finite(),
        0 <= at < front.len(),
    ensures
        snapshot.same_outcome(
            revision,
            front + rest,
            front.remove(at).push(front[at]) + rest,
        ),
    decreases front.len() - at,
{
    if at == front.len() - 1 {
        assert(front.remove(at).push(front[at]) =~= front);
    } else {
        let next = exchanged(front, at);
        lemma_exchange_is_immaterial(snapshot, revision, front + rest, at);
        assert(exchanged(front + rest, at) =~= next + rest);
        lemma_moved(snapshot, revision, next, rest, at + 1);
        assert(next.remove(at + 1).push(next[at + 1]) =~= front.remove(at).push(front[at]));
    }
}

proof fn lemma_reordered(
    snapshot: SnapshotModel,
    revision: PlacementRevision,
    left: Seq<EventModel>,
    right: Seq<EventModel>,
    rest: Seq<EventModel>,
)
    requires
        snapshot.state.placements.dom().finite(),
        left.to_multiset() == right.to_multiset(),
    ensures
        snapshot.same_outcome(revision, left + rest, right + rest),
    decreases right.len(),
{
    broadcast use vstd::seq_lib::group_to_multiset_ensures;

    vstd::seq_lib::to_multiset_len(left);
    vstd::seq_lib::to_multiset_len(right);
    if right.len() == 0 {
        assert(left =~= right);
    } else {
        let event = right.last();
        let shorter = right.drop_last();
        assert(right =~= shorter.push(event));
        assert(right.to_multiset().count(event) > 0);
        assert(left.contains(event));
        let at = choose|at: int| 0 <= at < left.len() && left[at] == event;
        let others = left.remove(at);
        lemma_moved(snapshot, revision, left, rest, at);
        assert(others.to_multiset() =~= shorter.to_multiset()) by {
            assert(others.to_multiset() =~= left.to_multiset().remove(event));
            assert(shorter.push(event).to_multiset() =~= shorter.to_multiset().insert(event));
            assert(shorter.to_multiset().insert(event).remove(event) =~= shorter.to_multiset());
        }
        lemma_reordered(snapshot, revision, others, shorter, seq![event] + rest);
        assert(others + (seq![event] + rest) =~= others.push(event) + rest);
        assert(shorter + (seq![event] + rest) =~= right + rest);
    }
}

/// A batch is one change, whatever the order of its events: batches of one revision whose events
/// are the same in another order are accepted alike, and leave the same records, instance, valid
/// leases, availability, revision and generation.
pub proof fn law_event_order_is_immaterial(
    snapshot: SnapshotModel,
    revision: PlacementRevision,
    left: Seq<EventModel>,
    right: Seq<EventModel>,
)
    requires
        snapshot.state.placements.dom().finite(),
        left.to_multiset() == right.to_multiset(),
    ensures
        snapshot.rejection(revision, left) is None <==> snapshot.rejection(revision, right) is None,
        snapshot.rejection(revision, left) is None ==> snapshot.batch_staged(
            OwnershipRevision(revision.0),
            left,
        ) == snapshot.batch_staged(OwnershipRevision(revision.0), right),
{
    lemma_reordered(snapshot, revision, left, right, Seq::empty());
    assert(left + Seq::empty() =~= left);
    assert(right + Seq::empty() =~= right);
}

} // verus!
