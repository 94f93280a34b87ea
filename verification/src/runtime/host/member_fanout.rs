//! How a host tells its members and its domains what becomes of the membership.
use vstd::prelude::*;

use crate::keymap::{option_view, seq_view, Key};
use crate::plan::lemma_filter_step;
use crate::runtime::host::{CoordinatorHost, HostModel};
use crate::runtime::members::{
    AssociationKey, AssociationModel, MemberRecord, MemberStatus, MembershipVersion, RecordModel,
};
use crate::sorted::ranked;
use crate::types::{NodeIncarnation, NodeKey, NodeModel, PlacementDomainId};

verus! {

/// What is to be done about the snapshot that a member is owed.
#[derive(Debug, Clone, Copy, PartialEq, Eq, Structural)]
pub enum SnapshotStep {
    /// The host does not lead the membership.
    NotLeader,
    /// One is under way; a fresh one follows it.
    Follows,
    /// One is sent, of this version.
    Start(MembershipVersion),
}

/// What came of telling a member of an event.
#[derive(Debug, Clone, Copy, PartialEq, Eq, Structural)]
pub enum MemberDelivery {
    Accepted,
    /// There is no such association any more.
    Missing,
    /// The association takes no more.
    Refused,
}

impl HostModel {
    /// What becomes of the snapshot that a member is owed, and of the host.
    pub open spec fn snapshot_step(self, association: AssociationModel) -> (HostModel, SnapshotStep) {
        match self.membership_version {
            None => (self, SnapshotStep::NotLeader),
            Some(version) => if self.snapshotting_associations.contains(association) {
                (self.replaying(association), SnapshotStep::Follows)
            } else {
                (
                    HostModel {
                        snapshotting_associations: self.snapshotting_associations.insert(
                            association,
                        ),
                        ..self
                    },
                    SnapshotStep::Start(version),
                )
            },
        }
    }

    /// The host once another snapshot is to follow the one under way.
    pub open spec fn replaying(self, association: AssociationModel) -> HostModel {
        HostModel {
            pending_snapshot_replays: self.pending_snapshot_replays.insert(association),
            ..self
        }
    }

    /// Whether a snapshot to one of the members is under way over an association.
    pub open spec fn is_being_snapshot(self, association: AssociationModel) -> bool {
        &&& self.snapshotting_associations.contains(association)
        &&& self.membership_associations.contains_value(association)
    }

    /// The host once there is an event to tell: each snapshot that is under way to a member has
    /// become stale.
    pub open spec fn broadcasting(self) -> HostModel {
        HostModel {
            pending_snapshot_replays: Set::new(
                |association: AssociationModel|
                    self.pending_snapshot_replays.contains(association) || self.is_being_snapshot(
                        association,
                    ),
            ),
            ..self
        }
    }

    /// The host once a snapshot is sent, or has failed.
    pub open spec fn snapshot_ended(self, association: AssociationModel) -> HostModel {
        HostModel {
            snapshotting_associations: self.snapshotting_associations.remove(association),
            pending_snapshot_replays: self.pending_snapshot_replays.remove(association),
            ..self
        }
    }

    /// The host after a member was told of an event, or was not.
    pub open spec fn after_telling(
        self,
        incarnation: NodeIncarnation,
        association: AssociationModel,
        delivery: MemberDelivery,
    ) -> HostModel {
        if self.snapshotting_associations.contains(association) {
            self.replaying(association)
        } else if delivery == MemberDelivery::Missing {
            self.forgetting(incarnation)
        } else if delivery == MemberDelivery::Refused {
            self.snapshot_step(association).0
        } else {
            self
        }
    }

    /// The members that an event is sent to: not those to which a snapshot is under way, since
    /// a snapshot is one replacement and nothing may come in between its frames.
    pub open spec fn told(self) -> Seq<NodeIncarnation> {
        ranked::<NodeIncarnation>(self.membership_associations.dom()).filter(
            |incarnation|
                !self.snapshotting_associations.contains(self.membership_associations[incarnation]),
        )
    }

    /// The domains whose members are to be held against the members of the cluster: those with a
    /// leader here in which that is not under way.
    pub open spec fn to_reconcile(self) -> Seq<Seq<char>> {
        ranked::<PlacementDomainId>(self.domains.dom()).filter(
            |domain| self.runs(domain) && !self.reconciling_domains.contains(domain),
        )
    }

    /// The domains with a leader here, which are told of a removed member.
    pub open spec fn running(self) -> Seq<Seq<char>> {
        ranked::<PlacementDomainId>(self.domains.dom()).filter(|domain| self.runs(domain))
    }
}

/// Whether a member of a domain is a member of the cluster that is up.
pub open spec fn is_globally_up(node: NodeModel, stored: Option<RecordModel>) -> bool {
    &&& stored matches Some(record)
    &&& record.node == node
    &&& record.status == MemberStatus::Up
}

pub fn globally_up(node: &NodeKey, stored: &Option<MemberRecord>) -> (up: bool)
    ensures
        up == is_globally_up(node@, option_view(*stored)),
{
    match stored {
        Some(record) => record.node.same(node) && record.status == MemberStatus::Up,
        None => false,
    }
}

impl CoordinatorHost {
    /// Decides on the snapshot that a member is owed.
    pub fn begin_snapshot(&mut self, association: &AssociationKey) -> (step: SnapshotStep)
        ensures
            (final(self)@, step) == old(self)@.snapshot_step(association@),
    {
        let version = match self.membership_version {
            None => {
                return SnapshotStep::NotLeader;
            },
            Some(version) => version,
        };
        if self.snapshotting_associations.contains_key(association) {
            self.pending_snapshot_replays.insert(association.copy(), ());
            assert(self@ =~= old(self)@.replaying(association@));
            return SnapshotStep::Follows;
        }
        self.snapshotting_associations.insert(association.copy(), ());
        assert(self@ =~= old(self)@.snapshot_step(association@).0);
        SnapshotStep::Start(version)
    }

    /// Notes that a snapshot is sent, or has failed, and says whether a fresh one is due because
    /// it had become stale.
    pub fn end_snapshot(&mut self, association: &AssociationKey) -> (due: bool)
        ensures
            due == old(self)@.pending_snapshot_replays.contains(association@),
            final(self)@ == old(self)@.snapshot_ended(association@),
    {
        let _ = self.snapshotting_associations.remove(association);
        let due = self.pending_snapshot_replays.remove(association);
        assert(self@ =~= old(self)@.snapshot_ended(association@));
        due
    }

    /// Takes up an event: the members that it is sent to. The others are sent a fresh snapshot
    /// once the one that is under way has ended.
    pub fn members_to_tell(&mut self) -> (members: Vec<NodeIncarnation>)
        ensures
            seq_view(members@) == old(self)@.told(),
            final(self)@ == old(self)@.broadcasting(),
    {
        let members = self.members_without_snapshot();
        let len = self.membership_associations.len();
        let ghost list = ranked::<NodeIncarnation>(self.membership_associations@.dom());
        let ghost host = self@;
        let mut i: usize = 0;
        while i < len
            invariant
                i <= len,
                len == list.len(),
                list == ranked::<NodeIncarnation>(self.membership_associations@.dom()),
                self@ == (HostModel {
                    pending_snapshot_replays: self@.pending_snapshot_replays,
                    ..host
                }),
                forall|association: AssociationModel| #[trigger]
                    self@.pending_snapshot_replays.contains(association)
                        <==> host.pending_snapshot_replays.contains(association) || (
                    host.snapshotting_associations.contains(association) && exists|j: int|
                        0 <= j < i && host.membership_associations[#[trigger] list[j]]
                            == association),
            decreases len - i,
        {
            let (_, association) = self.membership_associations.entry_at(i);
            let ghost before = self@;
            let stale = self.snapshotting_associations.contains_key(association);
            if stale {
                let association = association.copy();
                self.pending_snapshot_replays.insert(association, ());
            }
            proof {
                let found = host.membership_associations[list[i as int]];
                assert(self@ =~= HostModel {
                    pending_snapshot_replays: self@.pending_snapshot_replays,
                    ..host
                });
                assert forall|a: AssociationModel| #[trigger]
                    self@.pending_snapshot_replays.contains(a)
                        <==> host.pending_snapshot_replays.contains(a) || (
                    host.snapshotting_associations.contains(a) && exists|j: int|
                        0 <= j < i + 1 && host.membership_associations[#[trigger] list[j]] == a) by {
                    assert(self@.pending_snapshot_replays.contains(a) <==> (
                    before.pending_snapshot_replays.contains(a) || stale && a == found));
                    if stale && a == found {
                        assert(host.membership_associations[list[i as int]] == a);
                    }
                    if exists|j: int|
                        0 <= j < i + 1 && host.membership_associations[#[trigger] list[j]] == a {
                        let j = choose|j: int|
                            0 <= j < i + 1 && host.membership_associations[#[trigger] list[j]] == a;
                        if j < i {
                            assert(host.membership_associations[list[j]] == a);
                        } else {
                            assert(a == found);
                        }
                    }
                }
            }
            i = i + 1;
        }
        proof {
            assert forall|a: AssociationModel|
                host.membership_associations.contains_value(a) <==> exists|j: int|
                    0 <= j < list.len() && host.membership_associations[#[trigger] list[j]] == a by {
                if host.membership_associations.contains_value(a) {
                    let id = choose|id: NodeIncarnation|
                        host.membership_associations.contains_key(id)
                            && host.membership_associations[id] == a;
                    assert(list.to_set().contains(id));
                    let j = choose|j: int| 0 <= j < list.len() && list[j] == id;
                    assert(host.membership_associations[list[j]] == a);
                }
                if exists|j: int|
                    0 <= j < list.len() && host.membership_associations[#[trigger] list[j]] == a {
                    let j = choose|j: int|
                        0 <= j < list.len() && host.membership_associations[#[trigger] list[j]]
                            == a;
                    assert(list.to_set().contains(list[j]));
                    assert(host.membership_associations.contains_key(list[j]));
                }
            }
            assert(self@ =~= host.broadcasting());
        }
        members
    }

    /// The members to which no snapshot is under way.
    fn members_without_snapshot(&self) -> (members: Vec<NodeIncarnation>)
        ensures
            seq_view(members@) == self@.told(),
    {
        let len = self.membership_associations.len();
        let mut members: Vec<NodeIncarnation> = Vec::new();
        let mut i: usize = 0;
        let ghost list = ranked::<NodeIncarnation>(self.membership_associations@.dom());
        let ghost p = |incarnation: NodeIncarnation|
            !self@.snapshotting_associations.contains(self@.membership_associations[incarnation]);
        assert(list.subrange(0, 0).filter(p) =~= Seq::<NodeIncarnation>::empty()) by {
            reveal(Seq::filter);
        }
        while i < len
            invariant
                i <= len,
                len == list.len(),
                list == ranked::<NodeIncarnation>(self.membership_associations@.dom()),
                p == |incarnation: NodeIncarnation|
                    !self@.snapshotting_associations.contains(
                        self@.membership_associations[incarnation],
                    ),
                seq_view(members@) == list.subrange(0, i as int).filter(p),
            decreases len - i,
        {
            let (incarnation, association) = self.membership_associations.entry_at(i);
            let ghost before = seq_view(members@);
            proof {
                lemma_filter_step(list, p, i as int);
            }
            if !self.snapshotting_associations.contains_key(association) {
                members.push(*incarnation);
                assert(seq_view(members@) =~= before.push(incarnation@));
            }
            i = i + 1;
        }
        assert(list.subrange(0, i as int) =~= list);
        members
    }

    /// Notes what came of telling a member of an event. A member without an association is
    /// forgotten, and one that was not told is owed a snapshot.
    pub fn note_telling(
        &mut self,
        incarnation: NodeIncarnation,
        association: &AssociationKey,
        delivery: MemberDelivery,
    ) -> (snapshot: Option<MembershipVersion>)
        ensures
            final(self)@ == old(self)@.after_telling(incarnation, association@, delivery),
            snapshot == if !old(self)@.snapshotting_associations.contains(association@) && delivery
                == MemberDelivery::Refused {
                old(self)@.membership_version
            } else {
                None
            },
    {
        if self.snapshotting_associations.contains_key(association) {
            self.pending_snapshot_replays.insert(association.copy(), ());
            assert(self@ =~= old(self)@.replaying(association@));
            return None;
        }
        match delivery {
            MemberDelivery::Accepted => None,
            MemberDelivery::Missing => {
                self.forget_member(incarnation);
                None
            },
            MemberDelivery::Refused => match self.begin_snapshot(association) {
                SnapshotStep::Start(version) => Some(version),
                _ => None,
            },
        }
    }

    /// Takes up the reconciliation of the domains in which it is not under way.
    pub fn begin_reconciliation(&mut self) -> (domains: Vec<PlacementDomainId>)
        ensures
            seq_view(domains@) == old(self)@.to_reconcile(),
            final(self)@ == (HostModel {
                reconciling_domains: old(self)@.reconciling_domains.union(
                    old(self)@.to_reconcile().to_set(),
                ),
                ..old(self)@
            }),
    {
        let len = self.domains.len();
        let mut domains: Vec<PlacementDomainId> = Vec::new();
        let mut i: usize = 0;
        let ghost list = ranked::<PlacementDomainId>(self.domains@.dom());
        let ghost p = |domain: Seq<char>|
            self@.runs(domain) && !self@.reconciling_domains.contains(domain);
        assert(list.subrange(0, 0).filter(p) =~= Seq::<Seq<char>>::empty()) by {
            reveal(Seq::filter);
        }
        while i < len
            invariant
                i <= len,
                len == list.len(),
                list == ranked::<PlacementDomainId>(self.domains@.dom()),
                p == |domain: Seq<char>|
                    self@.runs(domain) && !self@.reconciling_domains.contains(domain),
                seq_view(domains@) == list.subrange(0, i as int).filter(p),
            decreases len - i,
        {
            let (domain, hosted) = self.domains.entry_at(i);
            let ghost before = seq_view(domains@);
            proof {
                lemma_filter_step(list, p, i as int);
            }
            if hosted.running && !self.reconciling_domains.contains(domain) {
                domains.push(domain.copy());
                assert(seq_view(domains@) =~= before.push(domain@));
            }
            i = i + 1;
        }
        assert(list.subrange(0, i as int) =~= list);
        let ghost chosen = seq_view(domains@);
        let ghost host = self@;
        let mut j: usize = 0;
        assert(chosen.subrange(0, 0).to_set() =~= Set::<Seq<char>>::empty());
        assert(self@ =~= HostModel {
            reconciling_domains: host.reconciling_domains.union(chosen.subrange(0, 0).to_set()),
            ..host
        });
        while j < domains.len()
            invariant
                j <= domains.len(),
                chosen == seq_view(domains@),
                self@ == (HostModel {
                    reconciling_domains: host.reconciling_domains.union(
                        chosen.subrange(0, j as int).to_set(),
                    ),
                    ..host
                }),
            decreases domains.len() - j,
        {
            proof {
                let shorter = chosen.subrange(0, j as int);
                assert(chosen.subrange(0, j + 1) =~= shorter.push(chosen[j as int]));
                crate::sorted::lemma_push_to_set(shorter, chosen[j as int]);
                assert(domains@[j as int]@ == chosen[j as int]);
            }
            let ghost before = self@;
            let _ = self.reconciling_domains.insert(domains[j].copy());
            assert(self@ =~= HostModel {
                reconciling_domains: host.reconciling_domains.union(
                    chosen.subrange(0, j + 1).to_set(),
                ),
                ..host
            });
            j = j + 1;
        }
        assert(chosen.subrange(0, j as int) =~= chosen);
        domains
    }

    /// Notes that the reconciliation of a domain is over.
    pub fn end_reconciliation(&mut self, domain: &PlacementDomainId)
        ensures
            final(self)@ == (HostModel {
                reconciling_domains: old(self)@.reconciling_domains.remove(domain@),
                ..old(self)@
            }),
    {
        let _ = self.reconciling_domains.remove(domain);
        assert(self@ =~= HostModel {
            reconciling_domains: old(self)@.reconciling_domains.remove(domain@),
            ..old(self)@
        });
    }

    /// The domains that are told of a removed member.
    pub fn domains_to_tell(&self) -> (domains: Vec<PlacementDomainId>)
        ensures
            seq_view(domains@) == self@.running(),
    {
        let len = self.domains.len();
        let mut domains: Vec<PlacementDomainId> = Vec::new();
        let mut i: usize = 0;
        let ghost list = ranked::<PlacementDomainId>(self.domains@.dom());
        let ghost p = |domain: Seq<char>| self@.runs(domain);
        assert(list.subrange(0, 0).filter(p) =~= Seq::<Seq<char>>::empty()) by {
            reveal(Seq::filter);
        }
        while i < len
            invariant
                i <= len,
                len == list.len(),
                list == ranked::<PlacementDomainId>(self.domains@.dom()),
                p == |domain: Seq<char>| self@.runs(domain),
                seq_view(domains@) == list.subrange(0, i as int).filter(p),
            decreases len - i,
        {
            let (domain, hosted) = self.domains.entry_at(i);
            let ghost before = seq_view(domains@);
            proof {
                lemma_filter_step(list, p, i as int);
            }
            if hosted.running {
                domains.push(domain.copy());
                assert(seq_view(domains@) =~= before.push(domain@));
            }
            i = i + 1;
        }
        assert(list.subrange(0, i as int) =~= list);
        domains
    }
}

/// Nothing comes between the frames of a snapshot: an event reaches no member to which one is
/// under way. It is remembered that the snapshot became stale, and once it has ended a fresh one
/// is cut.
pub proof fn law_stale_snapshots_are_cut_again(host: HostModel, incarnation: NodeIncarnation)
    requires
        host.membership_associations.contains_key(incarnation),
        host.snapshotting_associations.contains(host.membership_associations[incarnation]),
    ensures
        ({
            let association = host.membership_associations[incarnation];
            let told = host.broadcasting();
            let ended = told.snapshot_ended(association);
            &&& !host.told().contains(incarnation)
            &&& told.pending_snapshot_replays.contains(association)
            &&& !ended.pending_snapshot_replays.contains(association)
            &&& host.membership_version matches Some(version) ==> ended.snapshot_step(association).1
                == SnapshotStep::Start(version)
        }),
{
    let list = ranked::<NodeIncarnation>(host.membership_associations.dom());
    let p = |i: NodeIncarnation|
        !host.snapshotting_associations.contains(host.membership_associations[i]);
    if host.told().contains(incarnation) {
        let k = choose|k: int| 0 <= k < host.told().len() && host.told()[k] == incarnation;
        list.lemma_filter_pred(p, k);
    }
    assert(host.membership_associations.contains_value(host.membership_associations[incarnation]));
}

/// A snapshot that stayed current while it was under way is not cut again.
pub proof fn law_current_snapshots_are_cut_once(host: HostModel, association: AssociationModel)
    requires
        host.membership_version is Some,
        !host.snapshotting_associations.contains(association),
        !host.pending_snapshot_replays.contains(association),
    ensures
        ({
            let begun = host.snapshot_step(association).0;
            &&& host.snapshot_step(association).1 == SnapshotStep::Start(
                host.membership_version->0,
            )
            &&& !begun.pending_snapshot_replays.contains(association)
            &&& begun.snapshot_ended(association) == host
        }),
{
    let begun = host.snapshot_step(association).0;
    assert(begun.snapshot_ended(association) =~= host);
}

/// The participants of a domain that one pass looks at.
pub fn participants_of_pass(participants: Vec<NodeKey>, maximum: usize) -> (looked_at: Vec<NodeKey>)
    ensures
        looked_at@ == participants@.take(
            if maximum <= participants@.len() {
                maximum as int
            } else {
                participants@.len() as int
            },
        ),
{
    let mut looked_at = participants;
    looked_at.truncate(maximum);
    looked_at
}

} // verus!
