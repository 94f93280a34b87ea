//! Nodes, slots, versions and claims.
//!
//! As with placement records, a value is generic in how it holds text: with `String` it is
//! the value itself, with `Seq<char>` what it denotes.
use vstd::prelude::*;

use crate::keymap::{copy_option, option_view, Key};
use crate::order::{compare_text, text_less, Order};
use crate::sessions::SessionSet;
use crate::time::TimeSpan;

verus! {

pub type PlacementDomainId = String;

pub type EntityType = String;

pub type SingletonKind = String;

/// One boot of a node. Never zero when made by `new`.
#[derive(Debug, Clone, Copy, PartialEq, Eq, Structural, PartialOrd, Ord, Hash)]
pub struct NodeIncarnation(pub u128);

impl NodeIncarnation {
    pub fn new(value: u128) -> (made: Option<Self>)
        ensures
            made == if value == 0 {
                None
            } else {
                Some(NodeIncarnation(value))
            },
    {
        if value == 0 {
            None
        } else {
            Some(NodeIncarnation(value))
        }
    }

    pub fn get(&self) -> (value: u128)
        ensures
            value == self.0,
    {
        self.0
    }
}

/// How often a slot has been assigned. Never zero when made by `new`.
#[derive(Debug, Clone, Copy, PartialEq, Eq, Structural, PartialOrd, Ord, Hash)]
pub struct AssignmentGeneration(pub u64);

impl AssignmentGeneration {
    pub fn new(value: u64) -> (made: Option<Self>)
        ensures
            made == if value == 0 {
                None
            } else {
                Some(AssignmentGeneration(value))
            },
    {
        if value == 0 {
            None
        } else {
            Some(AssignmentGeneration(value))
        }
    }

    pub fn get(&self) -> (value: u64)
        ensures
            value == self.0,
    {
        self.0
    }
}

impl AssignmentGeneration {
    /// The next value; none once the last is reached.
    pub open spec fn spec_next(self) -> Option<AssignmentGeneration> {
        if self.0 == u64::MAX {
            None
        } else {
            Some(AssignmentGeneration((self.0 + 1) as u64))
        }
    }

    pub fn next(self) -> (next: Option<Self>)
        ensures
            next == self.spec_next(),
    {
        match self.0.checked_add(1) {
            Some(value) => Some(AssignmentGeneration(value)),
            None => None,
        }
    }
}

/// A term of leadership. Never zero when made by `new`.
#[derive(Debug, Clone, Copy, PartialEq, Eq, Structural, PartialOrd, Ord, Hash)]
pub struct CoordinatorTerm(pub u64);

impl CoordinatorTerm {
    pub fn new(value: u64) -> (made: Option<Self>)
        ensures
            made == if value == 0 {
                None
            } else {
                Some(CoordinatorTerm(value))
            },
    {
        if value == 0 {
            None
        } else {
            Some(CoordinatorTerm(value))
        }
    }

    pub fn get(&self) -> (value: u64)
        ensures
            value == self.0,
    {
        self.0
    }
}

impl CoordinatorTerm {
    /// The next value; none once the last is reached.
    pub open spec fn spec_next(self) -> Option<CoordinatorTerm> {
        if self.0 == u64::MAX {
            None
        } else {
            Some(CoordinatorTerm((self.0 + 1) as u64))
        }
    }

    pub fn next(self) -> (next: Option<Self>)
        ensures
            next == self.spec_next(),
    {
        match self.0.checked_add(1) {
            Some(value) => Some(CoordinatorTerm(value)),
            None => None,
        }
    }
}

/// How often the record of a plan was written. Never zero when made by `new`.
#[derive(Debug, Clone, Copy, PartialEq, Eq, Structural, PartialOrd, Ord, Hash)]
pub struct PlanRevision(pub u64);

impl PlanRevision {
    pub fn new(value: u64) -> (made: Option<Self>)
        ensures
            made == if value == 0 {
                None
            } else {
                Some(PlanRevision(value))
            },
    {
        if value == 0 {
            None
        } else {
            Some(PlanRevision(value))
        }
    }

    pub fn get(&self) -> (value: u64)
        ensures
            value == self.0,
    {
        self.0
    }
}

impl PlanRevision {
    /// The next value; none once the last is reached.
    pub open spec fn spec_next(self) -> Option<PlanRevision> {
        if self.0 == u64::MAX {
            None
        } else {
            Some(PlanRevision((self.0 + 1) as u64))
        }
    }

    pub fn next(self) -> (next: Option<Self>)
        ensures
            next == self.spec_next(),
    {
        match self.0.checked_add(1) {
            Some(value) => Some(PlanRevision(value)),
            None => None,
        }
    }
}

/// A revision of the placement of one domain. Never zero when made by `new`.
#[derive(Debug, Clone, Copy, PartialEq, Eq, Structural, PartialOrd, Ord, Hash)]
pub struct Revision(pub u64);

impl Revision {
    pub fn new(value: u64) -> (made: Option<Self>)
        ensures
            made == if value == 0 {
                None
            } else {
                Some(Revision(value))
            },
    {
        if value == 0 {
            None
        } else {
            Some(Revision(value))
        }
    }

    pub fn get(&self) -> (value: u64)
        ensures
            value == self.0,
    {
        self.0
    }
}

impl Revision {
    /// The next value; none once the last is reached.
    pub open spec fn spec_next(self) -> Option<Revision> {
        if self.0 == u64::MAX {
            None
        } else {
            Some(Revision((self.0 + 1) as u64))
        }
    }

    pub fn next(self) -> (next: Option<Self>)
        ensures
            next == self.spec_next(),
    {
        match self.0.checked_add(1) {
            Some(value) => Some(Revision(value)),
            None => None,
        }
    }
}

/// How often a claim was granted in one assignment. Never zero when made by `new`.
#[derive(Debug, Clone, Copy, PartialEq, Eq, Structural, PartialOrd, Ord, Hash)]
pub struct GrantSequence(pub u64);

impl GrantSequence {
    pub fn new(value: u64) -> (made: Option<Self>)
        ensures
            made == if value == 0 {
                None
            } else {
                Some(GrantSequence(value))
            },
    {
        if value == 0 {
            None
        } else {
            Some(GrantSequence(value))
        }
    }

    pub fn get(&self) -> (value: u64)
        ensures
            value == self.0,
    {
        self.0
    }
}

impl GrantSequence {
    /// The next value; none once the last is reached.
    pub open spec fn spec_next(self) -> Option<GrantSequence> {
        if self.0 == u64::MAX {
            None
        } else {
            Some(GrantSequence((self.0 + 1) as u64))
        }
    }

    pub fn next(self) -> (next: Option<Self>)
        ensures
            next == self.spec_next(),
    {
        match self.0.checked_add(1) {
            Some(value) => Some(GrantSequence(value)),
            None => None,
        }
    }
}

/// A protocol that entities speak. Never zero when made by `new`.
#[derive(Debug, Clone, Copy, PartialEq, Eq, Structural, PartialOrd, Ord, Hash)]
pub struct ProtocolId(pub u64);

impl ProtocolId {
    pub fn new(value: u64) -> (made: Option<Self>)
        ensures
            made == if value == 0 {
                None
            } else {
                Some(ProtocolId(value))
            },
    {
        if value == 0 {
            None
        } else {
            Some(ProtocolId(value))
        }
    }

    pub fn get(&self) -> (value: u64)
        ensures
            value == self.0,
    {
        self.0
    }
}

/// A shard of an entity type.
#[derive(Debug, Clone, Copy, PartialEq, Eq, Structural, PartialOrd, Ord, Hash)]
pub struct ShardId(pub u32);

impl ShardId {
    pub fn new(value: u32) -> (shard: Self)
        ensures
            shard == ShardId(value),
    {
        ShardId(value)
    }

    pub fn get(&self) -> (value: u32)
        ensures
            value == self.0,
    {
        self.0
    }
}

impl View for ShardId {
    type V = ShardId;

    open spec fn view(&self) -> ShardId {
        *self
    }
}

impl Key for ShardId {
    fn same(&self, other: &Self) -> (same: bool) {
        *self == *other
    }

    fn copy(&self) -> (copy: Self) {
        *self
    }
}

/// The digest of a configuration.
#[derive(Debug, Clone, Copy, PartialEq, Eq)]
pub struct ConfigFingerprint {
    pub bytes: [u8; 32],
}

impl View for ConfigFingerprint {
    type V = Seq<u8>;

    open spec fn view(&self) -> Seq<u8> {
        self.bytes@
    }
}

impl ConfigFingerprint {
    pub fn new(bytes: [u8; 32]) -> (fingerprint: Self)
        ensures
            fingerprint@ == bytes@,
    {
        ConfigFingerprint { bytes }
    }

    pub fn as_bytes(&self) -> (bytes: &[u8; 32])
        ensures
            bytes@ == self@,
    {
        &self.bytes
    }
}

impl Key for ConfigFingerprint {
    fn same(&self, other: &Self) -> (same: bool) {
        let mut i: usize = 0;
        while i < 32
            invariant
                i <= 32,
                forall|j: int| 0 <= j < i ==> self.bytes@[j] == other.bytes@[j],
            decreases 32 - i,
        {
            if self.bytes[i] != other.bytes[i] {
                assert(self@[i as int] != other@[i as int]);
                return false;
            }
            i = i + 1;
        }
        assert(self@ =~= other@);
        true
    }

    fn copy(&self) -> (copy: Self) {
        *self
    }
}

/// Where a node is reached.
#[derive(Debug, PartialEq, Eq, PartialOrd, Ord, Hash)]
pub struct NodeAddress<S = String> {
    pub host: S,
    pub port: u16,
}

impl View for NodeAddress {
    type V = NodeAddress<Seq<char>>;

    open spec fn view(&self) -> Self::V {
        NodeAddress {
            host: self.host@,
            port: self.port,
        }
    }
}

impl Clone for NodeAddress {
    fn clone(&self) -> (clone: Self)
        ensures
            clone@ == self@,
    {
        self.copy()
    }
}

impl Key for NodeAddress {
    fn same(&self, other: &Self) -> (same: bool) {
        self.host.same(&other.host)
            && self.port == other.port
    }

    fn copy(&self) -> (copy: Self) {
        NodeAddress {
            host: self.host.copy(),
            port: self.port,
        }
    }
}

/// One boot of a node, with its name and address.
#[derive(Debug, PartialEq, Eq, PartialOrd, Ord, Hash)]
pub struct NodeKey<S = String> {
    pub node_id: S,
    pub address: NodeAddress<S>,
    pub incarnation: NodeIncarnation,
}

impl View for NodeKey {
    type V = NodeKey<Seq<char>>;

    open spec fn view(&self) -> Self::V {
        NodeKey {
            node_id: self.node_id@,
            address: self.address@,
            incarnation: self.incarnation,
        }
    }
}

impl Clone for NodeKey {
    fn clone(&self) -> (clone: Self)
        ensures
            clone@ == self@,
    {
        self.copy()
    }
}

impl Key for NodeKey {
    fn same(&self, other: &Self) -> (same: bool) {
        self.node_id.same(&other.node_id)
            && self.address.same(&other.address)
            && self.incarnation == other.incarnation
    }

    fn copy(&self) -> (copy: Self) {
        NodeKey {
            node_id: self.node_id.copy(),
            address: self.address.copy(),
            incarnation: self.incarnation,
        }
    }
}

pub type NodeModel = NodeKey<Seq<char>>;

/// Whether a node comes before another: by name, then by address, then by boot.
pub open spec fn node_less(left: NodeModel, right: NodeModel) -> bool {
    if left.node_id != right.node_id {
        text_less(left.node_id, right.node_id)
    } else if left.address.host != right.address.host {
        text_less(left.address.host, right.address.host)
    } else if left.address.port != right.address.port {
        left.address.port < right.address.port
    } else {
        left.incarnation.0 < right.incarnation.0
    }
}

pub fn compare_nodes(left: &NodeKey, right: &NodeKey) -> (order: Order)
    ensures
        match order {
            Order::Less => node_less(left@, right@),
            Order::Equal => left@ == right@,
            Order::Greater => node_less(right@, left@),
        },
{
    proof {
        crate::order::lemma_text_irreflexive(left@.node_id);
        crate::order::lemma_text_irreflexive(left@.address.host);
    }
    match compare_text(&left.node_id, &right.node_id) {
        Order::Less => {
            return Order::Less;
        },
        Order::Greater => {
            return Order::Greater;
        },
        Order::Equal => {},
    }
    match compare_text(&left.address.host, &right.address.host) {
        Order::Less => {
            return Order::Less;
        },
        Order::Greater => {
            return Order::Greater;
        },
        Order::Equal => {},
    }
    if left.address.port < right.address.port {
        Order::Less
    } else if left.address.port > right.address.port {
        Order::Greater
    } else if left.incarnation.0 < right.incarnation.0 {
        Order::Less
    } else if left.incarnation.0 > right.incarnation.0 {
        Order::Greater
    } else {
        Order::Equal
    }
}

/// The revision of a domain under a term.
#[derive(Debug, PartialEq, Eq)]
pub struct PlacementVersion<S = String> {
    pub domain: S,
    pub term: CoordinatorTerm,
    pub revision: Revision,
}

impl View for PlacementVersion {
    type V = PlacementVersion<Seq<char>>;

    open spec fn view(&self) -> Self::V {
        PlacementVersion {
            domain: self.domain@,
            term: self.term,
            revision: self.revision,
        }
    }
}

impl Clone for PlacementVersion {
    fn clone(&self) -> (clone: Self)
        ensures
            clone@ == self@,
    {
        self.copy()
    }
}

impl Key for PlacementVersion {
    fn same(&self, other: &Self) -> (same: bool) {
        self.domain.same(&other.domain)
            && self.term == other.term
            && self.revision == other.revision
    }

    fn copy(&self) -> (copy: Self) {
        PlacementVersion {
            domain: self.domain.copy(),
            term: self.term,
            revision: self.revision,
        }
    }
}

pub type VersionModel = PlacementVersion<Seq<char>>;

/// Whether a version is later than another: by domain, then by term, then by revision.
pub open spec fn version_later(left: VersionModel, right: VersionModel) -> bool {
    if left.domain != right.domain {
        text_less(right.domain, left.domain)
    } else if left.term != right.term {
        left.term.0 > right.term.0
    } else {
        left.revision.0 > right.revision.0
    }
}

impl PlacementVersion<Seq<char>> {
    /// Whether whoever has applied this version has applied the other one of its domain.
    pub open spec fn covers(self, other: VersionModel) -> bool {
        self.domain == other.domain && (self.term.0 > other.term.0 || (self.term == other.term
            && self.revision.0 >= other.revision.0))
    }

    /// The version of the next revision; none once revisions are exhausted.
    pub open spec fn spec_next(self) -> Option<VersionModel> {
        match self.revision.spec_next() {
            Some(revision) => Some(PlacementVersion { revision, ..self }),
            None => None,
        }
    }
}

impl PlacementVersion {
    pub fn is_later_than(&self, other: &PlacementVersion) -> (later: bool)
        ensures
            later == version_later(self@, other@),
    {
        match compare_text(&self.domain, &other.domain) {
            Order::Less => {
                proof {
                    if text_less(other@.domain, self@.domain) {
                        crate::order::lemma_text_transitive(
                            self@.domain,
                            other@.domain,
                            self@.domain,
                        );
                    }
                    crate::order::lemma_text_irreflexive(self@.domain);
                }
                false
            },
            Order::Greater => {
                proof {
                    crate::order::lemma_text_irreflexive(self@.domain);
                }
                true
            },
            Order::Equal => if self.term != other.term {
                self.term.0 > other.term.0
            } else {
                self.revision.0 > other.revision.0
            },
        }
    }

    pub fn satisfies(&self, other: &PlacementVersion) -> (satisfied: bool)
        ensures
            satisfied == self@.covers(other@),
    {
        self.domain.same(&other.domain) && (self.term.0 > other.term.0 || (self.term == other.term
            && self.revision.0 >= other.revision.0))
    }

    pub fn next_revision(&self) -> (next: Option<PlacementVersion>)
        ensures
            option_view(next) == self@.spec_next(),
    {
        match self.revision.next() {
            Some(revision) => Some(
                PlacementVersion { domain: self.domain.copy(), term: self.term, revision },
            ),
            None => None,
        }
    }
}

/// The slot of a shard or of a singleton.
#[derive(Debug, PartialEq, Eq)]
pub enum PlacementSlotKey<S = String> {
    Shard { domain: S, entity_type: S, shard_id: ShardId },
    Singleton { domain: S, kind: S },
}

pub type SlotKeyModel = PlacementSlotKey<Seq<char>>;

impl View for PlacementSlotKey {
    type V = SlotKeyModel;

    open spec fn view(&self) -> SlotKeyModel {
        match self {
            PlacementSlotKey::Shard { domain, entity_type, shard_id } => PlacementSlotKey::Shard {
                domain: domain@,
                entity_type: entity_type@,
                shard_id: *shard_id,
            },
            PlacementSlotKey::Singleton { domain, kind } => PlacementSlotKey::Singleton {
                domain: domain@,
                kind: kind@,
            },
        }
    }
}

impl Clone for PlacementSlotKey {
    fn clone(&self) -> (clone: Self)
        ensures
            clone@ == self@,
    {
        self.copy()
    }
}

impl Key for PlacementSlotKey {
    fn same(&self, other: &Self) -> (same: bool) {
        match (self, other) {
            (
                PlacementSlotKey::Shard { domain: d1, entity_type: e1, shard_id: s1 },
                PlacementSlotKey::Shard { domain: d2, entity_type: e2, shard_id: s2 },
            ) => d1.same(d2) && e1.same(e2) && *s1 == *s2,
            (
                PlacementSlotKey::Singleton { domain: d1, kind: k1 },
                PlacementSlotKey::Singleton { domain: d2, kind: k2 },
            ) => d1.same(d2) && k1.same(k2),
            _ => false,
        }
    }

    fn copy(&self) -> (copy: Self) {
        match self {
            PlacementSlotKey::Shard { domain, entity_type, shard_id } => PlacementSlotKey::Shard {
                domain: domain.copy(),
                entity_type: entity_type.copy(),
                shard_id: *shard_id,
            },
            PlacementSlotKey::Singleton { domain, kind } => PlacementSlotKey::Singleton {
                domain: domain.copy(),
                kind: kind.copy(),
            },
        }
    }
}

impl<S> PlacementSlotKey<S> {
    pub open spec fn spec_domain(self) -> S {
        match self {
            PlacementSlotKey::Shard { domain, .. } => domain,
            PlacementSlotKey::Singleton { domain, .. } => domain,
        }
    }
}

impl PlacementSlotKey {
    pub fn domain(&self) -> (domain: &String)
        ensures
            domain@ == self@.spec_domain(),
    {
        match self {
            PlacementSlotKey::Shard { domain, .. } => domain,
            PlacementSlotKey::Singleton { domain, .. } => domain,
        }
    }
}

/// Where the assignment of a slot stands.
#[derive(Debug, Clone, Copy, PartialEq, Eq, Structural)]
pub enum PlacementSlotState {
    Allocating,
    Running,
    BeginHandoff,
    Stopping,
    StopFailed,
    Fenced,
}

/// The durable assignment of a slot.
#[derive(Debug)]
pub struct PlacementSlot {
    pub key: PlacementSlotKey,
    pub config_fingerprint: ConfigFingerprint,
    pub owner: Option<NodeKey>,
    pub target: Option<NodeKey>,
    pub assignment_generation: AssignmentGeneration,
    pub version: PlacementVersion,
    pub state: PlacementSlotState,
    pub active_move: Option<u128>,
    pub barrier_sessions: SessionSet,
}

/// What the assignment of a slot states.
#[verifier::ext_equal]
pub struct SlotModel {
    pub key: SlotKeyModel,
    pub config_fingerprint: Seq<u8>,
    pub owner: Option<NodeModel>,
    pub target: Option<NodeModel>,
    pub assignment_generation: AssignmentGeneration,
    pub version: VersionModel,
    pub state: PlacementSlotState,
    pub active_move: Option<u128>,
    pub barrier_sessions: Set<NodeIncarnation>,
}

impl View for PlacementSlot {
    type V = SlotModel;

    open spec fn view(&self) -> SlotModel {
        SlotModel {
            key: self.key@,
            config_fingerprint: self.config_fingerprint@,
            owner: option_view(self.owner),
            target: option_view(self.target),
            assignment_generation: self.assignment_generation,
            version: self.version@,
            state: self.state,
            active_move: self.active_move,
            barrier_sessions: self.barrier_sessions@,
        }
    }
}

impl PlacementSlot {
    pub fn copy_slot(&self) -> (copy: Self)
        ensures
            copy@ == self@,
    {
        PlacementSlot {
            key: self.key.copy(),
            config_fingerprint: self.config_fingerprint.copy(),
            owner: copy_option(&self.owner),
            target: copy_option(&self.target),
            assignment_generation: self.assignment_generation,
            version: self.version.copy(),
            state: self.state,
            active_move: self.active_move,
            barrier_sessions: self.barrier_sessions.copy(),
        }
    }
}

impl Clone for PlacementSlot {
    fn clone(&self) -> (clone: Self)
        ensures
            clone@ == self@,
    {
        self.copy_slot()
    }
}

/// A claim on a slot that a leader grants to its owner.
#[derive(Debug, PartialEq, Eq)]
pub struct ClaimGrant<S = String> {
    pub domain: S,
    pub slot: PlacementSlotKey<S>,
    pub owner: NodeKey<S>,
    pub coordinator_term: CoordinatorTerm,
    pub assignment_generation: AssignmentGeneration,
    pub grant_sequence: GrantSequence,
    pub ttl: TimeSpan,
}

impl View for ClaimGrant {
    type V = ClaimGrant<Seq<char>>;

    open spec fn view(&self) -> Self::V {
        ClaimGrant {
            domain: self.domain@,
            slot: self.slot@,
            owner: self.owner@,
            coordinator_term: self.coordinator_term,
            assignment_generation: self.assignment_generation,
            grant_sequence: self.grant_sequence,
            ttl: self.ttl,
        }
    }
}

impl Clone for ClaimGrant {
    fn clone(&self) -> (clone: Self)
        ensures
            clone@ == self@,
    {
        self.copy()
    }
}

impl Key for ClaimGrant {
    fn same(&self, other: &Self) -> (same: bool) {
        self.domain.same(&other.domain)
            && self.slot.same(&other.slot)
            && self.owner.same(&other.owner)
            && self.coordinator_term == other.coordinator_term
            && self.assignment_generation == other.assignment_generation
            && self.grant_sequence == other.grant_sequence
            && self.ttl == other.ttl
    }

    fn copy(&self) -> (copy: Self) {
        ClaimGrant {
            domain: self.domain.copy(),
            slot: self.slot.copy(),
            owner: self.owner.copy(),
            coordinator_term: self.coordinator_term,
            assignment_generation: self.assignment_generation,
            grant_sequence: self.grant_sequence,
            ttl: self.ttl,
        }
    }
}

pub type ClaimModel = ClaimGrant<Seq<char>>;

/// Versions are counted up one by one within a term: the next one is later than this, covers it,
/// and nothing of the same domain and term lies between them.
pub proof fn law_versions_count_up(version: VersionModel, other: VersionModel)
    ensures
        version.spec_next() is None <==> version.revision.0 == u64::MAX,
        version.spec_next() matches Some(next) ==> {
            &&& next.domain == version.domain
            &&& next.term == version.term
            &&& next.revision.0 == version.revision.0 + 1
            &&& version_later(next, version)
            &&& next.covers(version)
            &&& !version.covers(next)
        },
{
}

/// Of two versions of one domain the later one is that of the higher term, or within a term that of
/// the higher revision; whoever has applied a version has applied those of its domain that are not
/// later, and none of another domain.
pub proof fn law_versions_of_a_domain_are_ordered(left: VersionModel, right: VersionModel)
    ensures
        left.domain == right.domain ==> (version_later(left, right) <==> left.term.0
            > right.term.0 || (left.term.0 == right.term.0 && left.revision.0 > right.revision.0)),
        left.covers(right) <==> left.domain == right.domain && !version_later(right, left),
        left.domain != right.domain ==> (version_later(left, right) <==> text_less(
            right.domain,
            left.domain,
        )),
{
}

/// Generations, terms, revisions and sequences are counted up one by one, until none is left.
pub proof fn law_counters_count_up(
    generation: AssignmentGeneration,
    term: CoordinatorTerm,
    record: PlanRevision,
    revision: Revision,
    sequence: GrantSequence,
)
    ensures
        generation.spec_next() is None <==> generation.0 == u64::MAX,
        generation.spec_next() matches Some(next) ==> next.0 == generation.0 + 1,
        term.spec_next() is None <==> term.0 == u64::MAX,
        term.spec_next() matches Some(next) ==> next.0 == term.0 + 1,
        record.spec_next() is None <==> record.0 == u64::MAX,
        record.spec_next() matches Some(next) ==> next.0 == record.0 + 1,
        revision.spec_next() is None <==> revision.0 == u64::MAX,
        revision.spec_next() matches Some(next) ==> next.0 == revision.0 + 1,
        sequence.spec_next() is None <==> sequence.0 == u64::MAX,
        sequence.spec_next() matches Some(next) ==> next.0 == sequence.0 + 1,
{
}

} // verus!
