//! The orders of nodes, sessions, slots and policies.
use vstd::prelude::*;

use crate::keymap::Key;
use crate::order::{
    compare_text, lemma_text_irreflexive, lemma_text_total, lemma_text_transitive, text_less, Order,
};
use crate::sorted::Ranked;
use crate::types::{
    compare_nodes, node_less, NodeIncarnation, NodeKey, NodeModel, PlacementSlotKey, ShardId,
    SlotKeyModel,
};

verus! {

impl View for NodeIncarnation {
    type V = NodeIncarnation;

    open spec fn view(&self) -> NodeIncarnation {
        *self
    }
}

impl Key for NodeIncarnation {
    fn same(&self, other: &Self) -> (same: bool) {
        *self == *other
    }

    fn copy(&self) -> (copy: Self) {
        *self
    }
}

impl Ranked for NodeIncarnation {
    open spec fn less(left: NodeIncarnation, right: NodeIncarnation) -> bool {
        left.0 < right.0
    }

    proof fn lemma_irreflexive(key: NodeIncarnation) {
    }

    proof fn lemma_transitive(a: NodeIncarnation, b: NodeIncarnation, c: NodeIncarnation) {
    }

    proof fn lemma_total(a: NodeIncarnation, b: NodeIncarnation) {
    }

    fn compare(&self, other: &Self) -> (order: Order) {
        let order = if self.0 < other.0 {
            Order::Less
        } else if self.0 == other.0 {
            Order::Equal
        } else {
            Order::Greater
        };
        assert(order is Less ==> Self::less(self@, other@));
        assert(order is Greater ==> Self::less(other@, self@));
        order
    }
}

impl Ranked for ShardId {
    open spec fn less(left: ShardId, right: ShardId) -> bool {
        left.0 < right.0
    }

    proof fn lemma_irreflexive(key: ShardId) {
    }

    proof fn lemma_transitive(a: ShardId, b: ShardId, c: ShardId) {
    }

    proof fn lemma_total(a: ShardId, b: ShardId) {
    }

    fn compare(&self, other: &Self) -> (order: Order) {
        let order = if self.0 < other.0 {
            Order::Less
        } else if self.0 == other.0 {
            Order::Equal
        } else {
            Order::Greater
        };
        assert(order is Less ==> Self::less(self@, other@));
        assert(order is Greater ==> Self::less(other@, self@));
        order
    }
}

impl Ranked for NodeKey {
    open spec fn less(left: NodeModel, right: NodeModel) -> bool {
        node_less(left, right)
    }

    proof fn lemma_irreflexive(key: NodeModel) {
    }

    proof fn lemma_transitive(a: NodeModel, b: NodeModel, c: NodeModel) {
        lemma_text_irreflexive(a.node_id);
        lemma_text_irreflexive(a.address.host);
        if a.node_id != b.node_id && b.node_id != c.node_id {
            lemma_text_transitive(a.node_id, b.node_id, c.node_id);
        }
        if a.address.host != b.address.host && b.address.host != c.address.host && text_less(
            a.address.host,
            b.address.host,
        ) && text_less(b.address.host, c.address.host) {
            lemma_text_transitive(a.address.host, b.address.host, c.address.host);
        }
    }

    proof fn lemma_total(a: NodeModel, b: NodeModel) {
        lemma_text_total(a.node_id, b.node_id);
        lemma_text_total(a.address.host, b.address.host);
    }

    fn compare(&self, other: &Self) -> (order: Order) {
        let order = compare_nodes(self, other);
        assert(order is Less ==> Self::less(self@, other@));
        assert(order is Greater ==> Self::less(other@, self@));
        order
    }
}

/// Whether a slot comes before another: shards before singletons, then by their fields.
pub open spec fn slot_less(left: SlotKeyModel, right: SlotKeyModel) -> bool {
    match (left, right) {
        (
            SlotKeyModel::Shard { domain: d1, entity_type: e1, shard_id: s1 },
            SlotKeyModel::Shard { domain: d2, entity_type: e2, shard_id: s2 },
        ) => if d1 != d2 {
            text_less(d1, d2)
        } else if e1 != e2 {
            text_less(e1, e2)
        } else {
            s1.0 < s2.0
        },
        (SlotKeyModel::Shard { .. }, SlotKeyModel::Singleton { .. }) => true,
        (SlotKeyModel::Singleton { .. }, SlotKeyModel::Shard { .. }) => false,
        (
            SlotKeyModel::Singleton { domain: d1, kind: k1 },
            SlotKeyModel::Singleton { domain: d2, kind: k2 },
        ) => if d1 != d2 {
            text_less(d1, d2)
        } else {
            text_less(k1, k2)
        },
    }
}

/// The two texts of a slot.
spec fn slot_texts(key: SlotKeyModel) -> (Seq<char>, Seq<char>) {
    match key {
        SlotKeyModel::Shard { domain, entity_type, .. } => (domain, entity_type),
        SlotKeyModel::Singleton { domain, kind } => (domain, kind),
    }
}

impl Ranked for PlacementSlotKey {
    open spec fn less(left: SlotKeyModel, right: SlotKeyModel) -> bool {
        slot_less(left, right)
    }

    proof fn lemma_irreflexive(key: SlotKeyModel) {
        lemma_text_irreflexive(slot_texts(key).1);
    }

    proof fn lemma_transitive(a: SlotKeyModel, b: SlotKeyModel, c: SlotKeyModel) {
        let (a1, a2) = slot_texts(a);
        let (b1, b2) = slot_texts(b);
        let (c1, c2) = slot_texts(c);
        lemma_text_irreflexive(a1);
        lemma_text_irreflexive(a2);
        if text_less(a1, b1) && text_less(b1, c1) {
            lemma_text_transitive(a1, b1, c1);
        }
        if text_less(a2, b2) && text_less(b2, c2) {
            lemma_text_transitive(a2, b2, c2);
        }
    }

    proof fn lemma_total(a: SlotKeyModel, b: SlotKeyModel) {
        lemma_text_total(slot_texts(a).0, slot_texts(b).0);
        lemma_text_total(slot_texts(a).1, slot_texts(b).1);
    }

    fn compare(&self, other: &Self) -> (order: Order) {
        proof {
            lemma_text_irreflexive(slot_texts(self@).0);
            lemma_text_irreflexive(slot_texts(self@).1);
        }
        let order = match (self, other) {
            (
                PlacementSlotKey::Shard { domain: d1, entity_type: e1, shard_id: s1 },
                PlacementSlotKey::Shard { domain: d2, entity_type: e2, shard_id: s2 },
            ) => match compare_text(d1, d2) {
                Order::Less => Order::Less,
                Order::Greater => Order::Greater,
                Order::Equal => match compare_text(e1, e2) {
                    Order::Less => Order::Less,
                    Order::Greater => Order::Greater,
                    Order::Equal => s1.compare(s2),
                },
            },
            (PlacementSlotKey::Shard { .. }, PlacementSlotKey::Singleton { .. }) => Order::Less,
            (PlacementSlotKey::Singleton { .. }, PlacementSlotKey::Shard { .. }) => Order::Greater,
            (
                PlacementSlotKey::Singleton { domain: d1, kind: k1 },
                PlacementSlotKey::Singleton { domain: d2, kind: k2 },
            ) => match compare_text(d1, d2) {
                Order::Less => Order::Less,
                Order::Greater => Order::Greater,
                Order::Equal => compare_text(k1, k2),
            },
        };
        assert(order is Less ==> Self::less(self@, other@));
        assert(order is Greater ==> Self::less(other@, self@));
        order
    }
}

/// The identity and version of an allocation policy.
#[derive(Debug, PartialEq, Eq)]
pub struct PolicyKey<S = String> {
    pub policy_id: S,
    pub policy_version: u32,
}

pub type PolicyModel = PolicyKey<Seq<char>>;

impl View for PolicyKey {
    type V = PolicyModel;

    open spec fn view(&self) -> PolicyModel {
        PolicyKey { policy_id: self.policy_id@, policy_version: self.policy_version }
    }
}

impl Key for PolicyKey {
    fn same(&self, other: &Self) -> (same: bool) {
        self.policy_id.same(&other.policy_id) && self.policy_version == other.policy_version
    }

    fn copy(&self) -> (copy: Self) {
        PolicyKey { policy_id: self.policy_id.copy(), policy_version: self.policy_version }
    }
}

impl Ranked for PolicyKey {
    open spec fn less(left: PolicyModel, right: PolicyModel) -> bool {
        if left.policy_id != right.policy_id {
            text_less(left.policy_id, right.policy_id)
        } else {
            left.policy_version < right.policy_version
        }
    }

    proof fn lemma_irreflexive(key: PolicyModel) {
    }

    proof fn lemma_transitive(a: PolicyModel, b: PolicyModel, c: PolicyModel) {
        lemma_text_irreflexive(a.policy_id);
        if text_less(a.policy_id, b.policy_id) && text_less(b.policy_id, c.policy_id) {
            lemma_text_transitive(a.policy_id, b.policy_id, c.policy_id);
        }
    }

    proof fn lemma_total(a: PolicyModel, b: PolicyModel) {
        lemma_text_total(a.policy_id, b.policy_id);
    }

    fn compare(&self, other: &Self) -> (order: Order) {
        proof {
            lemma_text_irreflexive(self@.policy_id);
        }
        let order = match compare_text(&self.policy_id, &other.policy_id) {
            Order::Less => Order::Less,
            Order::Greater => Order::Greater,
            Order::Equal => if self.policy_version < other.policy_version {
                Order::Less
            } else if self.policy_version == other.policy_version {
                Order::Equal
            } else {
                Order::Greater
            },
        };
        assert(order is Less ==> Self::less(self@, other@));
        assert(order is Greater ==> Self::less(other@, self@));
        order
    }
}

/// An allocation strategy: the policy that it stands for, and the number by which it is found
/// among the strategies of the process.
#[derive(Debug, PartialEq, Eq)]
pub struct AllocationStrategy<S = String> {
    pub policy: PolicyKey<S>,
    pub handle: u64,
}

pub type StrategyModel = AllocationStrategy<Seq<char>>;

impl View for AllocationStrategy {
    type V = StrategyModel;

    open spec fn view(&self) -> StrategyModel {
        AllocationStrategy { policy: self.policy@, handle: self.handle }
    }
}

/// A shard of a node's session.
#[derive(Debug, PartialEq, Eq)]
pub struct SessionShard<S = String> {
    pub session: NodeIncarnation,
    pub entity_type: S,
    pub shard_id: ShardId,
}

pub type SessionShardModel = SessionShard<Seq<char>>;

impl View for SessionShard {
    type V = SessionShardModel;

    open spec fn view(&self) -> SessionShardModel {
        SessionShard {
            session: self.session,
            entity_type: self.entity_type@,
            shard_id: self.shard_id,
        }
    }
}

impl Key for SessionShard {
    fn same(&self, other: &Self) -> (same: bool) {
        self.session == other.session && self.entity_type.same(&other.entity_type) && self.shard_id
            == other.shard_id
    }

    fn copy(&self) -> (copy: Self) {
        SessionShard {
            session: self.session,
            entity_type: self.entity_type.copy(),
            shard_id: self.shard_id,
        }
    }
}

impl Ranked for SessionShard {
    open spec fn less(left: SessionShardModel, right: SessionShardModel) -> bool {
        if left.session != right.session {
            left.session.0 < right.session.0
        } else if left.entity_type != right.entity_type {
            text_less(left.entity_type, right.entity_type)
        } else {
            left.shard_id.0 < right.shard_id.0
        }
    }

    proof fn lemma_irreflexive(key: SessionShardModel) {
    }

    proof fn lemma_transitive(a: SessionShardModel, b: SessionShardModel, c: SessionShardModel) {
        lemma_text_irreflexive(a.entity_type);
        if text_less(a.entity_type, b.entity_type) && text_less(b.entity_type, c.entity_type) {
            lemma_text_transitive(a.entity_type, b.entity_type, c.entity_type);
        }
    }

    proof fn lemma_total(a: SessionShardModel, b: SessionShardModel) {
        lemma_text_total(a.entity_type, b.entity_type);
    }

    fn compare(&self, other: &Self) -> (order: Order) {
        proof {
            lemma_text_irreflexive(self@.entity_type);
        }
        let order = match self.session.compare(&other.session) {
            Order::Less => Order::Less,
            Order::Greater => Order::Greater,
            Order::Equal => match compare_text(&self.entity_type, &other.entity_type) {
                Order::Less => Order::Less,
                Order::Greater => Order::Greater,
                Order::Equal => self.shard_id.compare(&other.shard_id),
            },
        };
        assert(order is Less ==> Self::less(self@, other@));
        assert(order is Greater ==> Self::less(other@, self@));
        order
    }
}

/// Shards come before singletons; shards are ordered by domain, then by entity type, then by number,
/// and singletons by domain, then by kind.
pub proof fn law_slots_are_ordered(left: SlotKeyModel, right: SlotKeyModel)
    ensures
        left is Shard && right is Singleton ==> slot_less(left, right) && !slot_less(right, left),
        left is Shard && right is Shard ==> (slot_less(left, right) <==> {
            ||| text_less(left->Shard_domain, right->Shard_domain)
            ||| left->Shard_domain == right->Shard_domain && text_less(
                left->entity_type,
                right->entity_type,
            )
            ||| left->Shard_domain == right->Shard_domain && left->entity_type
                == right->entity_type && left->shard_id.0 < right->shard_id.0
        }),
        left is Singleton && right is Singleton ==> (slot_less(left, right) <==> {
            ||| text_less(left->Singleton_domain, right->Singleton_domain)
            ||| left->Singleton_domain == right->Singleton_domain && text_less(
                left->kind,
                right->kind,
            )
        }),
        PlacementSlotKey::less(left, right) <==> slot_less(left, right),
{
    if left is Shard && right is Shard {
        lemma_text_irreflexive(left->Shard_domain);
        lemma_text_irreflexive(left->entity_type);
    }
    if left is Singleton && right is Singleton {
        lemma_text_irreflexive(left->Singleton_domain);
    }
}

/// Numbers are ordered by size, nodes as nodes are, and policies by name and then by version.
pub proof fn law_keys_are_ordered(
    session: NodeIncarnation,
    later: NodeIncarnation,
    shard: ShardId,
    next: ShardId,
    node: NodeModel,
    other: NodeModel,
    policy: PolicyModel,
    newer: PolicyModel,
)
    ensures
        NodeIncarnation::less(session, later) <==> session.0 < later.0,
        ShardId::less(shard, next) <==> shard.0 < next.0,
        NodeKey::less(node, other) <==> node_less(node, other),
        PolicyKey::less(policy, newer) <==> text_less(policy.policy_id, newer.policy_id) || (
        policy.policy_id == newer.policy_id && policy.policy_version < newer.policy_version),
{
    lemma_text_irreflexive(policy.policy_id);
}

} // verus!
