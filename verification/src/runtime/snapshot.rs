//! The records of a snapshot: which a member is sent, and under which keys.
use vstd::prelude::*;
use vstd::string::StringExecFns;

use crate::keymap::seq_view;
use crate::plan::lemma_filter_step;
use crate::render::{decimal_text, push_decimal, push_text};
use crate::runtime::members::{HelloModel, NodeHello};
use crate::types::{NodeKey, PlacementSlot, PlacementSlotKey, SlotKeyModel, SlotModel};

verus! {

/// The key of the record of a member.
pub fn member_record_key(node: &NodeKey) -> (key: String)
    ensures
        key@ == "member/"@ + node@.node_id,
{
    let mut key = String::from_str("member/");
    push_text(&mut key, node.node_id.as_str());
    key
}

/// The key of the record of a slot, within its domain.
pub open spec fn slot_path(key: SlotKeyModel) -> Seq<char> {
    match key {
        SlotKeyModel::Shard { entity_type, shard_id, .. } => "shard/"@ + entity_type + "/"@
            + decimal_text(shard_id.0 as nat),
        SlotKeyModel::Singleton { kind, .. } => "singleton/"@ + kind,
    }
}

/// The domain of a slot.
pub open spec fn slot_domain(key: SlotKeyModel) -> Seq<char> {
    match key {
        SlotKeyModel::Shard { domain, .. } => domain,
        SlotKeyModel::Singleton { domain, .. } => domain,
    }
}

fn push_slot_path(out: &mut String, key: &PlacementSlotKey)
    ensures
        final(out)@ == old(out)@ + slot_path(key@),
{
    match key {
        PlacementSlotKey::Shard { entity_type, shard_id, .. } => {
            push_text(out, "shard/");
            push_text(out, entity_type.as_str());
            push_text(out, "/");
            push_decimal(out, shard_id.get() as u64);
        },
        PlacementSlotKey::Singleton { kind, .. } => {
            push_text(out, "singleton/");
            push_text(out, kind.as_str());
        },
    }
    assert(out@ =~= old(out)@ + slot_path(key@));
}

/// The key of the record of a slot, in a cluster of one domain.
pub fn cluster_slot_record_key(key: &PlacementSlotKey) -> (path: String)
    ensures
        path@ == slot_path(key@),
{
    let mut path = String::from_str("");
    proof {
        reveal_strlit("");
    }
    push_slot_path(&mut path, key);
    assert(path@ =~= slot_path(key@));
    path
}

/// The key of the record of a slot.
pub fn slot_record_key(key: &PlacementSlotKey) -> (path: String)
    ensures
        path@ == "domain/"@ + slot_domain(key@) + "/"@ + slot_path(key@),
{
    let mut path = String::from_str("domain/");
    match key {
        PlacementSlotKey::Shard { domain, .. } => push_text(&mut path, domain.as_str()),
        PlacementSlotKey::Singleton { domain, .. } => push_text(&mut path, domain.as_str()),
    }
    push_text(&mut path, "/");
    push_slot_path(&mut path, key);
    path
}

impl HelloModel {
    /// Whether a node is to see a slot: those of the entities it hosts or reaches, and of the
    /// singletons it may host or uses.
    pub open spec fn sees(self, key: SlotKeyModel) -> bool {
        match key {
            SlotKeyModel::Shard { entity_type, .. } => self.subscribes(entity_type),
            SlotKeyModel::Singleton { kind, .. } => self.concerns(kind),
        }
    }
}

impl NodeHello {
    pub fn sees(&self, key: &PlacementSlotKey) -> (sees: bool)
        ensures
            sees == self@.sees(key@),
    {
        match key {
            PlacementSlotKey::Shard { entity_type, .. } => self.subscribes_to(entity_type),
            PlacementSlotKey::Singleton { kind, .. } => self.concerns(kind),
        }
    }
}

/// The slots whose records a node is sent.
pub fn snapshot_slots(hello: &NodeHello, slots: &Vec<PlacementSlot>) -> (shown: Vec<PlacementSlot>)
    ensures
        seq_view(shown@) == seq_view(slots@).filter(|slot: SlotModel| hello@.sees(slot.key)),
{
    let ghost list = seq_view(slots@);
    let ghost p = |slot: SlotModel| hello@.sees(slot.key);
    let mut shown: Vec<PlacementSlot> = Vec::new();
    let mut i: usize = 0;
    assert(list.subrange(0, 0).filter(p) =~= Seq::<SlotModel>::empty()) by {
        reveal(Seq::filter);
    }
    while i < slots.len()
        invariant
            i <= slots.len(),
            list == seq_view(slots@),
            p == |slot: SlotModel| hello@.sees(slot.key),
            seq_view(shown@) == list.subrange(0, i as int).filter(p),
        decreases slots.len() - i,
    {
        let ghost before = seq_view(shown@);
        proof {
            lemma_filter_step(list, p, i as int);
            assert(list[i as int] == slots@[i as int]@);
        }
        if hello.sees(&slots[i].key) {
            shown.push(slots[i].copy_slot());
            assert(seq_view(shown@) =~= before.push(list[i as int]));
        }
        i = i + 1;
    }
    assert(list.subrange(0, i as int) =~= list);
    shown
}

} // verus!
