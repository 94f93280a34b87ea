//! The values that the rest is built on: orders, sets, spans, texts.
use lattice_placement::keymap::KeyMap;
use lattice_placement::leases::LeaseSet;
use lattice_placement::order::{compare_bytes, compare_text, sort_and_dedup, Order};
use lattice_placement::records::LeaseId;
use lattice_placement::render::{push_decimal, push_hex, push_text};
use lattice_placement::runtime::admin::{
    automatic_fingerprint, cancel_fingerprint, force_remove_fingerprint, relocation_fingerprint,
    ForceRemoveRequest, ManualRelocationRequest,
};
use lattice_placement::selection::split_marked;
use lattice_placement::sessions::SessionSet;
use lattice_placement::sorted::{SortedMap, SortedSet};
use lattice_placement::time::{MonotonicTime, TimeSpan};
use lattice_placement::types::{AssignmentGeneration, NodeIncarnation, ShardId};

fn list(items: &[&str]) -> Vec<String> {
    items.iter().map(|item| item.to_string()).collect()
}

#[test]
fn texts_are_ordered_by_their_bytes() {
    let compare = |left: &str, right: &str| compare_text(&left.to_string(), &right.to_string());
    assert_eq!(compare("a", "b"), Order::Less);
    assert_eq!(compare("b", "a"), Order::Greater);
    assert_eq!(compare("a", "a"), Order::Equal);
    assert_eq!(compare("a", "ab"), Order::Less);
    assert_eq!(compare("Z", "a"), Order::Less);
    assert_eq!(compare("z", "\u{e9}"), Order::Less);
    assert_eq!(compare_bytes(&[1, 255], &[2]), Order::Less);
}

#[test]
fn sorting_gives_one_list_for_one_set() {
    let sorted = list(&["a", "b", "c"]);
    assert_eq!(sort_and_dedup(list(&["c", "a", "b"])), sorted);
    assert_eq!(sort_and_dedup(list(&["b", "c", "a", "b", "a"])), sorted);
    assert!(sort_and_dedup(Vec::new()).is_empty());
}

#[test]
fn numbers_are_written_as_they_are_read() {
    let mut text = String::new();
    push_decimal(&mut text, 0);
    push_text(&mut text, "/");
    push_decimal(&mut text, u64::MAX);
    push_text(&mut text, "/");
    push_hex(&mut text, 0xbeef, 32);
    assert_eq!(text, format!("0/{}/{:032x}", u64::MAX, 0xbeef));
}

#[test]
fn operations_have_their_fingerprints() {
    assert_eq!(automatic_fingerprint(&None, true), "automatic:*:true");
    assert_eq!(
        automatic_fingerprint(&Some("entity".to_string()), false),
        "automatic:entity:false"
    );
    let relocation = ManualRelocationRequest {
        operation_id: "op".to_string(),
        entity_type: "entity".to_string(),
        shard_id: ShardId::new(12),
        expected_generation: AssignmentGeneration::new(3).unwrap(),
        target_node_id: "target".to_string(),
    };
    assert_eq!(relocation_fingerprint(&relocation), "relocate:entity:12:3:target");
    let removal = ForceRemoveRequest {
        operation_id: "op".to_string(),
        node_id: "node".to_string(),
        expected_incarnation: NodeIncarnation::new(0xab).unwrap(),
    };
    assert_eq!(
        force_remove_fingerprint(&removal),
        format!("force-remove:node:{:032x}", 0xab)
    );
    assert_eq!(cancel_fingerprint(7, ShardId::new(4)), format!("cancel:{:032x}:4", 7));
}

#[test]
fn sorted_collections_keep_their_order() {
    let mut set = SortedSet::new();
    for item in ["c", "a", "b"] {
        assert!(set.insert(item.to_string()));
    }
    assert!(!set.insert("a".to_string()));
    assert_eq!(set.to_vec(), list(&["a", "b", "c"]));
    assert!(set.remove(&"b".to_string()));
    assert!(!set.contains(&"b".to_string()));
    let mut map: SortedMap<String, u64> = SortedMap::new();
    map.insert("b".to_string(), 2);
    map.insert("a".to_string(), 1);
    map.insert("b".to_string(), 3);
    assert_eq!(map.keys(), list(&["a", "b"]));
    assert_eq!(map.get(&"b".to_string()), Some(&3));
    assert_eq!(map.take(&"a".to_string()), Some(1));
    assert_eq!(map.len(), 1);
}

#[test]
fn sets_hold_what_is_in_them() {
    let session = |id: u128| NodeIncarnation::new(id).unwrap();
    let mut sessions = SessionSet::new();
    assert!(sessions.insert(session(2)));
    assert!(sessions.insert(session(1)));
    assert!(!sessions.insert(session(2)));
    let mut other = SessionSet::new();
    other.insert(session(1));
    other.insert(session(2));
    assert!(sessions.same(&other));
    assert!(sessions.remove(session(1)));
    assert!(!sessions.same(&other));
    let mut leases = LeaseSet::new();
    leases.insert(LeaseId(1));
    leases.insert(LeaseId(2));
    let mut kept = LeaseSet::new();
    kept.insert(LeaseId(2));
    kept.insert(LeaseId(3));
    leases.retain_in(&kept);
    assert!(!leases.contains(LeaseId(1)) && leases.contains(LeaseId(2)));
    assert_eq!(leases.len(), 1);
    let mut map: KeyMap<String, u64> = KeyMap::new();
    map.insert("a".to_string(), 1);
    map.insert("a".to_string(), 2);
    assert_eq!(map.get(&"a".to_string()), Some(&2));
    assert_eq!(map.len(), 1);
}

#[test]
fn marked_items_are_parted_in_order() {
    let parts = split_marked(vec![1, 2, 3, 4], &vec![true, false, true, false]);
    let mut all = vec![parts.0, parts.1];
    all.sort();
    assert_eq!(all, vec![vec![1, 3], vec![2, 4]]);
}

#[test]
fn spans_are_cut_at_their_bounds() {
    let second = TimeSpan::from_secs(1);
    assert_eq!(second.as_nanos(), 1_000_000_000);
    assert_eq!(second.as_millis(), 1_000);
    assert_eq!(second.divided_by(4), TimeSpan::from_millis(250));
    assert_eq!(TimeSpan::from_millis(1).saturating_sub(&second), TimeSpan::zero());
    assert_eq!(second.shorter(TimeSpan::from_millis(2)), TimeSpan::from_millis(2));
    let longest = TimeSpan::from_nanos_saturating(u128::MAX);
    assert_eq!(longest.saturating_mul(2), longest);
    let time = MonotonicTime::from_millis(u64::MAX - 1);
    assert_eq!(time.checked_add_millis(1), Some(MonotonicTime::from_millis(u64::MAX)));
    assert_eq!(time.checked_add_millis(2), None);
}
