//! A finite map for keys that are compared by what they denote.
use vstd::prelude::*;

use crate::text::{copy_bytes, same_bytes};

verus! {

/// A value that can be compared with another of its type by view, and copied.
pub trait Key: View + Sized {
    fn same(&self, other: &Self) -> (same: bool)
        ensures
            same == (self@ == other@),
    ;

    fn copy(&self) -> (copy: Self)
        ensures
            copy@ == self@,
    ;
}

impl Key for String {
    fn same(&self, other: &Self) -> (same: bool) {
        *self == *other
    }

    fn copy(&self) -> (copy: Self) {
        self.clone()
    }
}

impl Key for Vec<u8> {
    fn same(&self, other: &Self) -> (same: bool) {
        same_bytes(self, other)
    }

    fn copy(&self) -> (copy: Self) {
        copy_bytes(self)
    }
}

/// What an optional value denotes.
pub open spec fn option_view<T: View>(value: Option<T>) -> Option<T::V> {
    match value {
        Some(inner) => Some(inner@),
        None => None,
    }
}

/// What the values of a sequence denote.
pub open spec fn seq_view<T: View>(values: Seq<T>) -> Seq<T::V> {
    values.map_values(|value: T| value@)
}

pub fn same_option<T: Key>(left: &Option<T>, right: &Option<T>) -> (same: bool)
    ensures
        same == (option_view(*left) == option_view(*right)),
{
    match (left, right) {
        (Some(a), Some(b)) => a.same(b),
        (None, None) => true,
        _ => false,
    }
}

pub fn copy_option<T: Key>(value: &Option<T>) -> (copy: Option<T>)
    ensures
        option_view(copy) == option_view(*value),
{
    match value {
        Some(inner) => Some(inner.copy()),
        None => None,
    }
}

pub fn copy_seq<T: Key>(values: &Vec<T>) -> (copy: Vec<T>)
    ensures
        seq_view(copy@) == seq_view(values@),
{
    let mut copy: Vec<T> = Vec::new();
    let mut i: usize = 0;
    while i < values.len()
        invariant
            i <= values.len(),
            copy.len() == i,
            forall|j: int| 0 <= j < i ==> (#[trigger] copy@[j])@ == values@[j]@,
        decreases values.len() - i,
    {
        copy.push(values[i].copy());
        i = i + 1;
    }
    assert(seq_view(copy@) =~= seq_view(values@));
    copy
}

/// A map from keys to values, kept as a list in the order of first insertion.
pub struct KeyMap<K: Key, V: View> {
    entries: Vec<(K, V)>,
}

/// The entries of a list as a map from the views of the keys to those of the values.
pub open spec fn entries_map<K: Key, V: View>(entries: Seq<(K, V)>) -> Map<K::V, V::V>
    decreases entries.len(),
{
    if entries.len() == 0 {
        Map::empty()
    } else {
        entries_map(entries.drop_last()).insert(entries.last().0@, entries.last().1@)
    }
}

pub open spec fn distinct_keys<K: Key, V: View>(entries: Seq<(K, V)>) -> bool {
    forall|i: int, j: int|
        0 <= i < j < entries.len() ==> (#[trigger] entries[i]).0@ != (#[trigger] entries[j]).0@
}

pub(crate) proof fn lemma_entries_map<K: Key, V: View>(entries: Seq<(K, V)>)
    requires
        distinct_keys(entries),
    ensures
        entries_map(entries).dom().finite(),
        entries_map(entries).dom().len() == entries.len(),
        forall|i: int| 0 <= i < entries.len() ==> #[trigger] entries_map(entries).contains_key(
            entries[i].0@,
        ) && entries_map(entries)[entries[i].0@] == entries[i].1@,
        forall|k: K::V| #[trigger] entries_map(entries).contains_key(k) ==> exists|i: int|
            0 <= i < entries.len() && (#[trigger] entries[i]).0@ == k,
    decreases entries.len(),
{
    if entries.len() > 0 {
        let front = entries.drop_last();
        assert(distinct_keys(front));
        lemma_entries_map(front);
        let last = entries.last();
        assert forall|i: int| 0 <= i < entries.len() implies #[trigger] entries_map(
            entries,
        ).contains_key(entries[i].0@) && entries_map(entries)[entries[i].0@] == entries[i].1@ by {
            if i < front.len() {
                assert(front[i] == entries[i]);
                assert(entries_map(front).contains_key(front[i].0@));
                assert(entries[i].0@ != entries[entries.len() - 1].0@);
            }
        }
        assert forall|k: K::V| #[trigger] entries_map(entries).contains_key(k) implies exists|
            i: int,
        |
            0 <= i < entries.len() && (#[trigger] entries[i]).0@ == k by {
            if k == last.0@ {
                assert(entries[entries.len() - 1].0@ == k);
            } else {
                assert(entries_map(front).contains_key(k));
                let i = choose|i: int| 0 <= i < front.len() && (#[trigger] front[i]).0@ == k;
                assert(entries[i].0@ == k);
            }
        }
        if entries_map(front).contains_key(last.0@) {
            let i = choose|i: int|
                0 <= i < front.len() && (#[trigger] front[i]).0@ == last.0@;
            assert(entries[i].0@ != entries[entries.len() - 1].0@);
        }
    }
}

impl<K: Key, V: View> View for KeyMap<K, V> {
    type V = Map<K::V, V::V>;

    closed spec fn view(&self) -> Map<K::V, V::V> {
        entries_map(self.entries@)
    }
}

/// Removing the entry at `at` removes its key from the map.
pub(crate) proof fn lemma_entries_remove<K: Key, V: View>(entries: Seq<(K, V)>, at: int)
    requires
        distinct_keys(entries),
        0 <= at < entries.len(),
    ensures
        distinct_keys(entries.remove(at)),
        entries_map(entries.remove(at)) == entries_map(entries).remove(entries[at].0@),
{
    let rest = entries.remove(at);
    let key = entries[at].0@;
    assert forall|i: int, j: int| 0 <= i < j < rest.len() implies (#[trigger] rest[i]).0@ != (
    #[trigger] rest[j]).0@ by {
        let a = if i < at { i } else { i + 1 };
        let b = if j < at { j } else { j + 1 };
        assert(rest[i] == entries[a] && rest[j] == entries[b]);
    }
    lemma_entries_map(entries);
    lemma_entries_map(rest);
    let left = entries_map(rest);
    let right = entries_map(entries).remove(key);
    assert forall|k: K::V| #[trigger] left.contains_key(k) implies right.contains_key(k) && left[k]
        == right[k] by {
        let i = choose|i: int| 0 <= i < rest.len() && (#[trigger] rest[i]).0@ == k;
        let a = if i < at { i } else { i + 1 };
        assert(rest[i] == entries[a]);
        assert(left.contains_key(rest[i].0@));
        assert(entries_map(entries).contains_key(entries[a].0@));
        assert(entries[a].0@ != entries[at].0@);
    }
    assert forall|k: K::V| #[trigger] right.contains_key(k) implies left.contains_key(k) by {
        let a = choose|a: int| 0 <= a < entries.len() && (#[trigger] entries[a]).0@ == k;
        let i = if a < at { a } else { a - 1 };
        assert(rest[i] == entries[a]);
        assert(left.contains_key(rest[i].0@));
    }
    assert(left =~= right);
}

/// Replacing the value at `at` rebinds its key.
pub(crate) proof fn lemma_entries_update<K: Key, V: View>(entries: Seq<(K, V)>, at: int, entry: (K, V))
    requires
        distinct_keys(entries),
        0 <= at < entries.len(),
        entry.0@ == entries[at].0@,
    ensures
        distinct_keys(entries.update(at, entry)),
        entries_map(entries.update(at, entry)) == entries_map(entries).insert(entry.0@, entry.1@),
{
    let next = entries.update(at, entry);
    assert(distinct_keys(next)) by {
        assert forall|i: int, j: int| 0 <= i < j < next.len() implies (#[trigger] next[i]).0@ != (
        #[trigger] next[j]).0@ by {
            assert(next[i].0@ == entries[i].0@ && next[j].0@ == entries[j].0@);
        }
    }
    lemma_entries_map(entries);
    lemma_entries_map(next);
    let left = entries_map(next);
    let right = entries_map(entries).insert(entry.0@, entry.1@);
    assert forall|k: K::V| #[trigger] left.contains_key(k) implies right.contains_key(k) && left[k]
        == right[k] by {
        let i = choose|i: int| 0 <= i < next.len() && (#[trigger] next[i]).0@ == k;
        assert(left.contains_key(next[i].0@));
        if i != at {
            assert(next[i] == entries[i]);
            assert(entries_map(entries).contains_key(entries[i].0@));
            assert(next[i].0@ != next[at].0@);
        }
    }
    assert forall|k: K::V| #[trigger] right.contains_key(k) implies left.contains_key(k) by {
        if k == entry.0@ {
            assert(left.contains_key(next[at].0@));
        } else {
            let i = choose|i: int| 0 <= i < entries.len() && (#[trigger] entries[i]).0@ == k;
            assert(next[i] == entries[i]);
            assert(left.contains_key(next[i].0@));
        }
    }
    assert(left =~= right);
}

impl<K: Key, V: View> KeyMap<K, V> {
    #[verifier::type_invariant]
    spec fn keys_are_distinct(self) -> bool {
        distinct_keys(self.entries@)
    }

    pub fn new() -> (map: Self)
        ensures
            map@ == Map::<K::V, V::V>::empty(),
    {
        KeyMap { entries: Vec::new() }
    }

    pub fn len(&self) -> (len: usize)
        ensures
            self@.dom().finite(),
            len == self@.dom().len(),
    {
        proof {
            use_type_invariant(&*self);
            lemma_entries_map(self.entries@);
        }
        self.entries.len()
    }

    fn position(&self, key: &K) -> (position: Option<usize>)
        ensures
            match position {
                Some(i) => i < self.entries@.len() && self.entries@[i as int].0@ == key@,
                None => forall|i: int|
                    0 <= i < self.entries@.len() ==> (#[trigger] self.entries@[i]).0@ != key@,
            },
    {
        let mut i: usize = 0;
        while i < self.entries.len()
            invariant
                i <= self.entries.len(),
                forall|j: int| 0 <= j < i ==> (#[trigger] self.entries@[j]).0@ != key@,
            decreases self.entries.len() - i,
        {
            if self.entries[i].0.same(key) {
                return Some(i);
            }
            i = i + 1;
        }
        None
    }

    pub fn get(&self, key: &K) -> (value: Option<&V>)
        ensures
            match value {
                Some(v) => self@.contains_key(key@) && self@[key@] == v@,
                None => !self@.contains_key(key@),
            },
    {
        proof {
            use_type_invariant(&*self);
            lemma_entries_map(self.entries@);
        }
        match self.position(key) {
            Some(i) => {
                assert(self@.contains_key(self.entries@[i as int].0@));
                Some(&self.entries[i].1)
            },
            None => None,
        }
    }

    /// The keys in the order of the list.
    pub closed spec fn order(self) -> Seq<K::V> {
        self.entries@.map_values(|entry: (K, V)| entry.0@)
    }

    /// The order lists each key of the map once.
    proof fn lemma_order(&self)
        requires
            distinct_keys(self.entries@),
        ensures
            self.order().no_duplicates(),
            self.order().len() == self@.dom().len(),
            self@.dom().finite(),
            forall|k: K::V| #[trigger] self@.contains_key(k) <==> self.order().contains(k),
    {
        lemma_entries_map(self.entries@);
        assert forall|k: K::V| #[trigger] self@.contains_key(k) implies self.order().contains(k) by {
            let i = choose|i: int|
                0 <= i < self.entries@.len() && (#[trigger] self.entries@[i]).0@ == k;
            assert(self.order()[i] == k);
        }
        assert forall|k: K::V| self.order().contains(k) implies #[trigger] self@.contains_key(
            k,
        ) by {
            let i = choose|i: int| 0 <= i < self.order().len() && self.order()[i] == k;
            assert(self@.contains_key(self.entries@[i].0@));
        }
    }

    /// The entry at a position of the order.
    pub fn entry_at(&self, at: usize) -> (entry: (&K, &V))
        requires
            at < self.order().len(),
        ensures
            entry.0@ == self.order()[at as int],
            self@.contains_key(entry.0@),
            self@[entry.0@] == entry.1@,
    {
        proof {
            use_type_invariant(&*self);
            lemma_entries_map(self.entries@);
            assert(self@.contains_key(self.entries@[at as int].0@));
        }
        (&self.entries[at].0, &self.entries[at].1)
    }

    /// The number of entries, with what the order says of the map.
    pub fn count(&self) -> (count: usize)
        ensures
            count == self.order().len(),
            count == self@.dom().len(),
            self@.dom().finite(),
            self.order().no_duplicates(),
            forall|k: K::V| #[trigger] self@.contains_key(k) <==> self.order().contains(k),
    {
        proof {
            use_type_invariant(&*self);
            self.lemma_order();
        }
        self.entries.len()
    }

    pub fn insert(&mut self, key: K, value: V)
        ensures
            final(self)@ == old(self)@.insert(key@, value@),
            final(self).order() == if old(self)@.contains_key(key@) {
                old(self).order()
            } else {
                old(self).order().push(key@)
            },
    {
        let position = self.position(&key);
        proof {
            use_type_invariant(&*self);
            lemma_entries_map(self.entries@);
        }
        let ghost before = self.entries@;
        let mut entries: Vec<(K, V)> = Vec::new();
        std::mem::swap(&mut entries, &mut self.entries);
        match position {
            Some(i) => {
                proof {
                    assert(entries_map(before).contains_key(before[i as int].0@));
                    lemma_entries_update(before, i as int, (key, value));
                }
                entries.set(i, (key, value));
                assert(entries@.map_values(|entry: (K, V)| entry.0@) =~= before.map_values(
                    |entry: (K, V)| entry.0@,
                ));
            },
            None => {
                entries.push((key, value));
                proof {
                    assert(entries@.drop_last() =~= before);
                    assert(distinct_keys(entries@)) by {
                        assert forall|i: int, j: int| 0 <= i < j < entries@.len() implies (
                        #[trigger] entries@[i]).0@ != (#[trigger] entries@[j]).0@ by {
                            assert(entries@[i] == before[i]);
                            if j < before.len() {
                                assert(entries@[j] == before[j]);
                            }
                        }
                    }
                    assert(entries@.map_values(|entry: (K, V)| entry.0@) =~= before.map_values(
                        |entry: (K, V)| entry.0@,
                    ).push(key@));
                }
            },
        }
        self.entries = entries;
    }

    /// Removes a key and its value, and says whether there was one.
    pub fn remove(&mut self, key: &K) -> (removed: bool)
        ensures
            removed == old(self)@.contains_key(key@),
            final(self)@ == old(self)@.remove(key@),
    {
        let position = self.position(key);
        proof {
            use_type_invariant(&*self);
            lemma_entries_map(self.entries@);
        }
        match position {
            Some(i) => {
                let ghost before = self.entries@;
                let mut entries: Vec<(K, V)> = Vec::new();
                std::mem::swap(&mut entries, &mut self.entries);
                proof {
                    assert(entries_map(before).contains_key(before[i as int].0@));
                    lemma_entries_remove(before, i as int);
                }
                let _ = entries.remove(i);
                self.entries = entries;
                true
            },
            None => {
                assert(self@.remove(key@) =~= self@);
                false
            },
        }
    }

    /// Takes a key out together with its value.
    pub fn take(&mut self, key: &K) -> (value: Option<V>)
        ensures
            final(self)@ == old(self)@.remove(key@),
            match value {
                Some(v) => old(self)@.contains_key(key@) && old(self)@[key@] == v@,
                None => !old(self)@.contains_key(key@),
            },
    {
        let position = self.position(key);
        proof {
            use_type_invariant(&*self);
            lemma_entries_map(self.entries@);
        }
        match position {
            Some(i) => {
                let ghost before = self.entries@;
                let mut entries: Vec<(K, V)> = Vec::new();
                std::mem::swap(&mut entries, &mut self.entries);
                proof {
                    assert(entries_map(before).contains_key(before[i as int].0@));
                    lemma_entries_remove(before, i as int);
                }
                let (_, value) = entries.remove(i);
                self.entries = entries;
                Some(value)
            },
            None => {
                assert(self@.remove(key@) =~= self@);
                None
            },
        }
    }

    pub fn contains_key(&self, key: &K) -> (found: bool)
        ensures
            found == self@.contains_key(key@),
    {
        match self.get(key) {
            Some(_) => true,
            None => false,
        }
    }
}

} // verus!
