//! Maps and sets whose keys are kept in order.
use vstd::prelude::*;

use crate::keymap::{
    distinct_keys, entries_map, lemma_entries_map, lemma_entries_remove, lemma_entries_update, Key,
};
use crate::order::Order;

verus! {

/// Keys with a total order.
pub trait Ranked: Key {
    spec fn less(left: Self::V, right: Self::V) -> bool;

    proof fn lemma_irreflexive(key: Self::V)
        ensures
            !Self::less(key, key),
    ;

    proof fn lemma_transitive(a: Self::V, b: Self::V, c: Self::V)
        requires
            Self::less(a, b),
            Self::less(b, c),
        ensures
            Self::less(a, c),
    ;

    proof fn lemma_total(a: Self::V, b: Self::V)
        ensures
            a == b || Self::less(a, b) || Self::less(b, a),
    ;

    fn compare(&self, other: &Self) -> (order: Order)
        ensures
            match order {
                Order::Less => Self::less(self@, other@),
                Order::Equal => self@ == other@,
                Order::Greater => Self::less(other@, self@),
            },
    ;
}

/// Keys in ascending order, none of them twice.
pub open spec fn ascending<K: Ranked>(keys: Seq<K::V>) -> bool {
    forall|i: int, j: int|
        0 <= i < j < keys.len() ==> K::less(#[trigger] keys[i], #[trigger] keys[j])
}

/// A finite set of keys in ascending order.
pub open spec fn ranked<K: Ranked>(keys: Set<K::V>) -> Seq<K::V> {
    choose|list: Seq<K::V>| #[trigger] ascending::<K>(list) && list.to_set() == keys
}

/// There is one ascending list of a set.
proof fn lemma_ascending_unique<K: Ranked>(left: Seq<K::V>, right: Seq<K::V>)
    requires
        ascending::<K>(left),
        ascending::<K>(right),
        left.to_set() == right.to_set(),
    ensures
        left == right,
    decreases left.len(),
{
    if left.len() == 0 {
        if right.len() > 0 {
            assert(right.to_set().contains(right[0]));
            assert(left.to_set().contains(right[0]));
        }
        assert(left =~= right);
    } else {
        let n = left.len() - 1;
        assert(left.to_set().contains(left[n]));
        assert(right.to_set().contains(left[n]));
        let i = choose|i: int| 0 <= i < right.len() && right[i] == left[n];
        let m = right.len() - 1;
        assert(right.to_set().contains(right[m]));
        assert(left.to_set().contains(right[m]));
        let j = choose|j: int| 0 <= j < left.len() && left[j] == right[m];
        assert(i == m) by {
            if i < m {
                assert(K::less(right[i], right[m]));
                if j < n {
                    assert(K::less(left[j], left[n]));
                    K::lemma_transitive(left[n], right[m], left[n]);
                }
                K::lemma_irreflexive(left[n]);
            }
        }
        let l = left.drop_last();
        let r = right.drop_last();
        assert forall|s: K::V| l.to_set().contains(s) <==> r.to_set().contains(s) by {
            if l.contains(s) {
                let a = choose|a: int| 0 <= a < l.len() && l[a] == s;
                assert(left[a] == s && K::less(left[a], left[n]));
                K::lemma_irreflexive(s);
                assert(left.to_set().contains(s));
                assert(right.to_set().contains(s));
                let b = choose|b: int| 0 <= b < right.len() && right[b] == s;
                assert(b != m);
                assert(r[b] == s);
            }
            if r.contains(s) {
                let b = choose|b: int| 0 <= b < r.len() && r[b] == s;
                assert(right[b] == s && K::less(right[b], right[m]));
                K::lemma_irreflexive(s);
                assert(right.to_set().contains(s));
                assert(left.to_set().contains(s));
                let a = choose|a: int| 0 <= a < left.len() && left[a] == s;
                assert(a != n);
                assert(l[a] == s);
            }
        }
        assert(l.to_set() =~= r.to_set());
        lemma_ascending_unique::<K>(l, r);
        assert(left =~= l.push(left[n]));
        assert(right =~= r.push(right[m]));
    }
}

/// An ascending list is the list of its set.
pub proof fn lemma_ranked<K: Ranked>(list: Seq<K::V>)
    requires
        ascending::<K>(list),
    ensures
        ranked::<K>(list.to_set()) == list,
        list.no_duplicates(),
{
    lemma_ascending_unique::<K>(ranked::<K>(list.to_set()), list);
    assert forall|i: int, j: int| 0 <= i < list.len() && 0 <= j < list.len() && i != j implies
        list[i] != list[j] by {
        K::lemma_irreflexive(list[i]);
        if i < j {
            assert(K::less(list[i], list[j]));
        } else {
            assert(K::less(list[j], list[i]));
        }
    }
}

/// Where a key comes in an ascending list that does not hold it.
proof fn lemma_place<K: Ranked>(list: Seq<K::V>, key: K::V) -> (place: int)
    requires
        ascending::<K>(list),
        !list.contains(key),
    ensures
        0 <= place <= list.len(),
        forall|j: int| 0 <= j < place ==> K::less(#[trigger] list[j], key),
        forall|j: int| place <= j < list.len() ==> K::less(key, #[trigger] list[j]),
    decreases list.len(),
{
    if list.len() == 0 {
        0
    } else {
        let front = list.drop_last();
        let last = list.last();
        assert forall|j: int| 0 <= j < front.len() implies front[j] != key by {
            assert(list[j] != key);
        }
        let place = lemma_place::<K>(front, key);
        assert forall|j: int| 0 <= j < place implies K::less(#[trigger] list[j], key) by {
            assert(K::less(front[j], key));
        }
        if place < front.len() {
            assert(K::less(key, front[place]));
            assert(K::less(list[place], list[list.len() - 1]));
            K::lemma_transitive(key, list[place], last);
            assert forall|j: int| place <= j < list.len() implies K::less(
                key,
                #[trigger] list[j],
            ) by {
                if j < front.len() {
                    assert(K::less(key, front[j]));
                }
            }
            place
        } else {
            assert(list[list.len() - 1] != key);
            K::lemma_total(last, key);
            if K::less(last, key) {
                list.len() as int
            } else {
                list.len() - 1
            }
        }
    }
}

/// Every finite set of keys has an ascending list.
pub proof fn lemma_ranked_lists<K: Ranked>(keys: Set<K::V>)
    requires
        keys.finite(),
    ensures
        ascending::<K>(ranked::<K>(keys)),
        ranked::<K>(keys).to_set() == keys,
        ranked::<K>(keys).no_duplicates(),
        ranked::<K>(keys).len() == keys.len(),
    decreases keys.len(),
{
    if keys.len() == 0 {
        let list = Seq::<K::V>::empty();
        assert(list.to_set() =~= keys);
        assert(ascending::<K>(list));
        lemma_ranked::<K>(list);
    } else {
        let key = keys.choose();
        let rest = keys.remove(key);
        lemma_ranked_lists::<K>(rest);
        let shorter = ranked::<K>(rest);
        assert(!shorter.contains(key)) by {
            assert(shorter.contains(key) == shorter.to_set().contains(key));
        }
        let place = lemma_place::<K>(shorter, key);
        let list = shorter.insert(place, key);
        assert forall|i: int, j: int| 0 <= i < j < list.len() implies K::less(
            #[trigger] list[i],
            #[trigger] list[j],
        ) by {
            if i != place && j != place {
                let a = if i < place {
                    i
                } else {
                    i - 1
                };
                let b = if j < place {
                    j
                } else {
                    j - 1
                };
                assert(K::less(shorter[a], shorter[b]));
            }
        }
        assert forall|k: K::V| list.to_set().contains(k) <==> keys.contains(k) by {
            assert(list[place] == key);
            if list.contains(k) && k != key {
                let i = choose|i: int| 0 <= i < list.len() && list[i] == k;
                assert(shorter[if i < place {
                    i
                } else {
                    i - 1
                }] == k);
                assert(shorter.to_set().contains(k));
            }
            if keys.contains(k) && k != key {
                assert(shorter.to_set().contains(k));
                let i = choose|i: int| 0 <= i < shorter.len() && shorter[i] == k;
                assert(list[if i < place {
                    i
                } else {
                    i + 1
                }] == k);
            }
        }
        assert(list.to_set() =~= keys);
        lemma_ranked::<K>(list);
    }
}

/// A map that is walked in the order of its keys.
pub struct SortedMap<K: Ranked, V: View> {
    entries: Vec<(K, V)>,
}

spec fn key_list<K: Ranked, V: View>(entries: Seq<(K, V)>) -> Seq<K::V> {
    entries.map_values(|entry: (K, V)| entry.0@)
}

proof fn lemma_keys<K: Ranked, V: View>(entries: Seq<(K, V)>)
    requires
        ascending::<K>(key_list(entries)),
    ensures
        distinct_keys(entries),
        entries_map(entries).dom() == key_list(entries).to_set(),
        ranked::<K>(entries_map(entries).dom()) == key_list(entries),
        key_list(entries).no_duplicates(),
        entries_map(entries).dom().finite(),
        entries_map(entries).dom().len() == entries.len(),
        forall|i: int| 0 <= i < entries.len() ==> #[trigger] entries_map(entries).contains_key(
            entries[i].0@,
        ) && entries_map(entries)[entries[i].0@] == entries[i].1@,
{
    let keys = key_list(entries);
    lemma_ranked::<K>(keys);
    assert forall|i: int, j: int| 0 <= i < j < entries.len() implies (#[trigger] entries[i]).0@ != (
    #[trigger] entries[j]).0@ by {
        assert(keys[i] != keys[j]);
    }
    lemma_entries_map(entries);
    let map = entries_map(entries);
    assert forall|k: K::V| map.dom().contains(k) <==> keys.to_set().contains(k) by {
        if map.contains_key(k) {
            let i = choose|i: int| 0 <= i < entries.len() && (#[trigger] entries[i]).0@ == k;
            assert(keys[i] == k);
        }
        if keys.contains(k) {
            let i = choose|i: int| 0 <= i < keys.len() && keys[i] == k;
            assert(map.contains_key(entries[i].0@));
        }
    }
    assert(map.dom() =~= keys.to_set());
}

impl<K: Ranked, V: View> View for SortedMap<K, V> {
    type V = Map<K::V, V::V>;

    closed spec fn view(&self) -> Map<K::V, V::V> {
        entries_map(self.entries@)
    }
}

impl<K: Ranked, V: View> SortedMap<K, V> {
    #[verifier::type_invariant]
    spec fn is_sorted(self) -> bool {
        ascending::<K>(key_list(self.entries@))
    }

    pub fn new() -> (map: Self)
        ensures
            map@ == Map::<K::V, V::V>::empty(),
    {
        SortedMap { entries: Vec::new() }
    }

    /// The number of entries, with what the list of the keys says of the map.
    pub fn len(&self) -> (len: usize)
        ensures
            self@.dom().finite(),
            len == self@.dom().len(),
            len == ranked::<K>(self@.dom()).len(),
            ascending::<K>(ranked::<K>(self@.dom())),
            ranked::<K>(self@.dom()).no_duplicates(),
            ranked::<K>(self@.dom()).to_set() == self@.dom(),
            forall|i: int|
                0 <= i < len ==> self@.contains_key(#[trigger] ranked::<K>(self@.dom())[i]),
    {
        proof {
            use_type_invariant(&*self);
            lemma_keys(self.entries@);
            assert forall|i: int| 0 <= i < self.entries@.len() implies self@.contains_key(
                #[trigger] ranked::<K>(self@.dom())[i],
            ) by {
                assert(self@.contains_key(self.entries@[i].0@));
            }
        }
        self.entries.len()
    }

    /// The entry at a place of the order.
    pub fn entry_at(&self, at: usize) -> (entry: (&K, &V))
        requires
            at < ranked::<K>(self@.dom()).len(),
        ensures
            entry.0@ == ranked::<K>(self@.dom())[at as int],
            self@.contains_key(entry.0@),
            self@[entry.0@] == entry.1@,
    {
        proof {
            use_type_invariant(&*self);
            lemma_keys(self.entries@);
            assert(self@.contains_key(self.entries@[at as int].0@));
        }
        (&self.entries[at].0, &self.entries[at].1)
    }

    /// Where a key stands, or where it would.
    fn search(&self, key: &K) -> (found: Result<usize, usize>)
        ensures
            match found {
                Ok(i) => i < self.entries@.len() && self.entries@[i as int].0@ == key@,
                Err(i) => {
                    &&& i <= self.entries@.len()
                    &&& forall|j: int|
                        0 <= j < i ==> K::less((#[trigger] self.entries@[j]).0@, key@)
                    &&& i < self.entries@.len() ==> K::less(key@, self.entries@[i as int].0@)
                },
            },
    {
        let mut i: usize = 0;
        while i < self.entries.len()
            invariant
                i <= self.entries.len(),
                forall|j: int| 0 <= j < i ==> K::less((#[trigger] self.entries@[j]).0@, key@),
            decreases self.entries.len() - i,
        {
            match self.entries[i].0.compare(key) {
                Order::Less => {},
                Order::Equal => {
                    return Ok(i);
                },
                Order::Greater => {
                    return Err(i);
                },
            }
            i = i + 1;
        }
        Err(i)
    }

    /// A key that is not found is not in the map.
    proof fn lemma_absent(&self, key: K::V, at: int)
        requires
            ascending::<K>(key_list(self.entries@)),
            0 <= at <= self.entries@.len(),
            forall|j: int| 0 <= j < at ==> K::less((#[trigger] self.entries@[j]).0@, key),
            at < self.entries@.len() ==> K::less(key, self.entries@[at].0@),
        ensures
            !self@.contains_key(key),
            forall|j: int|
                at <= j < self.entries@.len() ==> K::less(key, (#[trigger] self.entries@[j]).0@),
    {
        lemma_keys(self.entries@);
        let keys = key_list(self.entries@);
        K::lemma_irreflexive(key);
        assert forall|j: int| at <= j < self.entries@.len() implies K::less(
            key,
            (#[trigger] self.entries@[j]).0@,
        ) by {
            if j > at {
                assert(K::less(keys[at], keys[j]));
                K::lemma_transitive(key, keys[at], keys[j]);
            }
        }
        if self@.contains_key(key) {
            assert(keys.to_set().contains(key));
            let i = choose|i: int| 0 <= i < keys.len() && keys[i] == key;
            assert(self.entries@[i].0@ == key);
        }
    }

    pub fn get(&self, key: &K) -> (value: Option<&V>)
        ensures
            match value {
                Some(v) => self@.contains_key(key@) && self@[key@] == v@,
                None => !self@.contains_key(key@),
            },
    {
        proof {
            use_type_invariant(&*self);
            lemma_keys(self.entries@);
        }
        match self.search(key) {
            Ok(i) => {
                assert(self@.contains_key(self.entries@[i as int].0@));
                Some(&self.entries[i].1)
            },
            Err(i) => {
                proof {
                    self.lemma_absent(key@, i as int);
                }
                None
            },
        }
    }

    pub fn contains_key(&self, key: &K) -> (found: bool)
        ensures
            found == self@.contains_key(key@),
    {
        match self.get(key) {
            Some(_) => true,
            None => false,
        }
    }

    pub fn insert(&mut self, key: K, value: V)
        ensures
            final(self)@ == old(self)@.insert(key@, value@),
    {
        let place = self.search(&key);
        proof {
            use_type_invariant(&*self);
            lemma_keys(self.entries@);
        }
        let ghost before = self.entries@;
        let ghost entry = (key, value);
        match place {
            Ok(i) => {
                let mut entries: Vec<(K, V)> = Vec::new();
                std::mem::swap(&mut entries, &mut self.entries);
                proof {
                    assert(entries_map(before).contains_key(before[i as int].0@));
                    lemma_entries_update(before, i as int, (key, value));
                    assert(key_list(before.update(i as int, entry)) =~= key_list(before));
                }
                entries.set(i, (key, value));
                self.entries = entries;
            },
            Err(i) => {
                proof {
                    self.lemma_absent(key@, i as int);
                    lemma_entries_insert(before, i as int, entry);
                }
                let mut entries: Vec<(K, V)> = Vec::new();
                std::mem::swap(&mut entries, &mut self.entries);
                entries.insert(i, (key, value));
                self.entries = entries;
            },
        }
    }

    /// Takes a key out together with its value.
    pub fn take(&mut self, key: &K) -> (value: Option<V>)
        ensures
            final(self)@ == old(self)@.remove(key@),
            match value {
                Some(v) => old(self)@.contains_key(key@) && old(self)@[key@] == v@,
                None => !old(self)@.contains_key(key@),
            },
    {
        let place = self.search(key);
        proof {
            use_type_invariant(&*self);
            lemma_keys(self.entries@);
        }
        match place {
            Ok(i) => {
                let ghost before = self.entries@;
                let mut entries: Vec<(K, V)> = Vec::new();
                std::mem::swap(&mut entries, &mut self.entries);
                proof {
                    assert(entries_map(before).contains_key(before[i as int].0@));
                    lemma_entries_remove(before, i as int);
                    let keys = key_list(before);
                    let rest = before.remove(i as int);
                    assert forall|a: int, b: int| 0 <= a < b < rest.len() implies K::less(
                        #[trigger] key_list(rest)[a],
                        #[trigger] key_list(rest)[b],
                    ) by {
                        let x = if a < i { a } else { a + 1 };
                        let y = if b < i { b } else { b + 1 };
                        assert(K::less(keys[x], keys[y]));
                    }
                }
                let (_, value) = entries.remove(i);
                self.entries = entries;
                Some(value)
            },
            Err(i) => {
                proof {
                    self.lemma_absent(key@, i as int);
                    assert(self@.remove(key@) =~= self@);
                }
                None
            },
        }
    }

    /// Removes a key and its value, and says whether there was one.
    pub fn remove(&mut self, key: &K) -> (removed: bool)
        ensures
            removed == old(self)@.contains_key(key@),
            final(self)@ == old(self)@.remove(key@),
    {
        match self.take(key) {
            Some(_) => true,
            None => false,
        }
    }

    /// The keys in ascending order.
    pub fn keys(&self) -> (keys: Vec<K>)
        ensures
            crate::keymap::seq_view(keys@) == ranked::<K>(self@.dom()),
    {
        let len = self.len();
        let mut keys: Vec<K> = Vec::new();
        let mut i: usize = 0;
        let ghost list = ranked::<K>(self@.dom());
        while i < len
            invariant
                i <= len,
                len == list.len(),
                list == ranked::<K>(self@.dom()),
                keys.len() == i,
                forall|j: int| 0 <= j < i ==> (#[trigger] keys@[j])@ == list[j],
            decreases len - i,
        {
            let (key, _) = self.entry_at(i);
            keys.push(key.copy());
            i = i + 1;
        }
        assert(crate::keymap::seq_view(keys@) =~= list);
        keys
    }
}

/// Inserting a new key at its place keeps the order and binds the key.
proof fn lemma_entries_insert<K: Ranked, V: View>(entries: Seq<(K, V)>, at: int, entry: (K, V))
    requires
        ascending::<K>(key_list(entries)),
        0 <= at <= entries.len(),
        forall|j: int| 0 <= j < at ==> K::less((#[trigger] entries[j]).0@, entry.0@),
        forall|j: int| at <= j < entries.len() ==> K::less(entry.0@, (#[trigger] entries[j]).0@),
    ensures
        ascending::<K>(key_list(entries.insert(at, entry))),
        entries_map(entries.insert(at, entry)) == entries_map(entries).insert(entry.0@, entry.1@),
{
    let next = entries.insert(at, entry);
    let keys = key_list(entries);
    let list = key_list(next);
    assert forall|a: int, b: int| 0 <= a < b < list.len() implies K::less(
        #[trigger] list[a],
        #[trigger] list[b],
    ) by {
        let x = if a < at { a } else { a - 1 };
        let y = if b < at { b } else { b - 1 };
        if a == at {
            assert(list[b] == entries[y].0@);
        } else if b == at {
            assert(list[a] == entries[x].0@);
        } else {
            assert(list[a] == keys[x] && list[b] == keys[y]);
        }
    }
    lemma_keys(entries);
    lemma_keys(next);
    let left = entries_map(next);
    let right = entries_map(entries).insert(entry.0@, entry.1@);
    assert forall|k: K::V| #[trigger] left.contains_key(k) implies right.contains_key(k) && left[k]
        == right[k] by {
        assert(list.to_set().contains(k));
        let i = choose|i: int| 0 <= i < list.len() && list[i] == k;
        assert(left.contains_key(next[i].0@));
        if i != at {
            let x = if i < at { i } else { i - 1 };
            assert(next[i] == entries[x]);
            assert(entries_map(entries).contains_key(entries[x].0@));
            K::lemma_irreflexive(k);
        }
    }
    assert forall|k: K::V| #[trigger] right.contains_key(k) implies left.contains_key(k) by {
        if k == entry.0@ {
            assert(next[at] == entry);
            assert(left.contains_key(next[at].0@));
        } else {
            assert(keys.to_set().contains(k));
            let x = choose|x: int| 0 <= x < keys.len() && keys[x] == k;
            let i = if x < at { x } else { x + 1 };
            assert(next[i] == entries[x]);
            assert(left.contains_key(next[i].0@));
        }
    }
    assert(left =~= right);
}

/// A set that is walked in the order of its members.
pub struct SortedSet<K: Ranked> {
    members: SortedMap<K, ()>,
}

impl<K: Ranked> View for SortedSet<K> {
    type V = Set<K::V>;

    closed spec fn view(&self) -> Set<K::V> {
        self.members@.dom()
    }
}

impl<K: Ranked> SortedSet<K> {
    pub fn new() -> (set: Self)
        ensures
            set@ == Set::<K::V>::empty(),
    {
        let set = SortedSet { members: SortedMap::new() };
        assert(set@ =~= Set::<K::V>::empty());
        set
    }

    pub fn len(&self) -> (len: usize)
        ensures
            self@.finite(),
            len == self@.len(),
            len == ranked::<K>(self@).len(),
            ranked::<K>(self@).to_set() == self@,
            ranked::<K>(self@).no_duplicates(),
            ascending::<K>(ranked::<K>(self@)),
    {
        self.members.len()
    }

    pub fn is_empty(&self) -> (empty: bool)
        ensures
            empty == (self@ == Set::<K::V>::empty()),
    {
        let len = self.len();
        if len == 0 {
            assert(self@ =~= Set::<K::V>::empty());
            true
        } else {
            assert(Set::<K::V>::empty().len() == 0);
            false
        }
    }

    pub fn contains(&self, key: &K) -> (found: bool)
        ensures
            found == self@.contains(key@),
    {
        self.members.contains_key(key)
    }

    /// Adds a member, and says whether it was new.
    pub fn insert(&mut self, key: K) -> (added: bool)
        ensures
            final(self)@ == old(self)@.insert(key@),
            added == !old(self)@.contains(key@),
    {
        let added = !self.members.contains_key(&key);
        self.members.insert(key, ());
        assert(self@ =~= old(self)@.insert(key@));
        added
    }

    /// Takes a member out, and says whether it was there.
    pub fn remove(&mut self, key: &K) -> (removed: bool)
        ensures
            final(self)@ == old(self)@.remove(key@),
            removed == old(self)@.contains(key@),
    {
        let removed = self.members.remove(key);
        assert(self@ =~= old(self)@.remove(key@));
        removed
    }

    /// The member at a place of the order.
    pub fn member_at(&self, at: usize) -> (member: &K)
        requires
            at < ranked::<K>(self@).len(),
        ensures
            member@ == ranked::<K>(self@)[at as int],
            self@.contains(member@),
    {
        self.members.entry_at(at).0
    }

    /// The members in ascending order.
    pub fn to_vec(&self) -> (members: Vec<K>)
        ensures
            crate::keymap::seq_view(members@) == ranked::<K>(self@),
    {
        self.members.keys()
    }

    pub fn copy(&self) -> (copy: Self)
        ensures
            copy@ == self@,
    {
        let len = self.len();
        let mut copy = SortedSet::new();
        let mut i: usize = 0;
        let ghost list = ranked::<K>(self@);
        assert(copy@ =~= list.subrange(0, 0).to_set());
        while i < len
            invariant
                i <= len,
                len == list.len(),
                list == ranked::<K>(self@),
                copy@ == list.subrange(0, i as int).to_set(),
            decreases len - i,
        {
            let member = self.member_at(i);
            let _ = copy.insert(member.copy());
            proof {
                let before = list.subrange(0, i as int);
                assert(list.subrange(0, i + 1) =~= before.push(list[i as int]));
                lemma_push_to_set(before, list[i as int]);
            }
            i = i + 1;
        }
        assert(list.subrange(0, i as int) =~= list);
        copy
    }

    pub fn same(&self, other: &Self) -> (same: bool)
        ensures
            same == (self@ == other@),
    {
        let len = self.len();
        if len != other.len() {
            return false;
        }
        let mut i: usize = 0;
        while i < len
            invariant
                i <= len,
                len == ranked::<K>(self@).len(),
                len == ranked::<K>(other@).len(),
                forall|j: int|
                    0 <= j < i ==> ranked::<K>(self@)[j] == #[trigger] ranked::<K>(other@)[j],
            decreases len - i,
        {
            if !self.member_at(i).same(other.member_at(i)) {
                return false;
            }
            i = i + 1;
        }
        assert(ranked::<K>(self@) =~= ranked::<K>(other@));
        true
    }
}

/// Pushing to a list adds to its set.
pub proof fn lemma_push_to_set<T>(list: Seq<T>, item: T)
    ensures
        list.push(item).to_set() == list.to_set().insert(item),
{
    let longer = list.push(item);
    assert forall|s: T| longer.to_set().contains(s) <==> list.to_set().insert(item).contains(s) by {
        if list.contains(s) {
            let k = choose|k: int| 0 <= k < list.len() && list[k] == s;
            assert(longer[k] == s);
        }
        assert(longer[list.len() as int] == item);
        if longer.contains(s) && s != item {
            let k = choose|k: int| 0 <= k < longer.len() && longer[k] == s;
            assert(list[k] == s);
        }
    }
    assert(longer.to_set() =~= list.to_set().insert(item));
}

impl Key for u128 {
    fn same(&self, other: &Self) -> (same: bool) {
        *self == *other
    }

    fn copy(&self) -> (copy: Self) {
        *self
    }
}

impl Ranked for u128 {
    open spec fn less(left: u128, right: u128) -> bool {
        left < right
    }

    proof fn lemma_irreflexive(key: u128) {
    }

    proof fn lemma_transitive(a: u128, b: u128, c: u128) {
    }

    proof fn lemma_total(a: u128, b: u128) {
    }

    fn compare(&self, other: &Self) -> (order: Order) {
        let order = if *self < *other {
            Order::Less
        } else if *self == *other {
            Order::Equal
        } else {
            Order::Greater
        };
        assert(order is Less ==> Self::less(self@, other@));
        assert(order is Greater ==> Self::less(other@, self@));
        order
    }
}

impl Ranked for String {
    open spec fn less(left: Seq<char>, right: Seq<char>) -> bool {
        crate::order::text_less(left, right)
    }

    proof fn lemma_irreflexive(key: Seq<char>) {
        crate::order::lemma_text_irreflexive(key);
    }

    proof fn lemma_transitive(a: Seq<char>, b: Seq<char>, c: Seq<char>) {
        crate::order::lemma_text_transitive(a, b, c);
    }

    proof fn lemma_total(a: Seq<char>, b: Seq<char>) {
        crate::order::lemma_text_total(a, b);
    }

    fn compare(&self, other: &Self) -> (order: Order) {
        let order = crate::order::compare_text(self, other);
        assert(order is Less ==> Self::less(self@, other@));
        assert(order is Greater ==> Self::less(other@, self@));
        order
    }
}

/// What is kept of a list is what is in the list and passes.
pub proof fn lemma_filter_members<T>(list: Seq<T>, pred: spec_fn(T) -> bool)
    ensures
        forall|item: T| #[trigger]
            list.filter(pred).contains(item) <==> list.contains(item) && pred(item),
        list.no_duplicates() ==> list.filter(pred).no_duplicates(),
    decreases list.len(),
{
    reveal(Seq::filter);
    if list.len() > 0 {
        let front = list.drop_last();
        lemma_filter_members(front, pred);
        let kept = front.filter(pred);
        let all = list.filter(pred);
        assert(all == if pred(list.last()) {
            kept.push(list.last())
        } else {
            kept
        });
        assert forall|item: T| #[trigger] all.contains(item) <==> list.contains(item) && pred(
            item,
        ) by {
            if all.contains(item) {
                let k = choose|k: int| 0 <= k < all.len() && all[k] == item;
                if k < kept.len() {
                    assert(kept[k] == item);
                    assert(kept.contains(item));
                    let j = choose|j: int| 0 <= j < front.len() && front[j] == item;
                    assert(list[j] == item);
                } else {
                    assert(list[list.len() - 1] == item);
                }
            }
            if list.contains(item) && pred(item) {
                let j = choose|j: int| 0 <= j < list.len() && list[j] == item;
                if j < front.len() {
                    assert(front[j] == item);
                    assert(front.contains(item));
                    assert(kept.contains(item));
                    let k = choose|k: int| 0 <= k < kept.len() && kept[k] == item;
                    assert(all[k] == item);
                } else {
                    assert(all[kept.len() as int] == item);
                }
            }
        }
        if list.no_duplicates() {
            assert(front.no_duplicates());
            if pred(list.last()) && kept.contains(list.last()) {
                assert(front.contains(list.last()));
                let j = choose|j: int| 0 <= j < front.len() && front[j] == list.last();
                assert(list[j] == list[list.len() - 1]);
            }
            assert forall|i: int, j: int|
                0 <= i < all.len() && 0 <= j < all.len() && i != j implies all[i] != all[j] by {
                if i < kept.len() && j < kept.len() {
                    assert(kept[i] != kept[j]);
                } else if i < kept.len() {
                    assert(kept.contains(kept[i]));
                } else if j < kept.len() {
                    assert(kept.contains(kept[j]));
                }
            }
        }
    }
}

/// What is kept of the keys of a finite set, in their order, is what is in the set and passes.
pub proof fn lemma_ranked_filter<K: Ranked>(keys: Set<K::V>, pred: spec_fn(K::V) -> bool)
    requires
        keys.finite(),
    ensures
        forall|key: K::V| #[trigger]
            ranked::<K>(keys).filter(pred).contains(key) <==> keys.contains(key) && pred(key),
        ranked::<K>(keys).filter(pred).no_duplicates(),
{
    lemma_ranked_lists::<K>(keys);
    let list = ranked::<K>(keys);
    lemma_filter_members(list, pred);
    assert forall|key: K::V| #[trigger]
        list.filter(pred).contains(key) <==> keys.contains(key) && pred(key) by {
        assert(list.to_set().contains(key) <==> list.contains(key));
    }
}

} // verus!
