//! Sets of node sessions, in ascending order.
use vstd::prelude::*;

use crate::types::NodeIncarnation;

verus! {

/// A finite set of sessions, each named by the boot of its node.
#[derive(Debug)]
pub struct SessionSet {
    ids: Vec<NodeIncarnation>,
}

/// Sessions in ascending order, none of them twice.
pub open spec fn ascending(ids: Seq<NodeIncarnation>) -> bool {
    forall|i: int, j: int| 0 <= i < j < ids.len() ==> (#[trigger] ids[i]).0 < (#[trigger] ids[j]).0
}

impl View for SessionSet {
    type V = Set<NodeIncarnation>;

    closed spec fn view(&self) -> Set<NodeIncarnation> {
        self.ids@.to_set()
    }
}

proof fn lemma_insert(ids: Seq<NodeIncarnation>, session: NodeIncarnation, at: int)
    requires
        ascending(ids),
        0 <= at <= ids.len(),
        forall|j: int| 0 <= j < at ==> (#[trigger] ids[j]).0 < session.0,
        at < ids.len() ==> session.0 < ids[at].0,
    ensures
        ascending(ids.insert(at, session)),
        ids.insert(at, session).to_set() =~= ids.to_set().insert(session),
        !ids.contains(session),
{
    let next = ids.insert(at, session);
    assert forall|i: int, j: int| 0 <= i < j < next.len() implies (#[trigger] next[i]).0 < (
    #[trigger] next[j]).0 by {
        let a = if i < at { i } else { i - 1 };
        let b = if j < at { j } else { j - 1 };
        if i == at {
            assert(next[j] == ids[j - 1]);
            if j - 1 > at {
                assert(ids[at].0 < ids[j - 1].0);
            }
        } else if j == at {
            assert(next[i] == ids[i]);
        } else {
            assert(next[i] == ids[a] && next[j] == ids[b]);
        }
    }
    assert forall|s: NodeIncarnation| next.to_set().contains(s) <==> ids.to_set().insert(
        session,
    ).contains(s) by {
        if ids.contains(s) {
            let i = choose|i: int| 0 <= i < ids.len() && ids[i] == s;
            let k = if i < at { i } else { i + 1 };
            assert(next[k] == s);
        }
        assert(next[at] == session);
        if next.contains(s) && s != session {
            let k = choose|k: int| 0 <= k < next.len() && next[k] == s;
            let i = if k < at { k } else { k - 1 };
            assert(ids[i] == s);
        }
    }
    if ids.contains(session) {
        let i = choose|i: int| 0 <= i < ids.len() && ids[i] == session;
        if i > at {
            assert(ids[at].0 < ids[i].0);
        }
    }
}

/// There is one ascending list of a set.
proof fn lemma_ascending_unique(left: Seq<NodeIncarnation>, right: Seq<NodeIncarnation>)
    requires
        ascending(left),
        ascending(right),
        left.to_set() == right.to_set(),
    ensures
        left == right,
    decreases left.len(),
{
    if left.len() == 0 {
        if right.len() > 0 {
            assert(right.to_set().contains(right[0]));
            assert(left.to_set().contains(right[0]));
        }
        assert(left =~= right);
    } else {
        let n = left.len() - 1;
        assert(left.to_set().contains(left[n]));
        assert(right.to_set().contains(left[n]));
        let i = choose|i: int| 0 <= i < right.len() && right[i] == left[n];
        let m = right.len() - 1;
        assert(right.to_set().contains(right[m]));
        assert(left.to_set().contains(right[m]));
        let j = choose|j: int| 0 <= j < left.len() && left[j] == right[m];
        assert(i == m) by {
            if i < m {
                assert(right[i].0 < right[m].0);
                if j < n {
                    assert(left[j].0 < left[n].0);
                }
            }
        }
        let l = left.drop_last();
        let r = right.drop_last();
        assert forall|s: NodeIncarnation| l.to_set().contains(s) <==> r.to_set().contains(s) by {
            if l.contains(s) {
                let a = choose|a: int| 0 <= a < l.len() && l[a] == s;
                assert(left[a] == s && left[a].0 < left[n].0);
                assert(left.to_set().contains(s));
                assert(right.to_set().contains(s));
                let b = choose|b: int| 0 <= b < right.len() && right[b] == s;
                assert(b != m);
                assert(r[b] == s);
            }
            if r.contains(s) {
                let b = choose|b: int| 0 <= b < r.len() && r[b] == s;
                assert(right[b] == s && right[b].0 < right[m].0);
                assert(right.to_set().contains(s));
                assert(left.to_set().contains(s));
                let a = choose|a: int| 0 <= a < left.len() && left[a] == s;
                assert(a != n);
                assert(l[a] == s);
            }
        }
        assert(l.to_set() =~= r.to_set());
        lemma_ascending_unique(l, r);
        assert(left =~= l.push(left[n]));
        assert(right =~= r.push(right[m]));
    }
}

impl SessionSet {
    #[verifier::type_invariant]
    spec fn is_ascending(self) -> bool {
        ascending(self.ids@)
    }

    pub fn new() -> (set: Self)
        ensures
            set@ == Set::<NodeIncarnation>::empty(),
    {
        let set = SessionSet { ids: Vec::new() };
        assert(set@ =~= Set::<NodeIncarnation>::empty());
        set
    }

    pub fn len(&self) -> (len: usize)
        ensures
            self@.finite(),
            len == self@.len(),
    {
        proof {
            use_type_invariant(&*self);
            assert(self.ids@.no_duplicates());
            self.ids@.unique_seq_to_set();
        }
        self.ids.len()
    }

    pub fn is_empty(&self) -> (empty: bool)
        ensures
            empty == (self@ == Set::<NodeIncarnation>::empty()),
    {
        if self.ids.len() == 0 {
            assert(self@ =~= Set::<NodeIncarnation>::empty());
            true
        } else {
            assert(self@.contains(self.ids@[0]));
            false
        }
    }

    /// The sessions, in ascending order.
    pub fn to_vec(&self) -> (ids: Vec<NodeIncarnation>)
        ensures
            ascending(ids@),
            ids@.to_set() == self@,
    {
        proof {
            use_type_invariant(&*self);
        }
        let ids = self.ids.clone();
        assert(ids@ =~= self.ids@);
        ids
    }

    pub fn contains(&self, session: NodeIncarnation) -> (found: bool)
        ensures
            found == self@.contains(session),
    {
        let mut i: usize = 0;
        while i < self.ids.len()
            invariant
                i <= self.ids.len(),
                forall|j: int| 0 <= j < i ==> self.ids@[j] != session,
            decreases self.ids.len() - i,
        {
            if self.ids[i] == session {
                assert(self.ids@[i as int] == session);
                return true;
            }
            i = i + 1;
        }
        false
    }

    /// Adds a session, and says whether it was new.
    pub fn insert(&mut self, session: NodeIncarnation) -> (added: bool)
        ensures
            final(self)@ == old(self)@.insert(session),
            added == !old(self)@.contains(session),
    {
        proof {
            use_type_invariant(&*self);
        }
        let ghost before = self.ids@;
        let mut at: usize = 0;
        while at < self.ids.len() && self.ids[at].0 < session.0
            invariant
                at <= self.ids.len(),
                self.ids@ == before,
                *self == *old(self),
                forall|j: int| 0 <= j < at ==> (#[trigger] before[j]).0 < session.0,
            decreases self.ids.len() - at,
        {
            at = at + 1;
        }
        if at < self.ids.len() && self.ids[at] == session {
            assert(before[at as int] == session);
            assert(self@.insert(session) =~= self@);
            return false;
        }
        proof {
            lemma_insert(before, session, at as int);
        }
        let mut ids: Vec<NodeIncarnation> = Vec::new();
        std::mem::swap(&mut ids, &mut self.ids);
        ids.insert(at, session);
        self.ids = ids;
        true
    }

    /// Takes a session out, and says whether it was there.
    pub fn remove(&mut self, session: NodeIncarnation) -> (removed: bool)
        ensures
            final(self)@ == old(self)@.remove(session),
            removed == old(self)@.contains(session),
    {
        proof {
            use_type_invariant(&*self);
        }
        let ghost before = self.ids@;
        let mut at: usize = 0;
        while at < self.ids.len()
            invariant
                at <= self.ids.len(),
                self.ids@ == before,
                ascending(before),
                *self == *old(self),
                forall|j: int| 0 <= j < at ==> before[j] != session,
            decreases self.ids.len() - at,
        {
            if self.ids[at] == session {
                let mut ids: Vec<NodeIncarnation> = Vec::new();
                std::mem::swap(&mut ids, &mut self.ids);
                let _ = ids.remove(at);
                proof {
                    assert(before[at as int] == session);
                    assert(ascending(ids@)) by {
                        assert forall|i: int, j: int| 0 <= i < j < ids@.len() implies (
                        #[trigger] ids@[i]).0 < (#[trigger] ids@[j]).0 by {
                            let a = if i < at { i } else { i + 1 };
                            let b = if j < at { j } else { j + 1 };
                            assert(ids@[i] == before[a] && ids@[j] == before[b]);
                        }
                    }
                    assert forall|s: NodeIncarnation| ids@.to_set().contains(s)
                        <==> before.to_set().remove(session).contains(s) by {
                        if before.contains(s) && s != session {
                            let i = choose|i: int| 0 <= i < before.len() && before[i] == s;
                            let j = if i < at { i } else { i - 1 };
                            assert(ids@[j] == s);
                        }
                        if ids@.contains(s) {
                            let j = choose|j: int| 0 <= j < ids@.len() && ids@[j] == s;
                            let i = if j < at { j } else { j + 1 };
                            assert(before[i] == s);
                            if i < at {
                                assert(before[i].0 < before[at as int].0);
                            } else {
                                assert(before[at as int].0 < before[i].0);
                            }
                        }
                    }
                    assert(ids@.to_set() =~= before.to_set().remove(session));
                }
                self.ids = ids;
                return true;
            }
            at = at + 1;
        }
        assert(self@.remove(session) =~= self@);
        false
    }

    pub fn same(&self, other: &SessionSet) -> (same: bool)
        ensures
            same == (self@ == other@),
    {
        proof {
            use_type_invariant(&*self);
            use_type_invariant(&*other);
            if self@ == other@ {
                lemma_ascending_unique(self.ids@, other.ids@);
            }
        }
        if self.ids.len() != other.ids.len() {
            return false;
        }
        let mut i: usize = 0;
        while i < self.ids.len()
            invariant
                i <= self.ids.len(),
                self.ids@.len() == other.ids@.len(),
                self@ == other@ ==> self.ids@ == other.ids@,
                forall|j: int| 0 <= j < i ==> self.ids@[j] == other.ids@[j],
            decreases self.ids.len() - i,
        {
            if self.ids[i] != other.ids[i] {
                return false;
            }
            i = i + 1;
        }
        assert(self.ids@ =~= other.ids@);
        true
    }

    pub fn copy(&self) -> (copy: Self)
        ensures
            copy@ == self@,
    {
        proof {
            use_type_invariant(&*self);
        }
        let ids = self.ids.clone();
        assert(ids@ =~= self.ids@);
        SessionSet { ids }
    }
}

} // verus!
