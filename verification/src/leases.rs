//! The set of leases that are known to be alive.
use vstd::prelude::*;

use crate::records::LeaseId;

verus! {

/// A finite set of leases.
pub struct LeaseSet {
    ids: Vec<LeaseId>,
}

impl View for LeaseSet {
    type V = Set<LeaseId>;

    closed spec fn view(&self) -> Set<LeaseId> {
        self.ids@.to_set()
    }
}

impl LeaseSet {
    #[verifier::type_invariant]
    spec fn ids_are_distinct(self) -> bool {
        self.ids@.no_duplicates()
    }

    pub fn new() -> (set: Self)
        ensures
            set@ == Set::<LeaseId>::empty(),
    {
        let set = LeaseSet { ids: Vec::new() };
        assert(set@ =~= Set::<LeaseId>::empty());
        set
    }

    pub fn len(&self) -> (len: usize)
        ensures
            self@.finite(),
            len == self@.len(),
    {
        proof {
            use_type_invariant(&*self);
            self.ids@.unique_seq_to_set();
        }
        self.ids.len()
    }

    fn position(&self, lease_id: LeaseId) -> (position: Option<usize>)
        ensures
            match position {
                Some(i) => i < self.ids@.len() && self.ids@[i as int] == lease_id,
                None => forall|i: int| 0 <= i < self.ids@.len() ==> self.ids@[i] != lease_id,
            },
    {
        let mut i: usize = 0;
        while i < self.ids.len()
            invariant
                i <= self.ids.len(),
                forall|j: int| 0 <= j < i ==> self.ids@[j] != lease_id,
            decreases self.ids.len() - i,
        {
            if self.ids[i] == lease_id {
                return Some(i);
            }
            i = i + 1;
        }
        None
    }

    pub fn contains(&self, lease_id: LeaseId) -> (found: bool)
        ensures
            found == self@.contains(lease_id),
    {
        match self.position(lease_id) {
            Some(i) => {
                assert(self.ids@[i as int] == lease_id);
                true
            },
            None => false,
        }
    }

    /// Adds a lease, and says whether it was new.
    pub fn insert(&mut self, lease_id: LeaseId) -> (added: bool)
        ensures
            final(self)@ == old(self)@.insert(lease_id),
            added == !old(self)@.contains(lease_id),
    {
        if self.contains(lease_id) {
            assert(self@.insert(lease_id) =~= self@);
            return false;
        }
        proof {
            use_type_invariant(&*self);
        }
        let ghost before = self.ids@;
        let mut ids: Vec<LeaseId> = Vec::new();
        std::mem::swap(&mut ids, &mut self.ids);
        ids.push(lease_id);
        proof {
            assert forall|l: LeaseId| ids@.to_set().contains(l) <==> before.to_set().insert(
                lease_id,
            ).contains(l) by {
                if before.contains(l) {
                    let i = choose|i: int| 0 <= i < before.len() && before[i] == l;
                    assert(ids@[i] == l);
                }
                assert(ids@[before.len() as int] == lease_id);
                if ids@.contains(l) && l != lease_id {
                    let i = choose|i: int| 0 <= i < ids@.len() && ids@[i] == l;
                    assert(before[i] == l);
                }
            }
            assert(ids@.to_set() =~= before.to_set().insert(lease_id));
        }
        self.ids = ids;
        true
    }

    /// Takes a lease out, and says whether it was there.
    pub fn remove(&mut self, lease_id: LeaseId) -> (removed: bool)
        ensures
            final(self)@ == old(self)@.remove(lease_id),
            removed == old(self)@.contains(lease_id),
    {
        match self.position(lease_id) {
            Some(at) => {
                proof {
                    use_type_invariant(&*self);
                }
                let ghost before = self.ids@;
                let mut ids: Vec<LeaseId> = Vec::new();
                std::mem::swap(&mut ids, &mut self.ids);
                let _ = ids.remove(at);
                proof {
                    assert(before[at as int] == lease_id);
                    assert forall|l: LeaseId| ids@.to_set().contains(l) <==> before.to_set().remove(
                        lease_id,
                    ).contains(l) by {
                        if before.contains(l) && l != lease_id {
                            let i = choose|i: int| 0 <= i < before.len() && before[i] == l;
                            let j = if i < at { i } else { i - 1 };
                            assert(ids@[j] == l);
                        }
                        if ids@.contains(l) {
                            let j = choose|j: int| 0 <= j < ids@.len() && ids@[j] == l;
                            let i = if j < at { j } else { j + 1 };
                            assert(before[i] == l);
                        }
                    }
                    assert(ids@.to_set() =~= before.to_set().remove(lease_id));
                }
                self.ids = ids;
                true
            },
            None => {
                assert(self@.remove(lease_id) =~= self@);
                false
            },
        }
    }

    /// Keeps the leases that are also in `kept`.
    pub fn retain_in(&mut self, kept: &LeaseSet)
        ensures
            final(self)@ == old(self)@.intersect(kept@),
    {
        let mut rest = LeaseSet::new();
        let mut i: usize = 0;
        let ghost before = self.ids@;
        while i < self.ids.len()
            invariant
                i <= self.ids.len(),
                self.ids@ == before,
                forall|l: LeaseId|
                    #[trigger] rest@.contains(l) <==> kept@.contains(l) && before.subrange(
                        0,
                        i as int,
                    ).contains(l),
            decreases self.ids.len() - i,
        {
            let lease_id = self.ids[i];
            let ghost earlier = rest@;
            if kept.contains(lease_id) {
                let _ = rest.insert(lease_id);
            }
            proof {
                let shorter = before.subrange(0, i as int);
                let longer = before.subrange(0, i + 1);
                assert(longer =~= shorter.push(lease_id));
                assert forall|l: LeaseId| #[trigger] rest@.contains(l) <==> kept@.contains(l)
                    && longer.contains(l) by {
                    assert(longer[i as int] == lease_id);
                    if shorter.contains(l) {
                        let j = choose|j: int| 0 <= j < shorter.len() && shorter[j] == l;
                        assert(longer[j] == l);
                    }
                    if longer.contains(l) && l != lease_id {
                        let j = choose|j: int| 0 <= j < longer.len() && longer[j] == l;
                        assert(shorter[j] == l);
                    }
                    assert(earlier.contains(l) <==> kept@.contains(l) && shorter.contains(l));
                }
            }
            i = i + 1;
        }
        assert(before.subrange(0, i as int) =~= before);
        assert(rest@ =~= self@.intersect(kept@));
        *self = rest;
    }

    pub fn copy(&self) -> (copy: Self)
        ensures
            copy@ == self@,
    {
        proof {
            use_type_invariant(&*self);
        }
        let ids = self.ids.clone();
        assert(ids@ =~= self.ids@);
        LeaseSet { ids }
    }
}

} // verus!
