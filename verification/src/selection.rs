//! Splitting a list in two by marks.
use vstd::prelude::*;

verus! {

/// The items of a list whose mark is `wanted`, in their order.
pub open spec fn marked<T>(items: Seq<T>, marks: Seq<bool>, wanted: bool) -> Seq<T>
    decreases items.len(),
{
    if items.len() == 0 {
        Seq::empty()
    } else {
        let rest = marked(items.drop_last(), marks, wanted);
        if marks[items.len() - 1] == wanted {
            rest.push(items.last())
        } else {
            rest
        }
    }
}

/// Splits a list in those that are marked and those that are not.
pub fn split_marked<T>(items: Vec<T>, marks: &Vec<bool>) -> (parts: (Vec<T>, Vec<T>))
    requires
        marks.len() == items.len(),
    ensures
        parts.0@ == marked(items@, marks@, true),
        parts.1@ == marked(items@, marks@, false),
{
    let mut items = items;
    let ghost all = items@;
    let mut reversed: Vec<T> = Vec::new();
    while items.len() > 0
        invariant
            items@.len() + reversed@.len() == all.len(),
            items@ == all.subrange(0, items@.len() as int),
            forall|j: int| 0 <= j < reversed@.len() ==> reversed@[j] == all[all.len() - 1 - j],
        decreases items.len(),
    {
        match items.pop() {
            Some(item) => {
                reversed.push(item);
            },
            None => {},
        }
    }
    let mut yes: Vec<T> = Vec::new();
    let mut no: Vec<T> = Vec::new();
    let mut at: usize = 0;
    while reversed.len() > 0
        invariant
            at + reversed@.len() == all.len(),
            marks.len() == all.len(),
            forall|j: int| 0 <= j < reversed@.len() ==> reversed@[j] == all[all.len() - 1 - j],
            yes@ == marked(all.subrange(0, at as int), marks@, true),
            no@ == marked(all.subrange(0, at as int), marks@, false),
        decreases reversed.len(),
    {
        proof {
            let longer = all.subrange(0, at + 1);
            assert(longer.drop_last() =~= all.subrange(0, at as int));
            assert(longer.last() == all[at as int]);
        }
        match reversed.pop() {
            Some(item) => {
                if marks[at] {
                    yes.push(item);
                } else {
                    no.push(item);
                }
            },
            None => {},
        }
        at = at + 1;
    }
    assert(all.subrange(0, at as int) =~= all);
    (yes, no)
}

} // verus!
