//! The order of text: that of its UTF-8 bytes.
use vstd::prelude::*;
use vstd::utf8::encode_utf8;

use crate::keymap::{seq_view, Key};

verus! {

/// How one value stands to another.
#[derive(Debug, Clone, Copy, PartialEq, Eq, Structural)]
pub enum Order {
    Less,
    Equal,
    Greater,
}

/// Whether some bytes come before others, byte by byte.
pub open spec fn lex_less(left: Seq<u8>, right: Seq<u8>) -> bool
    decreases left.len(),
{
    if right.len() == 0 {
        false
    } else if left.len() == 0 {
        true
    } else if left[0] != right[0] {
        left[0] < right[0]
    } else {
        lex_less(left.drop_first(), right.drop_first())
    }
}

/// Whether a text comes before another.
pub open spec fn text_less(left: Seq<char>, right: Seq<char>) -> bool {
    lex_less(encode_utf8(left), encode_utf8(right))
}

proof fn lemma_lex_irreflexive(bytes: Seq<u8>)
    ensures
        !lex_less(bytes, bytes),
    decreases bytes.len(),
{
    if bytes.len() > 0 {
        lemma_lex_irreflexive(bytes.drop_first());
    }
}

pub proof fn lemma_lex_transitive(a: Seq<u8>, b: Seq<u8>, c: Seq<u8>)
    requires
        lex_less(a, b),
        lex_less(b, c),
    ensures
        lex_less(a, c),
    decreases a.len(),
{
    if a.len() > 0 && b.len() > 0 && c.len() > 0 && a[0] == b[0] && b[0] == c[0] {
        lemma_lex_transitive(a.drop_first(), b.drop_first(), c.drop_first());
    }
}

proof fn lemma_lex_total(a: Seq<u8>, b: Seq<u8>)
    ensures
        a == b || lex_less(a, b) || lex_less(b, a),
    decreases a.len(),
{
    if a.len() > 0 && b.len() > 0 && a[0] == b[0] {
        lemma_lex_total(a.drop_first(), b.drop_first());
        if a.drop_first() == b.drop_first() {
            assert(a =~= seq![a[0]] + a.drop_first());
            assert(b =~= seq![b[0]] + b.drop_first());
        }
    } else if a.len() == 0 && b.len() == 0 {
        assert(a =~= b);
    }
}

/// Some bytes come before others exactly when both agree up to a place where the first ones end, or
/// hold the smaller byte.
pub proof fn law_bytes_differ_at_a_place(left: Seq<u8>, right: Seq<u8>)
    ensures
        lex_less(left, right) <==> exists|k: int| #[trigger] is_first_difference(left, right, k),
    decreases left.len(),
{
    if right.len() == 0 {
    } else if left.len() == 0 {
        assert(is_first_difference(left, right, 0));
    } else if left[0] != right[0] {
        if left[0] < right[0] {
            assert(is_first_difference(left, right, 0));
        }
        if exists|k: int| #[trigger] is_first_difference(left, right, k) {
            let k = choose|k: int| #[trigger] is_first_difference(left, right, k);
            if k > 0 {
                assert(left[0] == right[0]);
            }
        }
    } else {
        let (l, r) = (left.drop_first(), right.drop_first());
        law_bytes_differ_at_a_place(l, r);
        if lex_less(l, r) {
            let k = choose|k: int| #[trigger] is_first_difference(l, r, k);
            assert forall|i: int| 0 <= i < k + 1 implies #[trigger] left[i] == right[i] by {
                if i > 0 {
                    assert(l[i - 1] == r[i - 1]);
                }
            }
            assert(is_first_difference(left, right, k + 1));
        }
        if exists|k: int| #[trigger] is_first_difference(left, right, k) {
            let k = choose|k: int| #[trigger] is_first_difference(left, right, k);
            assert(k > 0);
            assert forall|i: int| 0 <= i < k - 1 implies #[trigger] l[i] == r[i] by {
                assert(left[i + 1] == right[i + 1]);
            }
            assert(is_first_difference(l, r, k - 1));
        }
    }
}

/// Whether some bytes agree with others up to a place where they end or hold the smaller byte.
pub open spec fn is_first_difference(left: Seq<u8>, right: Seq<u8>, k: int) -> bool {
    &&& 0 <= k <= left.len()
    &&& k < right.len()
    &&& forall|i: int| 0 <= i < k ==> #[trigger] left[i] == right[i]
    &&& k < left.len() ==> left[k] < right[k]
}

/// One text comes before another exactly when its UTF-8 bytes do.
pub proof fn law_texts_are_ordered_by_their_bytes(left: Seq<char>, right: Seq<char>)
    ensures
        text_less(left, right) <==> exists|k: int| #[trigger]
            is_first_difference(encode_utf8(left), encode_utf8(right), k),
{
    law_bytes_differ_at_a_place(encode_utf8(left), encode_utf8(right));
}

/// No two byte strings come each before the other, and none before itself.
pub proof fn lemma_lex_asymmetric(a: Seq<u8>, b: Seq<u8>)
    ensures
        !(lex_less(a, b) && lex_less(b, a)),
        !lex_less(a, a),
{
    lemma_lex_irreflexive(a);
    if lex_less(a, b) && lex_less(b, a) {
        lemma_lex_transitive(a, b, a);
    }
}

pub proof fn lemma_text_irreflexive(text: Seq<char>)
    ensures
        !text_less(text, text),
{
    lemma_lex_irreflexive(encode_utf8(text));
}

pub proof fn lemma_text_transitive(a: Seq<char>, b: Seq<char>, c: Seq<char>)
    requires
        text_less(a, b),
        text_less(b, c),
    ensures
        text_less(a, c),
{
    lemma_lex_transitive(encode_utf8(a), encode_utf8(b), encode_utf8(c));
}

/// Of two different texts one comes before the other.
pub proof fn lemma_text_total(a: Seq<char>, b: Seq<char>)
    ensures
        a == b || text_less(a, b) || text_less(b, a),
{
    lemma_lex_total(encode_utf8(a), encode_utf8(b));
    if encode_utf8(a) == encode_utf8(b) {
        vstd::utf8::encode_utf8_decode_utf8(a);
        vstd::utf8::encode_utf8_decode_utf8(b);
    }
}

pub fn compare_bytes(left: &[u8], right: &[u8]) -> (order: Order)
    ensures
        match order {
            Order::Less => lex_less(left@, right@),
            Order::Equal => left@ == right@,
            Order::Greater => lex_less(right@, left@),
        },
{
    let mut i: usize = 0;
    assert(left@.subrange(0, left@.len() as int) =~= left@);
    assert(right@.subrange(0, right@.len() as int) =~= right@);
    while i < left.len() && i < right.len()
        invariant
            i <= left.len(),
            i <= right.len(),
            left@.subrange(0, i as int) =~= right@.subrange(0, i as int),
            lex_less(left@, right@) == lex_less(
                left@.subrange(i as int, left@.len() as int),
                right@.subrange(i as int, right@.len() as int),
            ),
            lex_less(right@, left@) == lex_less(
                right@.subrange(i as int, right@.len() as int),
                left@.subrange(i as int, left@.len() as int),
            ),
        decreases left.len() - i,
    {
        let ghost a = left@.subrange(i as int, left@.len() as int);
        let ghost b = right@.subrange(i as int, right@.len() as int);
        assert(a[0] == left@[i as int] && b[0] == right@[i as int]);
        if left[i] < right[i] {
            return Order::Less;
        }
        if left[i] > right[i] {
            return Order::Greater;
        }
        assert(a.drop_first() =~= left@.subrange(i + 1, left@.len() as int));
        assert(b.drop_first() =~= right@.subrange(i + 1, right@.len() as int));
        assert(left@.subrange(0, i + 1) =~= left@.subrange(0, i as int).push(left@[i as int]));
        assert(right@.subrange(0, i + 1) =~= right@.subrange(0, i as int).push(right@[i as int]));
        i = i + 1;
    }
    if left.len() == right.len() {
        assert(left@ =~= left@.subrange(0, i as int));
        assert(right@ =~= right@.subrange(0, i as int));
        Order::Equal
    } else if left.len() < right.len() {
        Order::Less
    } else {
        Order::Greater
    }
}

pub fn compare_text(left: &String, right: &String) -> (order: Order)
    ensures
        match order {
            Order::Less => text_less(left@, right@),
            Order::Equal => left@ == right@,
            Order::Greater => text_less(right@, left@),
        },
{
    let order = compare_bytes(left.as_str().as_bytes(), right.as_str().as_bytes());
    proof {
        if order == Order::Equal {
            vstd::utf8::encode_utf8_decode_utf8(left@);
            vstd::utf8::encode_utf8_decode_utf8(right@);
        }
    }
    order
}

/// Texts in order, none of them twice.
pub open spec fn strictly_sorted(texts: Seq<Seq<char>>) -> bool {
    forall|i: int, j: int|
        0 <= i < j < texts.len() ==> text_less(#[trigger] texts[i], #[trigger] texts[j])
}

/// There is one way to list some texts in order.
pub proof fn law_sorting_is_canonical(left: Seq<Seq<char>>, right: Seq<Seq<char>>)
    requires
        strictly_sorted(left),
        strictly_sorted(right),
        left.to_set() == right.to_set(),
    ensures
        left == right,
    decreases left.len(),
{
    if left.len() == 0 {
        if right.len() > 0 {
            assert(right.to_set().contains(right[0]));
            assert(left.to_set().contains(right[0]));
        }
        assert(left =~= right);
    } else {
        assert(left.to_set().contains(left[0]));
        assert(right.to_set().contains(left[0]));
        let i = choose|i: int| 0 <= i < right.len() && right[i] == left[0];
        assert(right.to_set().contains(right[0]));
        assert(left.to_set().contains(right[0]));
        let j = choose|j: int| 0 <= j < left.len() && left[j] == right[0];
        if i > 0 {
            // right[0] < right[i] == left[0] <= left[j] == right[0]
            assert(text_less(right[0], right[i]));
            if j > 0 {
                assert(text_less(left[0], left[j]));
                lemma_text_transitive(right[0], left[0], right[0]);
            }
            lemma_text_irreflexive(right[0]);
        }
        assert(left[0] == right[0]);
        let l = left.drop_first();
        let r = right.drop_first();
        assert(strictly_sorted(l)) by {
            assert forall|a: int, b: int| 0 <= a < b < l.len() implies text_less(
                #[trigger] l[a],
                #[trigger] l[b],
            ) by {
                assert(text_less(left[a + 1], left[b + 1]));
            }
        }
        assert(strictly_sorted(r)) by {
            assert forall|a: int, b: int| 0 <= a < b < r.len() implies text_less(
                #[trigger] r[a],
                #[trigger] r[b],
            ) by {
                assert(text_less(right[a + 1], right[b + 1]));
            }
        }
        assert forall|t: Seq<char>| l.to_set().contains(t) <==> r.to_set().contains(t) by {
            lemma_rest(left, right, t);
            lemma_rest(right, left, t);
        }
        assert(l.to_set() =~= r.to_set());
        law_sorting_is_canonical(l, r);
        assert(left =~= seq![left[0]] + l);
        assert(right =~= seq![right[0]] + r);
    }
}

proof fn lemma_rest(left: Seq<Seq<char>>, right: Seq<Seq<char>>, text: Seq<char>)
    requires
        strictly_sorted(left),
        strictly_sorted(right),
        left.to_set() == right.to_set(),
        left.len() > 0,
        right.len() > 0,
        left[0] == right[0],
    ensures
        left.drop_first().contains(text) ==> right.drop_first().contains(text),
{
    if left.drop_first().contains(text) {
        let i = choose|i: int|
            0 <= i < left.drop_first().len() && left.drop_first()[i] == text;
        assert(left[i + 1] == text);
        assert(left.to_set().contains(text));
        assert(right.to_set().contains(text));
        let j = choose|j: int| 0 <= j < right.len() && right[j] == text;
        if j == 0 {
            assert(text_less(left[0], left[i + 1]));
            lemma_text_irreflexive(text);
        } else {
            assert(right.drop_first()[j - 1] == text);
        }
    }
}

/// Where a text belongs among texts in order that do not hold it.
proof fn lemma_place(sorted: Seq<Seq<char>>, text: Seq<char>, from: int) -> (at: int)
    requires
        strictly_sorted(sorted),
        !sorted.contains(text),
        0 <= from <= sorted.len(),
        forall|j: int| 0 <= j < from ==> text_less(#[trigger] sorted[j], text),
    ensures
        0 <= at <= sorted.len(),
        forall|j: int| 0 <= j < at ==> text_less(#[trigger] sorted[j], text),
        at < sorted.len() ==> text_less(text, sorted[at]),
    decreases sorted.len() - from,
{
    if from == sorted.len() {
        from
    } else {
        lemma_text_total(sorted[from], text);
        if text_less(text, sorted[from]) {
            from
        } else {
            lemma_place(sorted, text, from + 1)
        }
    }
}

/// Texts can be listed in order, each once, and the list is no longer than they are.
pub proof fn lemma_sorting_exists(texts: Seq<Seq<char>>) -> (sorted: Seq<Seq<char>>)
    ensures
        strictly_sorted(sorted),
        sorted.to_set() == texts.to_set(),
        sorted.len() <= texts.len(),
    decreases texts.len(),
{
    if texts.len() == 0 {
        texts
    } else {
        let shorter = texts.drop_last();
        let text = texts.last();
        let rest = lemma_sorting_exists(shorter);
        assert(texts =~= shorter.push(text));
        crate::sorted::lemma_push_to_set(shorter, text);
        assert(rest.contains(text) == rest.to_set().contains(text));
        if rest.contains(text) {
            assert(rest.to_set().insert(text) =~= rest.to_set());
            rest
        } else {
            let at = lemma_place(rest, text, 0);
            lemma_insert(rest, text, at);
            rest.insert(at, text)
        }
    }
}

/// Puts texts in order, each once.
pub fn sort_and_dedup(texts: Vec<String>) -> (sorted: Vec<String>)
    ensures
        strictly_sorted(seq_view(sorted@)),
        seq_view(sorted@).to_set() == seq_view(texts@).to_set(),
{
    let mut sorted: Vec<String> = Vec::new();
    let mut i: usize = 0;
    assert(seq_view(sorted@).to_set() =~= seq_view(texts@).subrange(0, 0).to_set());
    while i < texts.len()
        invariant
            i <= texts.len(),
            strictly_sorted(seq_view(sorted@)),
            seq_view(sorted@).to_set() =~= seq_view(texts@).subrange(0, i as int).to_set(),
        decreases texts.len() - i,
    {
        let ghost before = seq_view(sorted@).to_set();
        insert_sorted(&mut sorted, texts[i].copy());
        proof {
            let shorter = seq_view(texts@).subrange(0, i as int);
            let longer = seq_view(texts@).subrange(0, i + 1);
            assert(longer =~= shorter.push(texts@[i as int]@));
            assert forall|t: Seq<char>| longer.to_set().contains(t) <==> before.insert(
                texts@[i as int]@,
            ).contains(t) by {
                if shorter.contains(t) {
                    let j = choose|j: int| 0 <= j < shorter.len() && shorter[j] == t;
                    assert(longer[j] == t);
                }
                assert(longer[i as int] == texts@[i as int]@);
                if longer.contains(t) && t != texts@[i as int]@ {
                    let j = choose|j: int| 0 <= j < longer.len() && longer[j] == t;
                    assert(shorter[j] == t);
                }
            }
        }
        i = i + 1;
    }
    assert(seq_view(texts@).subrange(0, i as int) =~= seq_view(texts@));
    sorted
}

fn insert_sorted(sorted: &mut Vec<String>, text: String)
    requires
        strictly_sorted(seq_view(old(sorted)@)),
    ensures
        strictly_sorted(seq_view(final(sorted)@)),
        seq_view(final(sorted)@).to_set() == seq_view(old(sorted)@).to_set().insert(text@),
{
    let ghost before = seq_view(sorted@);
    let mut at: usize = 0;
    while at < sorted.len()
        invariant
            at <= sorted.len(),
            *sorted == *old(sorted),
            before == seq_view(sorted@),
            strictly_sorted(before),
            forall|j: int| 0 <= j < at ==> text_less(#[trigger] before[j], text@),
        decreases sorted.len() - at,
    {
        match compare_text(&sorted[at], &text) {
            Order::Less => {
                assert(before[at as int] == sorted@[at as int]@);
            },
            Order::Equal => {
                assert(before[at as int] == text@);
                assert(before.to_set().contains(text@));
                assert(before.to_set().insert(text@) =~= before.to_set());
                return ;
            },
            Order::Greater => {
                assert(text_less(text@, before[at as int]));
                proof {
                    lemma_insert(before, text@, at as int);
                }
                sorted.insert(at, text);
                assert(seq_view(sorted@) =~= before.insert(at as int, text@));
                return ;
            },
        }
        at = at + 1;
    }
    proof {
        lemma_insert(before, text@, at as int);
    }
    sorted.push(text);
    assert(seq_view(sorted@) =~= before.insert(at as int, text@));
}

proof fn lemma_insert(sorted: Seq<Seq<char>>, text: Seq<char>, at: int)
    requires
        strictly_sorted(sorted),
        0 <= at <= sorted.len(),
        forall|j: int| 0 <= j < at ==> text_less(#[trigger] sorted[j], text),
        at < sorted.len() ==> text_less(text, sorted[at]),
    ensures
        strictly_sorted(sorted.insert(at, text)),
        sorted.insert(at, text).to_set() =~= sorted.to_set().insert(text),
{
    let next = sorted.insert(at, text);
    assert forall|i: int, j: int| 0 <= i < j < next.len() implies text_less(
        #[trigger] next[i],
        #[trigger] next[j],
    ) by {
        let a = if i < at { i } else { i - 1 };
        let b = if j < at { j } else { j - 1 };
        if i == at {
            assert(next[j] == sorted[j - 1]);
            if j - 1 > at {
                assert(text_less(sorted[at], sorted[j - 1]));
                lemma_text_transitive(text, sorted[at], sorted[j - 1]);
            }
        } else if j == at {
            assert(next[i] == sorted[i]);
        } else {
            assert(next[i] == sorted[a] && next[j] == sorted[b]);
            assert(text_less(sorted[a], sorted[b]));
        }
    }
    assert forall|t: Seq<char>| next.to_set().contains(t) <==> sorted.to_set().insert(text).contains(
        t,
    ) by {
        if sorted.contains(t) {
            let i = choose|i: int| 0 <= i < sorted.len() && sorted[i] == t;
            let k = if i < at { i } else { i + 1 };
            assert(next[k] == t);
        }
        assert(next[at] == text);
        if next.contains(t) && t != text {
            let k = choose|k: int| 0 <= k < next.len() && next[k] == t;
            let i = if k < at { k } else { k - 1 };
            assert(sorted[i] == t);
        }
    }
}

} // verus!
