//! Messages that wait for the homes of their shards.
use vstd::prelude::*;

use crate::keymap::seq_view;
use crate::region::{payload_len, BufferedMessage, MessageModel};
use crate::selection::{marked, split_marked};
use crate::time::MonotonicTime;
use crate::types::ShardId;

verus! {

/// A message that waits for the home of a shard.
#[derive(Debug)]
pub struct Waiting {
    pub shard_id: ShardId,
    pub message: BufferedMessage,
}

pub struct WaitingModel {
    pub shard_id: ShardId,
    pub message: MessageModel,
}

impl View for Waiting {
    type V = WaitingModel;

    open spec fn view(&self) -> WaitingModel {
        WaitingModel { shard_id: self.shard_id, message: self.message@ }
    }
}

/// The number of payload bytes of some waiting messages.
pub open spec fn payload_bytes(waiting: Seq<WaitingModel>) -> nat
    decreases waiting.len(),
{
    if waiting.len() == 0 {
        0
    } else {
        payload_bytes(waiting.drop_last()) + waiting.last().message.payload.len()
    }
}

/// Which of some waiting messages wait for a shard.
pub open spec fn for_shard(waiting: Seq<WaitingModel>, shard_id: ShardId) -> Seq<bool> {
    Seq::new(waiting.len(), |i: int| waiting[i].shard_id == shard_id)
}

/// A message stays if it, or one ahead of it for the same shard, has not yet expired.
pub open spec fn stays(waiting: Seq<WaitingModel>, now: MonotonicTime, at: int) -> bool {
    exists|i: int|
        0 <= i <= at && (#[trigger] waiting[i]).shard_id == waiting[at].shard_id
            && waiting[i].message.expires_at.0 > now.0
}

/// Which of some waiting messages stay: a queue loses what has expired at its front.
pub open spec fn staying(waiting: Seq<WaitingModel>, now: MonotonicTime) -> Seq<bool> {
    Seq::new(waiting.len(), |i: int| stays(waiting, now, i))
}

/// The messages that some entries hold.
pub open spec fn messages_of(waiting: Seq<WaitingModel>) -> Seq<MessageModel> {
    waiting.map_values(|entry: WaitingModel| entry.message)
}

/// Choosing by marks and viewing commute.
proof fn lemma_marked_view(items: Seq<Waiting>, marks: Seq<bool>, wanted: bool)
    ensures
        seq_view(marked(items, marks, wanted)) == marked(seq_view(items), marks, wanted),
    decreases items.len(),
{
    if items.len() == 0 {
        assert(seq_view(marked(items, marks, wanted)) =~= marked(seq_view(items), marks, wanted));
    } else {
        lemma_marked_view(items.drop_last(), marks, wanted);
        assert(seq_view(items).drop_last() =~= seq_view(items.drop_last()));
        assert(seq_view(marked(items, marks, wanted)) =~= marked(seq_view(items), marks, wanted));
    }
}

/// The two halves of a split hold all payload bytes together.
pub proof fn lemma_marked_bytes(waiting: Seq<WaitingModel>, marks: Seq<bool>)
    ensures
        payload_bytes(marked(waiting, marks, true)) + payload_bytes(marked(waiting, marks, false))
            == payload_bytes(waiting),
    decreases waiting.len(),
{
    if waiting.len() > 0 {
        let rest = waiting.drop_last();
        lemma_marked_bytes(rest, marks);
        let wanted = marks[waiting.len() - 1];
        let chosen = marked(waiting, marks, wanted);
        assert(chosen.drop_last() =~= marked(rest, marks, wanted));
    }
}

proof fn lemma_prefix_bytes(waiting: Seq<WaitingModel>, n: int)
    requires
        0 <= n <= waiting.len(),
    ensures
        payload_bytes(waiting.subrange(0, n)) <= payload_bytes(waiting),
    decreases waiting.len(),
{
    if n < waiting.len() {
        lemma_prefix_bytes(waiting.drop_last(), n);
        assert(waiting.drop_last().subrange(0, n) =~= waiting.subrange(0, n));
    } else {
        assert(waiting.subrange(0, n) =~= waiting);
    }
}

fn total_payload(items: &Vec<Waiting>) -> (total: usize)
    requires
        payload_bytes(seq_view(items@)) <= usize::MAX,
    ensures
        total == payload_bytes(seq_view(items@)),
{
    let ghost waiting = seq_view(items@);
    let mut total: usize = 0;
    let mut i: usize = 0;
    while i < items.len()
        invariant
            i <= items.len(),
            waiting == seq_view(items@),
            payload_bytes(waiting) <= usize::MAX,
            total == payload_bytes(waiting.subrange(0, i as int)),
        decreases items.len() - i,
    {
        proof {
            lemma_prefix_bytes(waiting, i + 1);
            let longer = waiting.subrange(0, i + 1);
            assert(longer.drop_last() =~= waiting.subrange(0, i as int));
            assert(longer.last() == items@[i as int]@);
        }
        total = total + payload_len(&items[i].message.payload);
        i = i + 1;
    }
    assert(waiting.subrange(0, i as int) =~= waiting);
    total
}

/// The waiting messages, in the order in which they came.
#[derive(Debug)]
pub struct WaitingRoom {
    items: Vec<Waiting>,
    bytes: usize,
}

impl View for WaitingRoom {
    type V = Seq<WaitingModel>;

    closed spec fn view(&self) -> Seq<WaitingModel> {
        seq_view(self.items@)
    }
}

impl WaitingRoom {
    #[verifier::type_invariant]
    spec fn is_counted(self) -> bool {
        self.bytes == payload_bytes(seq_view(self.items@))
    }

    pub fn new() -> (room: Self)
        ensures
            room@ == Seq::<WaitingModel>::empty(),
    {
        let room = WaitingRoom { items: Vec::new(), bytes: 0 };
        assert(room@ =~= Seq::<WaitingModel>::empty());
        room
    }

    /// How many messages wait.
    pub fn len(&self) -> (len: usize)
        ensures
            len == self@.len(),
    {
        self.items.len()
    }

    /// How many payload bytes wait.
    pub fn bytes(&self) -> (bytes: usize)
        ensures
            bytes == payload_bytes(self@),
    {
        proof {
            use_type_invariant(&*self);
        }
        self.bytes
    }

    pub fn push(&mut self, shard_id: ShardId, message: BufferedMessage)
        requires
            payload_bytes(old(self)@) + message@.payload.len() <= usize::MAX,
        ensures
            final(self)@ == old(self)@.push(WaitingModel { shard_id, message: message@ }),
    {
        proof {
            use_type_invariant(&*self);
        }
        let ghost before = self@;
        let added = payload_len(&message.payload);
        let mut room = WaitingRoom::new();
        std::mem::swap(&mut room, self);
        let WaitingRoom { mut items, bytes } = room;
        let ghost entry = WaitingModel { shard_id, message: message@ };
        items.push(Waiting { shard_id, message });
        proof {
            assert(seq_view(items@) =~= before.push(entry));
            assert(before.push(entry).drop_last() =~= before);
        }
        *self = WaitingRoom { items, bytes: bytes + added };
    }

    fn split(&mut self, marks: &Vec<bool>) -> (taken: Vec<Waiting>)
        requires
            marks.len() == old(self)@.len(),
        ensures
            final(self)@ == marked(old(self)@, marks@, true),
            seq_view(taken@) == marked(old(self)@, marks@, false),
    {
        proof {
            use_type_invariant(&*self);
        }
        let ghost before = self@;
        let mut room = WaitingRoom::new();
        std::mem::swap(&mut room, self);
        let WaitingRoom { items, bytes } = room;
        proof {
            lemma_marked_view(items@, marks@, true);
            lemma_marked_view(items@, marks@, false);
            lemma_marked_bytes(before, marks@);
        }
        let (kept, taken) = split_marked(items, marks);
        let lost = total_payload(&taken);
        *self = WaitingRoom { items: kept, bytes: bytes - lost };
        taken
    }

    /// Drops the messages that have expired at the front of the queue of their shard.
    pub fn expire(&mut self, now: MonotonicTime)
        ensures
            final(self)@ == marked(old(self)@, staying(old(self)@, now), true),
    {
        let mut marks: Vec<bool> = Vec::new();
        let ghost waiting = self@;
        let mut i: usize = 0;
        while i < self.items.len()
            invariant
                i <= self.items.len(),
                marks.len() == i,
                waiting == self@,
                *self == *old(self),
                forall|j: int| 0 <= j < i ==> #[trigger] marks@[j] == stays(waiting, now, j),
            decreases self.items.len() - i,
        {
            let shard_id = self.items[i].shard_id;
            let mut found: bool = false;
            let mut j: usize = 0;
            while j <= i && !found
                invariant
                    i < self.items.len(),
                    j <= i + 1,
                    waiting == self@,
                    *self == *old(self),
                    shard_id == waiting[i as int].shard_id,
                    found ==> stays(waiting, now, i as int),
                    !found ==> forall|k: int|
                        0 <= k < j ==> !((#[trigger] waiting[k]).shard_id == shard_id
                            && waiting[k].message.expires_at.0 > now.0),
                decreases i + 1 - j,
            {
                let entry = &self.items[j];
                assert(waiting[j as int] == entry@);
                if entry.shard_id == shard_id && entry.message.expires_at.0 > now.0 {
                    found = true;
                }
                j = j + 1;
            }
            marks.push(found);
            i = i + 1;
        }
        assert(marks@ =~= staying(waiting, now));
        let _ = self.split(&marks);
    }

    /// Takes the messages that wait for a shard, in the order in which they came.
    pub fn take(&mut self, shard_id: ShardId) -> (messages: Vec<BufferedMessage>)
        ensures
            final(self)@ == marked(old(self)@, for_shard(old(self)@, shard_id), false),
            seq_view(messages@) == messages_of(
                marked(old(self)@, for_shard(old(self)@, shard_id), true),
            ),
    {
        let ghost waiting = self@;
        let mut marks: Vec<bool> = Vec::new();
        let mut i: usize = 0;
        while i < self.items.len()
            invariant
                i <= self.items.len(),
                marks.len() == i,
                waiting == self@,
                *self == *old(self),
                forall|j: int|
                    0 <= j < i ==> #[trigger] marks@[j] != (waiting[j].shard_id == shard_id),
            decreases self.items.len() - i,
        {
            marks.push(!(self.items[i].shard_id == shard_id));
            i = i + 1;
        }
        proof {
            lemma_marked_opposite(waiting, marks@, for_shard(waiting, shard_id), true);
            lemma_marked_opposite(waiting, marks@, for_shard(waiting, shard_id), false);
        }
        let taken = self.split(&marks);
        strip(taken)
    }
}

/// Opposite marks choose opposite halves.
proof fn lemma_marked_opposite(
    waiting: Seq<WaitingModel>,
    marks: Seq<bool>,
    opposite: Seq<bool>,
    wanted: bool,
)
    requires
        forall|i: int| 0 <= i < waiting.len() ==> #[trigger] marks[i] != opposite[i],
    ensures
        marked(waiting, marks, wanted) == marked(waiting, opposite, !wanted),
    decreases waiting.len(),
{
    if waiting.len() > 0 {
        lemma_marked_opposite(waiting.drop_last(), marks, opposite, wanted);
        assert(marks[waiting.len() - 1] != opposite[waiting.len() - 1]);
    }
}

fn strip(items: Vec<Waiting>) -> (messages: Vec<BufferedMessage>)
    ensures
        seq_view(messages@) == messages_of(seq_view(items@)),
{
    let mut items = items;
    let ghost all = items@;
    let mut reversed: Vec<BufferedMessage> = Vec::new();
    while items.len() > 0
        invariant
            items@.len() + reversed@.len() == all.len(),
            items@ == all.subrange(0, items@.len() as int),
            forall|j: int|
                0 <= j < reversed@.len() ==> reversed@[j] == all[all.len() - 1 - j].message,
        decreases items.len(),
    {
        match items.pop() {
            Some(item) => {
                let Waiting { shard_id: _, message } = item;
                reversed.push(message);
            },
            None => {},
        }
    }
    let mut messages: Vec<BufferedMessage> = Vec::new();
    while reversed.len() > 0
        invariant
            messages@.len() + reversed@.len() == all.len(),
            forall|j: int|
                0 <= j < reversed@.len() ==> reversed@[j] == all[all.len() - 1 - j].message,
            forall|j: int| 0 <= j < messages@.len() ==> messages@[j] == all[j].message,
        decreases reversed.len(),
    {
        match reversed.pop() {
            Some(message) => {
                messages.push(message);
            },
            None => {},
        }
    }
    assert(seq_view(messages@) =~= messages_of(seq_view(all)));
    messages
}

} // verus!
