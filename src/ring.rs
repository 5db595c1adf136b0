//! The ring log: a fixed number of message slots written in a circle, where
//! each append overwrites the oldest slot.

use vstd::prelude::*;
use crate::listing::{listing, render};

verus! {

/// A message as the contracts see it: its key and its value.
pub type Entry = (Seq<char>, Seq<char>);

/// One stored message.
pub struct Message {
    pub key: String,
    pub value: String,
}

impl View for Message {
    type V = Entry;

    open spec fn view(&self) -> Entry {
        (self.key@, self.value@)
    }
}

impl Message {
    /// A copy of the message.
    pub fn duplicate(&self) -> (r: Message)
        ensures
            r@ == self@,
    {
        Message { key: self.key.clone(), value: self.value.clone() }
    }
}

/// The placeholder that fills every slot of a new log.
pub open spec fn blank() -> Entry {
    (Seq::empty(), Seq::empty())
}

/// Number of bytes of the UTF-8 encoding of `s`.
pub open spec fn byte_len(s: Seq<char>) -> nat {
    vstd::utf8::encode_utf8(s).len()
}

/// The slot index `steps` places after `start`, going round a circle of `cap` slots.
pub open spec fn wrap(start: int, steps: int, cap: int) -> int {
    if start + steps < cap {
        start + steps
    } else {
        start + steps - cap
    }
}

/// The slots after an append of `e`: the oldest leaves, `e` comes last.
pub open spec fn appended(v: Seq<Entry>, e: Entry) -> Seq<Entry> {
    v.drop_first().push(e)
}

/// What a scan from `marker` yields: the slots from the first one at
/// position `j` or later whose key is `marker`, to the newest; nothing where
/// no such slot exists.
pub open spec fn marked_suffix(v: Seq<Entry>, marker: Seq<char>, j: int) -> Seq<Entry>
    decreases v.len() - j,
{
    if j < 0 || j >= v.len() {
        Seq::empty()
    } else if v[j].0 == marker {
        v.subrange(j, v.len() as int)
    } else {
        marked_suffix(v, marker, j + 1)
    }
}

/// The slots returned for `marker`: the scan starts after the oldest slot,
/// which is never compared with the marker.
pub open spec fn from_marker(v: Seq<Entry>, marker: Seq<char>) -> Seq<Entry> {
    marked_suffix(v, marker, 1)
}

/// A fixed-capacity circular log of messages.
pub struct Queue {
    messages: Vec<Message>,
    max_message_len: usize,
    end_index: usize,
}

impl View for Queue {
    type V = Seq<Entry>;

    /// The slots from the oldest to the newest.
    closed spec fn view(&self) -> Seq<Entry> {
        Seq::new(
            self.messages@.len(),
            |i: int| self.messages@[wrap(self.oldest(), i, self.messages@.len() as int)]@,
        )
    }
}

impl Queue {
    /// Index of the oldest slot: the one after the most recently written.
    closed spec fn oldest(&self) -> int {
        wrap(self.end_index as int, 1, self.messages@.len() as int)
    }

    /// Number of slots.
    pub closed spec fn capacity(&self) -> nat {
        self.messages@.len()
    }

    /// Bound on the byte length of a value: an accepted value is shorter.
    pub closed spec fn max_len(&self) -> nat {
        self.max_message_len as nat
    }

    /// The log has at least one slot and its cursor is one of them.
    pub closed spec fn wf(&self) -> bool {
        &&& self.messages@.len() >= 1
        &&& self.end_index < self.messages@.len()
    }

    /// A well-formed log shows one entry per slot.
    pub proof fn lemma_view_len(&self)
        requires
            self.wf(),
        ensures
            self@.len() == self.capacity(),
    {
    }

    /// A log of `len` blank slots that accepts values shorter than
    /// `max_message_len` bytes.
    pub fn new(len: usize, max_message_len: usize) -> (r: Queue)
        requires
            len >= 1,
        ensures
            r.wf(),
            r.capacity() == len,
            r.max_len() == max_message_len,
            r@ == Seq::new(len as nat, |i: int| blank()),
    {
        let mut messages: Vec<Message> = Vec::new();
        while messages.len() < len
            invariant
                messages@.len() <= len,
                forall|j: int| 0 <= j < messages@.len() ==> #[trigger] messages@[j]@ == blank(),
            decreases len - messages@.len(),
        {
            messages.push(Message { key: String::new(), value: String::new() });
        }
        let r = Queue { messages, max_message_len, end_index: 0 };
        assert(r@ =~= Seq::new(len as nat, |i: int| blank()));
        r
    }

    /// Stores `key` and `value` in place of the oldest slot, unless `value`
    /// has `max_len()` bytes or more: then the log stays as it was.
    pub fn push(&mut self, key: String, value: String) -> (r: Result<(), ()>)
        requires
            old(self).wf(),
        ensures
            final(self).wf(),
            final(self).capacity() == old(self).capacity(),
            final(self).max_len() == old(self).max_len(),
            r is Err <==> byte_len(value@) >= old(self).max_len(),
            r is Err ==> final(self)@ == old(self)@,
            r is Ok ==> final(self)@ == appended(old(self)@, (key@, value@)),
    {
        if value.as_str().as_bytes().len() >= self.max_message_len {
            return Err(());
        }
        let ghost before = self@;
        let cap = self.messages.len();
        let next = if self.end_index + 1 < cap {
            self.end_index + 1
        } else {
            0
        };
        self.messages.set(next, Message { key, value });
        self.end_index = next;
        assert(self@ =~= appended(before, (key@, value@)));
        Ok(())
    }

    /// The index that follows `index` round the circle.
    fn step(&self, index: usize) -> (r: usize)
        requires
            self.wf(),
            index < self.messages@.len(),
        ensures
            r == wrap(index as int, 1, self.messages@.len() as int),
    {
        if index < self.messages.len() - 1 {
            index + 1
        } else {
            0
        }
    }

    /// Every slot, from the oldest to the newest.
    pub fn snapshot_all(&self) -> (r: Vec<Message>)
        requires
            self.wf(),
        ensures
            r@.len() == self.capacity(),
            r@.map_values(|m: Message| m@) == self@,
    {
        let cap = self.messages.len();
        let mut out: Vec<Message> = Vec::new();
        let mut index = self.step(self.end_index);
        let mut t: usize = 0;
        while t < cap
            invariant
                self.wf(),
                cap == self.messages@.len(),
                t <= cap,
                index < cap,
                t < cap ==> index == wrap(self.oldest(), t as int, cap as int),
                out@.len() == t,
                forall|j: int| 0 <= j < t ==> #[trigger] out@[j]@ == self@[j],
            decreases cap - t,
        {
            assert(self@[t as int] == self.messages@[index as int]@);
            out.push(self.messages[index].duplicate());
            if t + 1 < cap {
                index = self.step(index);
            }
            t = t + 1;
        }
        assert(out@.map_values(|m: Message| m@) =~= self@);
        out
    }

    /// The slots from the first one whose key is `marker` to the newest,
    /// leaving out the oldest slot, which is never compared with `marker`;
    /// empty where no other slot has that key.
    pub fn snapshot_from(&self, marker: &str) -> (r: Vec<Message>)
        requires
            self.wf(),
        ensures
            r@.map_values(|m: Message| m@) == from_marker(self@, marker@),
    {
        let cap = self.messages.len();
        let wanted = marker.to_owned();
        let mut index = self.step(self.end_index);
        let mut t: usize = 0;
        let mut found = false;
        while t + 1 < cap && !found
            invariant
                self.wf(),
                cap == self.messages@.len(),
                t < cap,
                index < cap,
                index == wrap(self.oldest(), t as int, cap as int),
                wanted@ == marker@,
                !found ==> from_marker(self@, marker@) == marked_suffix(self@, marker@, t + 1),
                found ==> t >= 1 && from_marker(self@, marker@) == self@.subrange(t as int, cap as int),
            decreases cap - t,
        {
            index = self.step(index);
            t = t + 1;
            if self.messages[index].key == wanted {
                found = true;
            }
        }
        let mut out: Vec<Message> = Vec::new();
        if !found {
            assert(out@.map_values(|m: Message| m@) =~= from_marker(self@, marker@));
            return out;
        }
        let first = t;
        while t < cap
            invariant
                self.wf(),
                cap == self.messages@.len(),
                1 <= first <= t <= cap,
                index < cap,
                t < cap ==> index == wrap(self.oldest(), t as int, cap as int),
                from_marker(self@, marker@) == self@.subrange(first as int, cap as int),
                out@.len() == t - first,
                forall|j: int| 0 <= j < t - first ==> #[trigger] out@[j]@ == self@[first + j],
            decreases cap - t,
        {
            assert(self@[t as int] == self.messages@[index as int]@);
            out.push(self.messages[index].duplicate());
            if t + 1 < cap {
                index = self.step(index);
            }
            t = t + 1;
        }
        assert(out@.map_values(|m: Message| m@) =~= from_marker(self@, marker@));
        out
    }

    /// The listing of every slot, from the oldest to the newest.
    pub fn get_all(&self) -> (r: String)
        requires
            self.wf(),
        ensures
            r@ == listing(self@),
    {
        render(&self.snapshot_all())
    }

    /// The listing of what `snapshot_from(marker)` returns.
    pub fn get_from(&self, marker: &str) -> (r: String)
        requires
            self.wf(),
        ensures
            r@ == listing(from_marker(self@, marker@)),
    {
        render(&self.snapshot_from(marker))
    }
}

} // verus!
