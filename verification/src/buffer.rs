//! The bounded in-memory entry buffer.
//!
//! Log entries accumulate here until a flush empties the buffer into the
//! active file. The fill never exceeds the configured capacity, with one
//! sanctioned exception: a single entry longer than the whole capacity may
//! sit alone in the buffer until the next flush.

use vstd::prelude::*;

verus! {

/// A fixed-capacity append buffer of log entry bytes.
pub struct EntryBuffer {
    data: Vec<u8>,
    capacity: usize,
    entries: Ghost<Seq<Seq<u8>>>,
}

impl EntryBuffer {
    /// The buffered bytes, in arrival order.
    pub closed spec fn bytes(self) -> Seq<u8> {
        self.data@
    }

    /// The buffered entries, in arrival order; their concatenation is
    /// `bytes()`.
    pub closed spec fn entry_list(self) -> Seq<Seq<u8>> {
        self.entries@
    }

    /// The configured capacity in bytes.
    pub closed spec fn cap(self) -> nat {
        self.capacity as nat
    }

    /// The buffer is the concatenation of its entries, and its fill respects
    /// the capacity unless a single oversized entry sits alone in it.
    pub closed spec fn wf(self) -> bool {
        &&& self.bytes() == self.entry_list().flatten()
        &&& (self.bytes().len() <= self.cap() || (self.entry_list().len() == 1
            && self.entry_list()[0].len() > self.cap()))
    }

    /// What well-formedness guarantees of the fill: it stays within the
    /// capacity, except when a single entry longer than the whole capacity
    /// sits alone in the buffer.
    pub proof fn lemma_capacity(self)
        requires
            self.wf(),
        ensures
            self.bytes().len() <= self.cap() || (self.entry_list().len() == 1
                && self.entry_list()[0].len() > self.cap()),
    {
    }

    /// An empty buffer with the given capacity.
    pub fn new(capacity: usize) -> (b: EntryBuffer)
        ensures
            b.wf(),
            b.cap() == capacity,
            b.bytes() == Seq::<u8>::empty(),
            b.entry_list() == Seq::<Seq<u8>>::empty(),
    {
        let b = EntryBuffer { data: Vec::new(), capacity, entries: Ghost(Seq::empty()) };
        proof {
            assert(b.entry_list().flatten() =~= Seq::<u8>::empty());
        }
        b
    }

    /// The current fill in bytes.
    pub fn fill(&self) -> (r: usize)
        ensures
            r == self.bytes().len(),
    {
        self.data.len()
    }

    /// How many more bytes fit before the capacity is reached.
    pub fn remaining_capacity(&self) -> (r: usize)
        ensures
            r == if self.bytes().len() >= self.cap() {
                0int
            } else {
                self.cap() - self.bytes().len()
            },
    {
        if self.data.len() >= self.capacity {
            0
        } else {
            self.capacity - self.data.len()
        }
    }

    /// Whether appending `len` more bytes would push the fill past the
    /// capacity.
    pub fn would_overflow(&self, len: usize) -> (r: bool)
        ensures
            r == (self.bytes().len() + len > self.cap()),
    {
        if self.data.len() > self.capacity {
            true
        } else {
            len > self.capacity - self.data.len()
        }
    }

    /// Appends one entry. The caller either stays within capacity or hands
    /// an entry to a freshly emptied buffer, which is how a single oversized
    /// entry is admitted.
    pub fn append(&mut self, entry: &Vec<u8>)
        requires
            old(self).wf(),
            old(self).bytes().len() + entry@.len() <= old(self).cap() || old(self).entry_list()
                == Seq::<Seq<u8>>::empty(),
        ensures
            final(self).wf(),
            final(self).cap() == old(self).cap(),
            final(self).bytes() == old(self).bytes() + entry@,
            final(self).entry_list() == old(self).entry_list().push(entry@),
    {
        crate::names::push_all(&mut self.data, entry);
        proof {
            self.entries@ = self.entries@.push(entry@);
            vstd::seq_lib::lemma_flatten_concat(old(self).entry_list(), seq![entry@]);
            assert(old(self).entry_list() + seq![entry@] =~= self.entries@);
            assert(seq![entry@].flatten() =~= entry@) by {
                seq![entry@].lemma_flatten_one_element();
            }
            if old(self).entry_list() == Seq::<Seq<u8>>::empty() {
                assert(old(self).bytes().len() == 0);
            }
        }
    }

    /// Takes the buffered bytes out, leaving the buffer empty. This is the
    /// flush: the returned bytes are exactly what was buffered.
    pub fn take_and_clear(&mut self) -> (r: Vec<u8>)
        requires
            old(self).wf(),
        ensures
            final(self).wf(),
            final(self).cap() == old(self).cap(),
            r@ == old(self).bytes(),
            final(self).bytes() == Seq::<u8>::empty(),
            final(self).entry_list() == Seq::<Seq<u8>>::empty(),
    {
        let mut out: Vec<u8> = Vec::new();
        core::mem::swap(&mut self.data, &mut out);
        proof {
            self.entries@ = Seq::empty();
            assert(self.entry_list().flatten() =~= Seq::<u8>::empty());
        }
        out
    }
}

} // verus!
