//! Bounded ring with a sequence number per position, after Vyukov's
//! multi-producer multi-consumer queue.
//!
//! The producer counter counts every slot ever pushed and the consumer
//! counter every slot ever popped; slot `c` of the stream lives at position
//! `c % capacity`. A position's sequence number tells which turn it is at:
//! the counter `c` of the next push that may use it while it is free, and
//! `c + 1` once that push has stored its slot. A push stores its slot when
//! its position is free for its counter and the ring has room; a pop reads
//! its position when it holds the slot of its counter, and then frees the
//! position for the counter one lap later. A push or pop that finds nothing
//! to do leaves the ring as it was.
use vstd::prelude::*;
use vstd::arithmetic::div_mod::{lemma_mod_add_multiples_vanish, lemma_small_mod};
use super::Slot;
use super::spsc::{is_pow2, lemma_mask_mod, lemma_mod_distinct, lemma_pow2_positive};

verus! {

/// Bytes taken by the ring's header: the two cache-line sized counters, the
/// capacity and the mask, rounded up to the 64-byte alignment.
pub const MPMC_HEADER_SIZE: usize = 192;
/// Bytes taken by one position: its sequence number and its slot.
pub const MPMC_SLOT_SIZE: usize = 24;

/// The sequence number of the position that stream counter `c` uses.
pub open spec fn seq_at(seqs: Seq<u64>, capacity: u64, c: int) -> int {
    seqs[c % (capacity as int)] as int
}

/// A bounded ring with a sequence number per position.
pub struct MpmcRing {
    head: u64,
    tail: u64,
    capacity: u64,
    mask: u64,
    seqs: Vec<u64>,
    slots: Vec<Slot>,
}

impl View for MpmcRing {
    type V = Seq<Slot>;

    /// The queued slots, oldest first.
    closed spec fn view(&self) -> Seq<Slot> {
        Seq::new(
            (self.head - self.tail) as nat,
            |k: int| self.slots@[(self.tail + k) % (self.capacity as int)],
        )
    }
}

impl MpmcRing {
    /// The ring's invariant: a power-of-two capacity with its mask, one
    /// sequence number and one slot per position, at most `capacity` slots
    /// queued, counters that leave room for one more lap, and the sequence
    /// number of each position telling whether the slot of its turn is
    /// stored.
    pub closed spec fn wf(&self) -> bool {
        &&& is_pow2(self.capacity)
        &&& self.mask == self.capacity - 1
        &&& MPMC_HEADER_SIZE + self.capacity * MPMC_SLOT_SIZE <= usize::MAX
        &&& self.seqs@.len() == self.capacity
        &&& self.slots@.len() == self.capacity
        &&& self.tail <= self.head <= self.tail + self.capacity
        &&& self.head + self.capacity <= u64::MAX
        &&& forall|c: int| self.tail <= c < self.tail + self.capacity ==>
            #[trigger] seq_at(self.seqs@, self.capacity, c) == (if c < self.head { c + 1 } else { c })
    }

    /// The capacity the ring was made with.
    pub closed spec fn cap(&self) -> u64 {
        self.capacity
    }

    /// How many slots were ever pushed.
    pub closed spec fn pushed(&self) -> u64 {
        self.head
    }

    /// How many slots were ever popped.
    pub closed spec fn popped(&self) -> u64 {
        self.tail
    }

    /// Bytes needed for a ring of `capacity` positions.
    pub fn size_for_capacity(capacity: u64) -> (r: usize)
        requires
            is_pow2(capacity),
            MPMC_HEADER_SIZE + capacity * MPMC_SLOT_SIZE <= usize::MAX,
        ensures
            r == MPMC_HEADER_SIZE + capacity * MPMC_SLOT_SIZE,
    {
        MPMC_HEADER_SIZE + (capacity as usize) * MPMC_SLOT_SIZE
    }

    /// An empty ring: both counters at zero and position `i` with sequence
    /// number `i` and an empty slot.
    pub fn init(capacity: u64) -> (r: MpmcRing)
        requires
            is_pow2(capacity),
            MPMC_HEADER_SIZE + capacity * MPMC_SLOT_SIZE <= usize::MAX,
        ensures
            r.wf(),
            r@ == Seq::<Slot>::empty(),
            r.cap() == capacity,
            r.pushed() == 0,
            r.popped() == 0,
    {
        let mut seqs: Vec<u64> = Vec::new();
        let mut slots: Vec<Slot> = Vec::new();
        let mut i: u64 = 0;
        while i < capacity
            invariant
                i <= capacity,
                seqs@.len() == i,
                slots@.len() == i,
                forall|j: int| 0 <= j < i ==> seqs@[j] == j,
            decreases capacity - i,
        {
            seqs.push(i);
            slots.push(Slot::empty());
            i = i + 1;
        }
        proof {
            lemma_pow2_positive(capacity);
            assert forall|c: int| 0 <= c < capacity implies #[trigger] seq_at(seqs@, capacity, c) == c by {
                lemma_small_mod(c as nat, capacity as nat);
            }
        }
        let r = MpmcRing { head: 0, tail: 0, capacity, mask: capacity - 1, seqs, slots };
        assert(r@ =~= Seq::<Slot>::empty());
        r
    }

    /// The producer counter: how many slots were ever pushed.
    pub fn head(&self) -> (r: u64)
        ensures
            r == self.pushed(),
    {
        self.head
    }

    /// Appends `data` when the ring has room; returns whether it did. A
    /// refused push leaves the ring as it was.
    pub fn try_push(&mut self, data: Slot) -> (r: bool)
        requires
            old(self).wf(),
            old(self).pushed() + old(self).cap() < u64::MAX,
        ensures
            final(self).wf(),
            r == (old(self)@.len() < old(self).cap()),
            r ==> final(self)@ == old(self)@.push(data),
            r ==> final(self).pushed() == old(self).pushed() + 1,
            !r ==> final(self)@ == old(self)@,
            !r ==> final(self).pushed() == old(self).pushed(),
            final(self).popped() == old(self).popped(),
            final(self).cap() == old(self).cap(),
    {
        let head = self.head;
        let tail = self.tail;
        if head - tail >= self.capacity {
            return false;
        }
        let slot_idx = head & self.mask;
        proof {
            lemma_mask_mod(head, self.capacity, self.mask);
            assert(slot_idx < self.seqs.len());
            assert(seq_at(self.seqs@, self.capacity, head as int) == head);
        }
        let seq = self.seqs[slot_idx as usize];
        if seq != head {
            return false;
        }
        let ghost before = self@;
        let ghost old_slots = self.slots@;
        let ghost old_seqs = self.seqs@;
        let ghost c = self.capacity as int;
        self.slots.set(slot_idx as usize, data);
        self.seqs.set(slot_idx as usize, head + 1);
        self.head = head + 1;
        proof {
            assert forall|k: int| tail <= k < tail + c implies
                #[trigger] seq_at(self.seqs@, self.capacity, k) == (if k < self.head { k + 1 } else { k }) by {
                if k != head {
                    if k < head {
                        lemma_mod_distinct(k, head as int, c);
                    } else {
                        lemma_mod_distinct(head as int, k, c);
                    }
                    assert(seq_at(old_seqs, self.capacity, k) == (if k < head { k + 1 } else { k }));
                }
            }
            assert forall|k: int| 0 <= k < before.len() implies #[trigger] self@[k] == before[k] by {
                lemma_mod_distinct(tail + k, head as int, c);
                let j = (tail + k) % c;
                assert(self.slots@[j] == old_slots[j]);
            }
            assert((tail + before.len()) % c == (head as int) % c);
            assert(self@ =~= before.push(data));
        }
        true
    }

    /// Appends `data`; the ring must have room.
    pub fn push(&mut self, data: Slot)
        requires
            old(self).wf(),
            old(self)@.len() < old(self).cap(),
            old(self).pushed() + old(self).cap() < u64::MAX,
        ensures
            final(self).wf(),
            final(self)@ == old(self)@.push(data),
            final(self).pushed() == old(self).pushed() + 1,
            final(self).popped() == old(self).popped(),
            final(self).cap() == old(self).cap(),
    {
        self.try_push(data);
    }

    /// Removes and returns the oldest slot, or `None` when the ring is
    /// empty, which leaves the ring as it was.
    pub fn try_pop(&mut self) -> (r: Option<Slot>)
        requires
            old(self).wf(),
        ensures
            final(self).wf(),
            old(self)@.len() == 0 ==> r is None && final(self)@ == old(self)@
                && final(self).popped() == old(self).popped(),
            old(self)@.len() > 0 ==> r == Some(old(self)@[0]) && final(self)@ == old(self)@.drop_first()
                && final(self).popped() == old(self).popped() + 1,
            final(self).pushed() == old(self).pushed(),
            final(self).cap() == old(self).cap(),
    {
        let tail = self.tail;
        let head = self.head;
        let slot_idx = tail & self.mask;
        proof {
            lemma_mask_mod(tail, self.capacity, self.mask);
            lemma_pow2_positive(self.capacity);
            assert(slot_idx < self.seqs.len());
            assert(seq_at(self.seqs@, self.capacity, tail as int) == (if tail < head { tail + 1 } else { tail as int }));
        }
        let seq = self.seqs[slot_idx as usize];
        if seq != tail + 1 {
            return None;
        }
        let ghost before = self@;
        let ghost old_slots = self.slots@;
        let ghost old_seqs = self.seqs@;
        let ghost c = self.capacity as int;
        let data = self.slots[slot_idx as usize];
        self.seqs.set(slot_idx as usize, tail + self.capacity);
        self.tail = tail + 1;
        proof {
            assert forall|k: int| self.tail <= k < self.tail + c implies
                #[trigger] seq_at(self.seqs@, self.capacity, k) == (if k < head { k + 1 } else { k }) by {
                if k < tail + c {
                    lemma_mod_distinct(tail as int, k, c);
                    assert(seq_at(old_seqs, self.capacity, k) == (if k < head { k + 1 } else { k }));
                } else {
                    lemma_mod_add_multiples_vanish(tail as int, c);
                }
            }
            assert(before[0] == old_slots[(tail + 0) % c]);
            assert forall|k: int| 0 <= k < before.len() - 1 implies #[trigger] self@[k] == before[k + 1] by {
                assert(before[k + 1] == old_slots[(tail + (k + 1)) % c]);
                assert(self@[k] == self.slots@[(tail + 1 + k) % c]);
            }
            assert(self@ =~= before.drop_first());
        }
        Some(data)
    }

    /// Removes and returns the oldest slot; the ring must not be empty.
    pub fn pop(&mut self) -> (r: Slot)
        requires
            old(self).wf(),
            old(self)@.len() > 0,
        ensures
            final(self).wf(),
            r == old(self)@[0],
            final(self)@ == old(self)@.drop_first(),
            final(self).popped() == old(self).popped() + 1,
            final(self).pushed() == old(self).pushed(),
            final(self).cap() == old(self).cap(),
    {
        match self.try_pop() {
            Some(s) => s,
            None => Slot::empty(),
        }
    }

    /// The number of queued slots.
    pub fn len(&self) -> (r: u64)
        requires
            self.wf(),
        ensures
            r == self@.len(),
    {
        self.head.saturating_sub(self.tail)
    }

    pub fn is_empty(&self) -> (r: bool)
        requires
            self.wf(),
        ensures
            r == (self@.len() == 0),
    {
        self.len() == 0
    }

    pub fn is_full(&self) -> (r: bool)
        requires
            self.wf(),
        ensures
            r == (self@.len() >= self.cap()),
    {
        self.len() >= self.capacity
    }

    pub fn capacity(&self) -> (r: u64)
        ensures
            r == self.cap(),
    {
        self.capacity
    }
}

/// Owns an MPMC ring.
pub struct MpmcRingBuffer {
    ring: MpmcRing,
}

impl MpmcRingBuffer {
    /// The ring this buffer owns.
    pub closed spec fn inner(&self) -> MpmcRing {
        self.ring
    }

    /// A buffer holding an empty ring of `capacity` positions.
    pub fn new(capacity: u64) -> (r: MpmcRingBuffer)
        requires
            is_pow2(capacity),
            MPMC_HEADER_SIZE + capacity * MPMC_SLOT_SIZE <= usize::MAX,
        ensures
            r.inner().wf(),
            r.inner()@ == Seq::<Slot>::empty(),
            r.inner().cap() == capacity,
            r.inner().pushed() == 0,
            r.inner().popped() == 0,
    {
        MpmcRingBuffer { ring: MpmcRing::init(capacity) }
    }

    pub fn ring(&self) -> (r: &MpmcRing)
        ensures
            *r == self.inner(),
    {
        &self.ring
    }

    pub fn ring_mut(&mut self) -> (r: &mut MpmcRing)
        ensures
            *r == old(self).inner(),
            final(self).inner() == *final(r),
    {
        &mut self.ring
    }
}

} // verus!
