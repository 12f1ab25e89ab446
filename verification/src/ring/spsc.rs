//! Single-producer single-consumer ring.
//!
//! The producer index counts every slot ever pushed and the consumer index
//! every slot ever popped; slot `i` of the stream lives at position
//! `i % capacity`, which for a power-of-two capacity is `i & (capacity - 1)`.
use vstd::prelude::*;
use vstd::arithmetic::div_mod::{lemma_mod_equivalence, lemma_small_mod};
use vstd::arithmetic::power2::{pow2, lemma_pow2_pos};
use vstd::bits::{low_bits_mask, lemma_u64_low_bits_mask_is_mod};
use super::{Slot, empty_slot};

verus! {

/// Bytes taken by the ring's header: the two cache-line sized indices, the
/// capacity and the mask, rounded up to the 64-byte alignment.
pub const SPSC_HEADER_SIZE: usize = 192;
/// Bytes taken by one slot.
pub const SLOT_SIZE: usize = 16;

/// A power of two that fits in 64 bits.
pub open spec fn is_pow2(c: u64) -> bool {
    exists|k: nat| k < 64 && pow2(k) == c
}

/// For a power-of-two `c`, masking with `c - 1` is the remainder by `c`.
pub proof fn lemma_mask_mod(x: u64, c: u64, m: u64)
    requires
        is_pow2(c),
        m == c - 1,
    ensures
        x & m == x % c,
        c > 0,
{
    let k = choose|k: nat| k < 64 && pow2(k) == c;
    lemma_pow2_pos(k);
    lemma_u64_low_bits_mask_is_mod(x, k);
    assert(low_bits_mask(k) == m);
}

/// A power of two is positive.
pub proof fn lemma_pow2_positive(c: u64)
    requires
        is_pow2(c),
    ensures
        c > 0,
{
    let k = choose|k: nat| k < 64 && pow2(k) == c;
    lemma_pow2_pos(k);
}

/// Positions less than `c` apart fall in different places modulo `c`.
pub proof fn lemma_mod_distinct(a: int, b: int, c: int)
    requires
        0 < c,
        a < b,
        b - a < c,
    ensures
        a % c != b % c,
{
    lemma_mod_equivalence(b, a, c);
    lemma_small_mod((b - a) as nat, c as nat);
}

/// A bounded FIFO ring for one producer and one consumer.
pub struct SpscRing {
    slots: Vec<Slot>,
    producer_index: u64,
    consumer_index: u64,
    capacity: u64,
    mask: u64,
}

impl View for SpscRing {
    type V = Seq<Slot>;

    /// The queued slots, oldest first.
    closed spec fn view(&self) -> Seq<Slot> {
        Seq::new(
            (self.producer_index - self.consumer_index) as nat,
            |k: int| self.slots@[(self.consumer_index + k) % (self.capacity as int)],
        )
    }
}

impl SpscRing {
    /// The ring's invariant: a power-of-two capacity with its mask, one
    /// stored slot per position, and at most `capacity` slots queued.
    pub closed spec fn wf(&self) -> bool {
        &&& is_pow2(self.capacity)
        &&& self.mask == self.capacity - 1
        &&& self.slots@.len() == self.capacity
        &&& self.consumer_index <= self.producer_index
        &&& self.producer_index - self.consumer_index <= self.capacity
    }

    /// The capacity the ring was made with.
    pub closed spec fn cap(&self) -> u64 {
        self.capacity
    }

    /// How many slots were ever pushed.
    pub closed spec fn pushed(&self) -> u64 {
        self.producer_index
    }

    /// How many slots were ever popped.
    pub closed spec fn popped(&self) -> u64 {
        self.consumer_index
    }

    /// Bytes needed for a ring of `capacity` slots.
    pub fn size_for_capacity(capacity: u64) -> (r: usize)
        requires
            is_pow2(capacity),
            SPSC_HEADER_SIZE + capacity * SLOT_SIZE <= usize::MAX,
        ensures
            r == SPSC_HEADER_SIZE + capacity * SLOT_SIZE,
    {
        SPSC_HEADER_SIZE + (capacity as usize) * SLOT_SIZE
    }

    /// An empty ring of `capacity` empty slots.
    pub fn init(capacity: u64) -> (r: SpscRing)
        requires
            is_pow2(capacity),
            SPSC_HEADER_SIZE + capacity * SLOT_SIZE <= usize::MAX,
        ensures
            r.wf(),
            r@ == Seq::<Slot>::empty(),
            r.cap() == capacity,
            r.pushed() == 0,
            r.popped() == 0,
    {
        let mut slots: Vec<Slot> = Vec::new();
        let mut i: u64 = 0;
        while i < capacity
            invariant
                i <= capacity,
                slots@.len() == i,
            decreases capacity - i,
        {
            slots.push(Slot::empty());
            i = i + 1;
        }
        proof { lemma_pow2_positive(capacity); }
        let r = SpscRing { slots, producer_index: 0, consumer_index: 0, capacity, mask: capacity - 1 };
        assert(r@ =~= Seq::<Slot>::empty());
        r
    }

    /// Appends `slot` unless the ring is full; returns whether it did.
    pub fn try_push(&mut self, slot: Slot) -> (r: bool)
        requires
            old(self).wf(),
            old(self).pushed() < u64::MAX,
        ensures
            r == (old(self)@.len() < old(self).cap()),
            r ==> final(self)@ == old(self)@.push(slot),
            r ==> final(self).pushed() == old(self).pushed() + 1,
            !r ==> final(self)@ == old(self)@,
            !r ==> final(self).pushed() == old(self).pushed(),
            final(self).wf(),
            final(self).popped() == old(self).popped(),
            final(self).cap() == old(self).cap(),
    {
        let producer_idx = self.producer_index;
        let consumer_idx = self.consumer_index;
        if producer_idx - consumer_idx >= self.capacity {
            return false;
        }
        let idx = producer_idx & self.mask;
        proof {
            lemma_mask_mod(producer_idx, self.capacity, self.mask);
            assert(idx < self.slots.len());
        }
        let ghost before = self@;
        let ghost old_slots = self.slots@;
        let ghost c = self.capacity as int;
        self.slots.set(idx as usize, slot);
        self.producer_index = producer_idx + 1;
        proof {
            assert forall|k: int| 0 <= k < before.len() implies #[trigger] self@[k] == before[k] by {
                lemma_mod_distinct(consumer_idx + k, producer_idx as int, c);
                let j = (consumer_idx + k) % c;
                assert(0 <= j < c);
                assert(j != idx as int);
                assert(self.slots@[j] == old_slots[j]);
                assert(before[k] == old_slots[j]);
                assert(self@[k] == self.slots@[j]);
            }
            assert((consumer_idx + before.len()) % c == (producer_idx as int) % c);
            assert(self@ =~= before.push(slot));
        }
        true
    }

    /// Appends `slot`; the ring must have room.
    pub fn push(&mut self, slot: Slot)
        requires
            old(self).wf(),
            old(self)@.len() < old(self).cap(),
            old(self).pushed() < u64::MAX,
        ensures
            final(self).wf(),
            final(self)@ == old(self)@.push(slot),
            final(self).pushed() == old(self).pushed() + 1,
            final(self).popped() == old(self).popped(),
            final(self).cap() == old(self).cap(),
    {
        self.try_push(slot);
    }

    /// Removes and returns the oldest slot, or `None` when the ring is empty.
    pub fn try_pop(&mut self) -> (r: Option<Slot>)
        requires
            old(self).wf(),
        ensures
            final(self).wf(),
            old(self)@.len() == 0 ==> r is None && final(self)@ == old(self)@
                && final(self).popped() == old(self).popped(),
            old(self)@.len() > 0 ==> r == Some(old(self)@[0]) && final(self)@ == old(self)@.drop_first()
                && final(self).popped() == old(self).popped() + 1,
            final(self).pushed() == old(self).pushed(),
            final(self).cap() == old(self).cap(),
    {
        let consumer_idx = self.consumer_index;
        let producer_idx = self.producer_index;
        if consumer_idx >= producer_idx {
            return None;
        }
        let idx = consumer_idx & self.mask;
        proof {
            lemma_mask_mod(consumer_idx, self.capacity, self.mask);
            assert(idx < self.slots.len());
        }
        let ghost before = self@;
        let ghost old_slots = self.slots@;
        let ghost c = self.capacity as int;
        let slot = self.slots[idx as usize];
        self.slots.set(idx as usize, Slot::empty());
        self.consumer_index = consumer_idx + 1;
        proof {
            assert(before[0] == old_slots[(consumer_idx + 0) % c]);
            assert forall|k: int| 0 <= k < before.len() - 1 implies #[trigger] self@[k] == before[k + 1] by {
                lemma_mod_distinct(consumer_idx as int, consumer_idx + 1 + k, c);
                assert(before[k + 1] == old_slots[(consumer_idx + (k + 1)) % c]);
                assert(self@[k] == self.slots@[(consumer_idx + 1 + k) % c]);
            }
            assert(self@ =~= before.drop_first());
        }
        Some(slot)
    }

    /// Removes and returns the oldest slot; the ring must not be empty.
    pub fn pop(&mut self) -> (r: Slot)
        requires
            old(self).wf(),
            old(self)@.len() > 0,
        ensures
            final(self).wf(),
            r == old(self)@[0],
            final(self)@ == old(self)@.drop_first(),
            final(self).popped() == old(self).popped() + 1,
            final(self).pushed() == old(self).pushed(),
            final(self).cap() == old(self).cap(),
    {
        match self.try_pop() {
            Some(s) => s,
            None => Slot::empty(),
        }
    }

    /// Number of queued slots.
    pub fn len(&self) -> (r: u64)
        requires
            self.wf(),
        ensures
            r == self@.len(),
    {
        self.producer_index.saturating_sub(self.consumer_index)
    }

    pub fn is_empty(&self) -> (r: bool)
        requires
            self.wf(),
        ensures
            r == (self@.len() == 0),
    {
        self.len() == 0
    }

    pub fn is_full(&self) -> (r: bool)
        requires
            self.wf(),
        ensures
            r == (self@.len() >= self.cap()),
    {
        self.len() >= self.capacity
    }

    pub fn capacity(&self) -> (r: u64)
        ensures
            r == self.cap(),
    {
        self.capacity
    }

    /// How many slots were ever pushed.
    pub fn pushed_count(&self) -> (r: u64)
        ensures
            r == self.pushed(),
    {
        self.producer_index
    }
}

/// Owns an SPSC ring.
pub struct SpscRingBuffer {
    ring: SpscRing,
}

impl SpscRingBuffer {
    /// The ring this buffer owns.
    pub closed spec fn inner(&self) -> SpscRing {
        self.ring
    }

    /// A buffer holding an empty ring of `capacity` slots.
    pub fn new(capacity: u64) -> (r: SpscRingBuffer)
        requires
            is_pow2(capacity),
            SPSC_HEADER_SIZE + capacity * SLOT_SIZE <= usize::MAX,
        ensures
            r.inner().wf(),
            r.inner()@ == Seq::<Slot>::empty(),
            r.inner().cap() == capacity,
            r.inner().pushed() == 0,
            r.inner().popped() == 0,
    {
        SpscRingBuffer { ring: SpscRing::init(capacity) }
    }

    pub fn ring(&self) -> (r: &SpscRing)
        ensures
            *r == self.inner(),
    {
        &self.ring
    }

    pub fn ring_mut(&mut self) -> (r: &mut SpscRing)
        ensures
            *r == old(self).inner(),
            final(self).inner() == *final(r),
    {
        &mut self.ring
    }
}

} // verus!
