//! A fixed table of subscribers to one topic, each with its read position.
//!
//! An entry whose identifier is 0 is free, and 0 is no subscriber's
//! identifier. Lookups take the first entry with the identifier sought. The
//! table's active count is always the number of occupied entries.
use vstd::prelude::*;
use super::PubSubError;

verus! {

/// Bytes taken by the table's header: the capacity and the active count.
pub const SUBSCRIBER_LIST_HEADER_SIZE: usize = 16;
/// Bytes taken by one entry.
pub const SUBSCRIBER_ENTRY_SIZE: usize = 24;

/// One table entry.
#[derive(Debug, Clone, Copy)]
pub struct SubscriberEntry {
    /// The subscriber's identifier; 0 marks a free entry.
    pub id: u64,
    /// The subscriber's position in the topic's message stream.
    pub read_index: u64,
    pub flags: u32,
    pub reserved: u32,
}

impl SubscriberEntry {
    /// A free entry.
    pub fn new() -> (e: SubscriberEntry)
        ensures
            e.id == 0,
            e.read_index == 0,
            e.flags == 0,
            e.reserved == 0,
    {
        SubscriberEntry { id: 0, read_index: 0, flags: 0, reserved: 0 }
    }

    pub fn is_empty(&self) -> (b: bool)
        ensures
            b == (self.id == 0),
    {
        self.id == 0
    }
}

/// A free entry keeping the given reserved word.
pub open spec fn free_entry(reserved: u32) -> SubscriberEntry {
    SubscriberEntry { id: 0, read_index: 0, flags: 0, reserved }
}

/// A newly claimed entry for `id`, keeping the given reserved word.
pub open spec fn claimed(id: u64, reserved: u32) -> SubscriberEntry {
    SubscriberEntry { id, read_index: 0, flags: 0, reserved }
}

/// An entry with its read position replaced.
pub open spec fn with_read_index(e: SubscriberEntry, index: u64) -> SubscriberEntry {
    SubscriberEntry { read_index: index, ..e }
}

/// The position of the first entry with identifier `id`.
pub open spec fn slot_of(s: Seq<SubscriberEntry>, id: u64) -> Option<int>
    decreases s.len(),
{
    if s.len() == 0 {
        None
    } else {
        match slot_of(s.drop_last(), id) {
            Some(i) => Some(i),
            None => if s.last().id == id { Some(s.len() - 1) } else { None },
        }
    }
}

/// The smallest read position among occupied entries, or `u64::MAX` when
/// there is none.
pub open spec fn min_read(s: Seq<SubscriberEntry>) -> u64
    decreases s.len(),
{
    if s.len() == 0 {
        u64::MAX
    } else {
        let m = min_read(s.drop_last());
        if s.last().id != 0 && s.last().read_index < m { s.last().read_index } else { m }
    }
}

/// The number of occupied entries.
pub open spec fn occupied(s: Seq<SubscriberEntry>) -> nat
    decreases s.len(),
{
    if s.len() == 0 {
        0
    } else {
        occupied(s.drop_last()) + if s.last().id != 0 { 1nat } else { 0nat }
    }
}

proof fn lemma_slot_of_bounds(s: Seq<SubscriberEntry>, id: u64)
    ensures
        match slot_of(s, id) {
            Some(i) => 0 <= i < s.len() && s[i].id == id && forall|j: int| 0 <= j < i ==> s[j].id != id,
            None => forall|j: int| 0 <= j < s.len() ==> s[j].id != id,
        },
    decreases s.len(),
{
    if s.len() > 0 {
        let t = s.drop_last();
        lemma_slot_of_bounds(t, id);
        assert forall|j: int| 0 <= j < t.len() implies t[j] == s[j] by {}
    }
}

proof fn lemma_occupied_none(s: Seq<SubscriberEntry>)
    requires
        forall|i: int| 0 <= i < s.len() ==> (#[trigger] s[i]).id == 0,
    ensures
        occupied(s) == 0,
    decreases s.len(),
{
    if s.len() > 0 {
        lemma_occupied_none(s.drop_last());
    }
}

proof fn lemma_occupied_le_len(s: Seq<SubscriberEntry>)
    ensures
        occupied(s) <= s.len(),
    decreases s.len(),
{
    if s.len() > 0 {
        lemma_occupied_le_len(s.drop_last());
    }
}

/// Replacing entry `i` changes the occupied count by the difference it makes.
proof fn lemma_occupied_update(s: Seq<SubscriberEntry>, i: int, e: SubscriberEntry)
    requires
        0 <= i < s.len(),
    ensures
        occupied(s.update(i, e)) + (if s[i].id != 0 { 1int } else { 0int })
            == occupied(s) + (if e.id != 0 { 1int } else { 0int }),
    decreases s.len(),
{
    if i < s.len() - 1 {
        assert(s.update(i, e).drop_last() =~= s.drop_last().update(i, e));
        lemma_occupied_update(s.drop_last(), i, e);
    } else {
        assert(s.update(i, e).drop_last() =~= s.drop_last());
    }
}

/// The subscriber table of a topic.
pub struct SubscriberList {
    max_subscribers: u64,
    active_count: u64,
    entries: Vec<SubscriberEntry>,
}

impl SubscriberList {
    /// The entries, in table order.
    pub closed spec fn entries(&self) -> Seq<SubscriberEntry> {
        self.entries@
    }

    /// The active count as kept by the table.
    pub closed spec fn active(&self) -> u64 {
        self.active_count
    }

    /// The capacity the table was made with.
    pub closed spec fn capacity(&self) -> u64 {
        self.max_subscribers
    }

    /// One entry per unit of capacity, and the active count is the number
    /// of occupied entries.
    pub closed spec fn wf(&self) -> bool {
        &&& self.entries@.len() == self.max_subscribers
        &&& self.active_count == occupied(self.entries@)
    }

    /// The read position of the first entry with identifier `id`, or 0.
    pub open spec fn read_index_of(&self, id: u64) -> u64 {
        match slot_of(self.entries(), id) {
            Some(i) => self.entries()[i].read_index,
            None => 0,
        }
    }

    /// Bytes needed for a table of `max_subscribers` entries.
    pub fn size_for_max_subscribers(max_subscribers: usize) -> (r: usize)
        requires
            SUBSCRIBER_LIST_HEADER_SIZE + max_subscribers * SUBSCRIBER_ENTRY_SIZE <= usize::MAX,
        ensures
            r == SUBSCRIBER_LIST_HEADER_SIZE + max_subscribers * SUBSCRIBER_ENTRY_SIZE,
    {
        SUBSCRIBER_LIST_HEADER_SIZE + max_subscribers * SUBSCRIBER_ENTRY_SIZE
    }

    /// A table of `max_subscribers` free entries.
    pub fn init(max_subscribers: usize) -> (l: SubscriberList)
        ensures
            l.wf(),
            l.capacity() == max_subscribers,
            l.active() == 0,
            l.active() == occupied(l.entries()),
            forall|i: int| 0 <= i < max_subscribers ==> #[trigger] l.entries()[i] == free_entry(0),
    {
        let mut entries: Vec<SubscriberEntry> = Vec::new();
        let mut i: usize = 0;
        while i < max_subscribers
            invariant
                i <= max_subscribers,
                entries@.len() == i,
                forall|j: int| 0 <= j < i ==> #[trigger] entries@[j] == free_entry(0),
            decreases max_subscribers - i,
        {
            entries.push(SubscriberEntry::new());
            i = i + 1;
        }
        proof { lemma_occupied_none(entries@); }
        SubscriberList { max_subscribers: max_subscribers as u64, active_count: 0, entries }
    }

    /// The position of the first entry with identifier `subscriber_id`.
    fn find_subscriber(&self, subscriber_id: u64) -> (r: Option<usize>)
        ensures
            match r {
                Some(i) => slot_of(self.entries(), subscriber_id) == Some(i as int),
                None => slot_of(self.entries(), subscriber_id) is None,
            },
    {
        let mut i: usize = 0;
        while i < self.entries.len()
            invariant
                i <= self.entries@.len(),
                slot_of(self.entries@.take(i as int), subscriber_id) is None,
            decreases self.entries@.len() - i,
        {
            proof { assert(self.entries@.take(i + 1).drop_last() =~= self.entries@.take(i as int)); }
            if self.entries[i].id == subscriber_id {
                proof { lemma_prefix_slot(self.entries@, subscriber_id, i as int); }
                return Some(i);
            }
            i = i + 1;
        }
        proof { assert(self.entries@.take(i as int) =~= self.entries@); }
        None
    }

    /// Adds a subscriber at the first free entry. Identifier 0 is refused;
    /// an identifier already present leaves the table as it is; a table
    /// without a free entry refuses with `TooManySubscribers`.
    pub fn add_subscriber(&mut self, subscriber_id: u64) -> (r: Result<(), PubSubError>)
        requires
            old(self).wf(),
        ensures
            final(self).wf(),
            final(self).capacity() == old(self).capacity(),
            subscriber_id == 0 ==> r == Err::<(), PubSubError>(PubSubError::InvalidSubscriber)
                && final(self).entries() == old(self).entries() && final(self).active() == old(self).active(),
            subscriber_id != 0 && slot_of(old(self).entries(), subscriber_id) is Some ==> r is Ok
                && final(self).entries() == old(self).entries() && final(self).active() == old(self).active(),
            subscriber_id != 0 && slot_of(old(self).entries(), subscriber_id) is None ==> match slot_of(old(self).entries(), 0) {
                None => r == Err::<(), PubSubError>(PubSubError::TooManySubscribers)
                    && final(self).entries() == old(self).entries() && final(self).active() == old(self).active(),
                Some(i) => r is Ok && final(self).entries() == old(self).entries().update(i, claimed(subscriber_id, old(self).entries()[i].reserved)) && final(self).active() == old(self).active() + 1,
            },
            final(self).active() == occupied(final(self).entries()),
    {
        if subscriber_id == 0 {
            return Err(PubSubError::InvalidSubscriber);
        }
        if self.find_subscriber(subscriber_id).is_some() {
            return Ok(());
        }
        let slot = match self.find_subscriber(0) {
            Some(s) => s,
            None => {
                return Err(PubSubError::TooManySubscribers);
            },
        };
        proof { lemma_slot_of_bounds(self.entries@, 0); }
        let mut entry = self.entries[slot];
        entry.id = subscriber_id;
        entry.read_index = 0;
        entry.flags = 0;
        proof {
            lemma_occupied_update(self.entries@, slot as int, entry);
            lemma_occupied_le_len(self.entries@.update(slot as int, entry));
        }
        self.entries.set(slot, entry);
        self.active_count = self.active_count + 1;
        Ok(())
    }

    /// Frees the first entry with identifier `subscriber_id`; returns
    /// whether there was one. Identifier 0 names no subscriber: it is
    /// answered `false` and changes nothing.
    pub fn remove_subscriber(&mut self, subscriber_id: u64) -> (r: Result<bool, PubSubError>)
        requires
            old(self).wf(),
        ensures
            final(self).wf(),
            final(self).capacity() == old(self).capacity(),
            subscriber_id == 0 ==> r == Ok::<bool, PubSubError>(false) && final(self).entries() == old(self).entries()
                && final(self).active() == old(self).active(),
            subscriber_id != 0 ==> match slot_of(old(self).entries(), subscriber_id) {
                None => r == Ok::<bool, PubSubError>(false) && final(self).entries() == old(self).entries()
                    && final(self).active() == old(self).active(),
                Some(i) => r == Ok::<bool, PubSubError>(true) && final(self).entries() == old(self).entries().update(i, free_entry(old(self).entries()[i].reserved)) && final(self).active() == old(self).active() - 1,
            },
            final(self).active() == occupied(final(self).entries()),
    {
        if subscriber_id == 0 {
            return Ok(false);
        }
        let slot = match self.find_subscriber(subscriber_id) {
            Some(s) => s,
            None => {
                return Ok(false);
            },
        };
        proof { lemma_slot_of_bounds(self.entries@, subscriber_id); }
        let mut entry = self.entries[slot];
        entry.id = 0;
        entry.read_index = 0;
        entry.flags = 0;
        proof { lemma_occupied_update(self.entries@, slot as int, entry); }
        self.entries.set(slot, entry);
        self.active_count = self.active_count - 1;
        Ok(true)
    }

    /// The read position of a subscriber, or `InvalidSubscriber`.
    pub fn get_read_index(&self, subscriber_id: u64) -> (r: Result<u64, PubSubError>)
        ensures
            match slot_of(self.entries(), subscriber_id) {
                None => r == Err::<u64, PubSubError>(PubSubError::InvalidSubscriber),
                Some(i) => r == Ok::<u64, PubSubError>(self.entries()[i].read_index),
            },
    {
        match self.find_subscriber(subscriber_id) {
            Some(slot) => {
                proof { lemma_slot_of_bounds(self.entries@, subscriber_id); }
                Ok(self.entries[slot].read_index)
            },
            None => Err(PubSubError::InvalidSubscriber),
        }
    }

    /// Moves a subscriber one message on and returns its new read position.
    pub fn advance_read_index(&mut self, subscriber_id: u64) -> (r: Result<u64, PubSubError>)
        requires
            old(self).wf(),
            old(self).read_index_of(subscriber_id) < u64::MAX,
        ensures
            final(self).wf(),
            final(self).capacity() == old(self).capacity(),
            final(self).active() == old(self).active(),
            match slot_of(old(self).entries(), subscriber_id) {
                None => r == Err::<u64, PubSubError>(PubSubError::InvalidSubscriber)
                    && final(self).entries() == old(self).entries(),
                Some(i) => r == Ok::<u64, PubSubError>((old(self).entries()[i].read_index + 1) as u64)
                    && final(self).entries() == old(self).entries().update(i, with_read_index(old(self).entries()[i], (old(self).entries()[i].read_index + 1) as u64)),
            },
    {
        match self.find_subscriber(subscriber_id) {
            Some(slot) => {
                proof { lemma_slot_of_bounds(self.entries@, subscriber_id); }
                let mut entry = self.entries[slot];
                let new_index = entry.read_index + 1;
                entry.read_index = new_index;
                proof { lemma_occupied_update(self.entries@, slot as int, entry); }
                self.entries.set(slot, entry);
                Ok(new_index)
            },
            None => Err(PubSubError::InvalidSubscriber),
        }
    }

    /// Sets a subscriber's read position.
    pub fn set_read_index(&mut self, subscriber_id: u64, index: u64) -> (r: Result<(), PubSubError>)
        requires
            old(self).wf(),
        ensures
            final(self).wf(),
            final(self).capacity() == old(self).capacity(),
            final(self).active() == old(self).active(),
            match slot_of(old(self).entries(), subscriber_id) {
                None => r == Err::<(), PubSubError>(PubSubError::InvalidSubscriber)
                    && final(self).entries() == old(self).entries(),
                Some(i) => r is Ok && final(self).entries() == old(self).entries().update(i, with_read_index(old(self).entries()[i], index)),
            },
    {
        match self.find_subscriber(subscriber_id) {
            Some(slot) => {
                proof { lemma_slot_of_bounds(self.entries@, subscriber_id); }
                let mut entry = self.entries[slot];
                entry.read_index = index;
                proof { lemma_occupied_update(self.entries@, slot as int, entry); }
                self.entries.set(slot, entry);
                Ok(())
            },
            None => Err(PubSubError::InvalidSubscriber),
        }
    }

    /// The smallest read position among subscribers, or 0 when there are
    /// none (or when that smallest position is `u64::MAX`).
    pub fn min_read_index(&self) -> (r: u64)
        ensures
            r == if min_read(self.entries()) == u64::MAX { 0 } else { min_read(self.entries()) },
    {
        let mut min_index: u64 = u64::MAX;
        let mut i: usize = 0;
        while i < self.entries.len()
            invariant
                i <= self.entries@.len(),
                min_index == min_read(self.entries@.take(i as int)),
            decreases self.entries@.len() - i,
        {
            proof { assert(self.entries@.take(i + 1).drop_last() =~= self.entries@.take(i as int)); }
            let entry = self.entries[i];
            if !entry.is_empty() && entry.read_index < min_index {
                min_index = entry.read_index;
            }
            i = i + 1;
        }
        proof { assert(self.entries@.take(i as int) =~= self.entries@); }
        if min_index == u64::MAX {
            0
        } else {
            min_index
        }
    }

    /// The number of subscribers.
    pub fn count(&self) -> (r: u64)
        ensures
            r == self.active(),
            self.wf() ==> r == occupied(self.entries()),
    {
        self.active_count
    }

    /// The capacity.
    pub fn max_count(&self) -> (r: u64)
        ensures
            r == self.capacity(),
    {
        self.max_subscribers
    }
}

/// In a well-formed table the active count is the number of occupied
/// entries.
pub proof fn lemma_active_is_occupied(l: &SubscriberList)
    requires
        l.wf(),
    ensures
        l.active() == occupied(l.entries()),
{
}

/// When no entry before `i` carries `id` and entry `i` does, `i` is the
/// first entry with `id`.
proof fn lemma_prefix_slot(s: Seq<SubscriberEntry>, id: u64, i: int)
    requires
        0 <= i < s.len(),
        slot_of(s.take(i), id) is None,
        s[i].id == id,
    ensures
        slot_of(s, id) == Some(i),
    decreases s.len(),
{
    if i < s.len() - 1 {
        assert(s.drop_last().take(i) =~= s.take(i));
        lemma_prefix_slot(s.drop_last(), id, i);
    } else {
        assert(s.drop_last() =~= s.take(i));
    }
}

/// Adding a new subscriber and then removing it restores the entries,
/// except for the reserved word, which neither touches.
pub proof fn lemma_add_remove(s: Seq<SubscriberEntry>, id: u64)
    requires
        id != 0,
        slot_of(s, id) is None,
        slot_of(s, 0) is Some,
    ensures
        ({
            let i = slot_of(s, 0).unwrap();
            let added = s.update(i, claimed(id, s[i].reserved));
            &&& slot_of(added, id) == Some(i)
            &&& added.update(i, free_entry(s[i].reserved)) =~= s.update(i, free_entry(s[i].reserved))
        }),
{
    let i = slot_of(s, 0).unwrap();
    lemma_slot_of_bounds(s, 0);
    lemma_slot_of_bounds(s, id);
    let added = s.update(i, claimed(id, s[i].reserved));
    assert(slot_of(added.take(i), id) is None) by {
        lemma_slot_of_bounds(added.take(i), id);
        if slot_of(added.take(i), id) is Some {
            let j = slot_of(added.take(i), id).unwrap();
            assert(s[j].id == id);
        }
    }
    lemma_prefix_slot(added, id, i);
}

} // verus!
