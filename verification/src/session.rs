//! The table of client sessions.
//!
//! A descriptor whose identifier is 0 is free. Lookups take the first
//! descriptor with the identifier sought. New sessions get identifiers from a
//! counter that starts at 1 and wraps at the top of its range.
use vstd::prelude::*;
use vstd::slice::{slice_subrange, slice_to_vec};
use crate::clock::unix_secs;
use crate::protocol::{Command, cmd_header_from};
use crate::util::{first_index, lemma_first_index};
use crate::ring::{Slot, inline_bytes, offset_of};
use crate::ring::spsc::{SpscRing, is_pow2, SPSC_HEADER_SIZE, SLOT_SIZE};

verus! {

/// Identifies a session.
pub type SessionId = u64;

/// Bytes taken by the registry's header: the next identifier, the capacity
/// and the active count.
pub const SESSION_REGISTRY_HEADER_SIZE: usize = 24;
/// Bytes taken by one session descriptor.
pub const SESSION_DESC_SIZE: usize = 64;

/// One client session.
#[derive(Debug, Clone, Copy)]
pub struct SessionDesc {
    /// The session's identifier; 0 marks a free descriptor.
    pub id: SessionId,
    /// The client's process identifier.
    pub pid: u32,
    pub cmd_ring_offset: u64,
    pub resp_ring_offset: u64,
    pub ring_capacity: u64,
    /// Notification descriptor, or -1 when there is none.
    pub eventfd: i32,
    pub pending_notifications: u32,
    pub flags: u32,
    /// Seconds since the Unix epoch at the last activity.
    pub last_activity: u64,
}

/// A descriptor with the given identifier and process and nothing else set.
pub open spec fn fresh_desc(id: SessionId, pid: u32) -> SessionDesc {
    SessionDesc {
        id,
        pid,
        cmd_ring_offset: 0,
        resp_ring_offset: 0,
        ring_capacity: 0,
        eventfd: -1i32,
        pending_notifications: 0,
        flags: 0,
        last_activity: 0,
    }
}

/// Whether a session last active at `last` has been idle longer than
/// `timeout_secs` at time `now`.
pub open spec fn stale_at(last: u64, now: u64, timeout_secs: u64) -> bool {
    (if now > last { now - last } else { 0 }) > timeout_secs
}

impl SessionDesc {
    pub fn new(id: SessionId, pid: u32) -> (d: SessionDesc)
        ensures
            d == fresh_desc(id, pid),
    {
        SessionDesc {
            id,
            pid,
            cmd_ring_offset: 0,
            resp_ring_offset: 0,
            ring_capacity: 0,
            eventfd: -1,
            pending_notifications: 0,
            flags: 0,
            last_activity: 0,
        }
    }

    /// Records activity now; only the activity time changes.
    pub fn touch(&mut self)
        ensures
            *final(self) == (SessionDesc { last_activity: final(self).last_activity, ..*old(self) }),
    {
        self.last_activity = unix_secs();
    }

    /// Whether the session has been idle longer than `timeout_secs` at `now`.
    pub fn is_stale_at(&self, now: u64, timeout_secs: u64) -> (b: bool)
        ensures
            b == stale_at(self.last_activity, now, timeout_secs),
    {
        now.saturating_sub(self.last_activity) > timeout_secs
    }

    /// Whether the session has been idle longer than `timeout_secs` now.
    pub fn is_stale(&self, timeout_secs: u64) -> (b: bool)
        ensures
            exists|now: u64| b == stale_at(self.last_activity, now, timeout_secs),
    {
        let now = unix_secs();
        self.is_stale_at(now, timeout_secs)
    }
}

/// The position of the first descriptor with identifier `id`.
pub open spec fn session_slot(s: Seq<SessionDesc>, id: SessionId) -> Option<int>
    decreases s.len(),
{
    if s.len() == 0 {
        None
    } else {
        match session_slot(s.drop_last(), id) {
            Some(i) => Some(i),
            None => if s.last().id == id { Some(s.len() - 1) } else { None },
        }
    }
}

/// The identifiers of the occupied descriptors, in table order.
pub open spec fn active_ids(s: Seq<SessionDesc>) -> Seq<SessionId>
    decreases s.len(),
{
    if s.len() == 0 {
        Seq::empty()
    } else {
        let r = active_ids(s.drop_last());
        if s.last().id != 0 { r.push(s.last().id) } else { r }
    }
}

/// A descriptor after cleanup at time `now`: freed when it was occupied and
/// stale.
pub open spec fn cleaned_desc(d: SessionDesc, now: u64, timeout_secs: u64) -> SessionDesc {
    if d.id != 0 && stale_at(d.last_activity, now, timeout_secs) {
        SessionDesc { id: 0, pid: 0, ..d }
    } else {
        d
    }
}

/// The number of descriptors that cleanup at time `now` frees.
pub open spec fn stale_count(s: Seq<SessionDesc>, now: u64, timeout_secs: u64) -> nat
    decreases s.len(),
{
    if s.len() == 0 {
        0
    } else {
        stale_count(s.drop_last(), now, timeout_secs)
            + if s.last().id != 0 && stale_at(s.last().last_activity, now, timeout_secs) { 1nat } else { 0nat }
    }
}

proof fn lemma_session_slot(s: Seq<SessionDesc>, id: SessionId)
    ensures
        match session_slot(s, id) {
            Some(i) => 0 <= i < s.len() && s[i].id == id && forall|j: int| 0 <= j < i ==> s[j].id != id,
            None => forall|j: int| 0 <= j < s.len() ==> s[j].id != id,
        },
    decreases s.len(),
{
    if s.len() > 0 {
        let t = s.drop_last();
        lemma_session_slot(t, id);
        assert forall|j: int| 0 <= j < t.len() implies t[j] == s[j] by {}
    }
}

proof fn lemma_session_prefix(s: Seq<SessionDesc>, id: SessionId, i: int)
    requires
        0 <= i < s.len(),
        session_slot(s.take(i), id) is None,
        s[i].id == id,
    ensures
        session_slot(s, id) == Some(i),
    decreases s.len(),
{
    if i < s.len() - 1 {
        assert(s.drop_last().take(i) =~= s.take(i));
        lemma_session_prefix(s.drop_last(), id, i);
    } else {
        assert(s.drop_last() =~= s.take(i));
    }
}

/// The number of occupied descriptors.
pub open spec fn live(s: Seq<SessionDesc>) -> nat
    decreases s.len(),
{
    if s.len() == 0 {
        0
    } else {
        live(s.drop_last()) + if s.last().id != 0 { 1nat } else { 0nat }
    }
}

proof fn lemma_live_none(s: Seq<SessionDesc>)
    requires
        forall|i: int| 0 <= i < s.len() ==> (#[trigger] s[i]).id == 0,
    ensures
        live(s) == 0,
    decreases s.len(),
{
    if s.len() > 0 {
        lemma_live_none(s.drop_last());
    }
}

proof fn lemma_live_le_len(s: Seq<SessionDesc>)
    ensures
        live(s) <= s.len(),
    decreases s.len(),
{
    if s.len() > 0 {
        lemma_live_le_len(s.drop_last());
    }
}

/// Replacing descriptor `i` changes the occupied count by the difference
/// it makes.
proof fn lemma_live_update(s: Seq<SessionDesc>, i: int, d: SessionDesc)
    requires
        0 <= i < s.len(),
    ensures
        live(s.update(i, d)) + (if s[i].id != 0 { 1int } else { 0int })
            == live(s) + (if d.id != 0 { 1int } else { 0int }),
    decreases s.len(),
{
    if i < s.len() - 1 {
        assert(s.update(i, d).drop_last() =~= s.drop_last().update(i, d));
        lemma_live_update(s.drop_last(), i, d);
    } else {
        assert(s.update(i, d).drop_last() =~= s.drop_last());
    }
}

proof fn lemma_stale_count_le(s: Seq<SessionDesc>, now: u64, timeout_secs: u64)
    ensures
        stale_count(s, now, timeout_secs) <= s.len(),
    decreases s.len(),
{
    if s.len() > 0 {
        lemma_stale_count_le(s.drop_last(), now, timeout_secs);
    }
}

/// The registry of client sessions.
pub struct SessionRegistry {
    next_session_id: u64,
    max_sessions: u64,
    active_sessions: u64,
    sessions: Vec<SessionDesc>,
}

impl SessionRegistry {
    /// The descriptors, in table order.
    pub closed spec fn descs(&self) -> Seq<SessionDesc> {
        self.sessions@
    }

    pub closed spec fn next_id(&self) -> u64 {
        self.next_session_id
    }

    pub closed spec fn active(&self) -> u64 {
        self.active_sessions
    }

    pub closed spec fn capacity(&self) -> u64 {
        self.max_sessions
    }

    /// One descriptor per unit of capacity, and the active count is the
    /// number of occupied descriptors.
    pub closed spec fn wf(&self) -> bool {
        &&& self.sessions@.len() == self.max_sessions
        &&& self.active_sessions == live(self.sessions@)
    }

    /// Bytes needed for a registry of `max_sessions` sessions.
    pub fn size_for_max_sessions(max_sessions: usize) -> (r: usize)
        requires
            SESSION_REGISTRY_HEADER_SIZE + max_sessions * SESSION_DESC_SIZE <= usize::MAX,
        ensures
            r == SESSION_REGISTRY_HEADER_SIZE + max_sessions * SESSION_DESC_SIZE,
    {
        SESSION_REGISTRY_HEADER_SIZE + max_sessions * SESSION_DESC_SIZE
    }

    /// A registry of `max_sessions` free descriptors whose first session
    /// will get identifier 1.
    pub fn init(max_sessions: usize) -> (r: SessionRegistry)
        ensures
            r.wf(),
            r.capacity() == max_sessions,
            r.active() == 0,
            r.next_id() == 1,
            forall|i: int| 0 <= i < max_sessions ==> #[trigger] r.descs()[i] == fresh_desc(0, 0),
    {
        let mut sessions: Vec<SessionDesc> = Vec::new();
        let mut i: usize = 0;
        while i < max_sessions
            invariant
                i <= max_sessions,
                sessions@.len() == i,
                forall|j: int| 0 <= j < i ==> #[trigger] sessions@[j] == fresh_desc(0, 0),
            decreases max_sessions - i,
        {
            sessions.push(SessionDesc::new(0, 0));
            i = i + 1;
        }
        proof { lemma_live_none(sessions@); }
        SessionRegistry { next_session_id: 1, max_sessions: max_sessions as u64, active_sessions: 0, sessions }
    }

    fn find(&self, session_id: SessionId) -> (r: Option<usize>)
        ensures
            match r {
                Some(i) => session_slot(self.descs(), session_id) == Some(i as int),
                None => session_slot(self.descs(), session_id) is None,
            },
    {
        let mut i: usize = 0;
        while i < self.sessions.len()
            invariant
                i <= self.sessions@.len(),
                session_slot(self.sessions@.take(i as int), session_id) is None,
            decreases self.sessions@.len() - i,
        {
            proof { assert(self.sessions@.take(i + 1).drop_last() =~= self.sessions@.take(i as int)); }
            if self.sessions[i].id == session_id {
                proof { lemma_session_prefix(self.sessions@, session_id, i as int); }
                return Some(i);
            }
            i = i + 1;
        }
        proof { assert(self.sessions@.take(i as int) =~= self.sessions@); }
        None
    }

    /// The identifiers of the active sessions, in table order.
    pub fn get_active_sessions(&self) -> (r: Vec<SessionId>)
        ensures
            r@ == active_ids(self.descs()),
    {
        let mut out: Vec<SessionId> = Vec::new();
        let mut i: usize = 0;
        while i < self.sessions.len()
            invariant
                i <= self.sessions@.len(),
                out@ == active_ids(self.sessions@.take(i as int)),
            decreases self.sessions@.len() - i,
        {
            proof { assert(self.sessions@.take(i + 1).drop_last() =~= self.sessions@.take(i as int)); }
            let id = self.sessions[i].id;
            if id != 0 {
                out.push(id);
            }
            i = i + 1;
        }
        proof { assert(self.sessions@.take(i as int) =~= self.sessions@); }
        out
    }

    /// Opens a session for process `pid` in the first free descriptor and
    /// returns its identifier; `None` when the active count has reached the
    /// capacity, no descriptor is free, or the identifiers are used up (the
    /// next one would be 0, which marks a free descriptor). Only the new
    /// descriptor's activity time depends on the clock.
    pub fn create_session(&mut self, pid: u32, ring_capacity: u64) -> (r: Option<SessionId>)
        requires
            old(self).wf(),
        ensures
            final(self).wf(),
            final(self).capacity() == old(self).capacity(),
            (old(self).active() >= old(self).capacity() || old(self).next_id() == 0) ==> r is None
                && final(self).descs() == old(self).descs()
                && final(self).active() == old(self).active() && final(self).next_id() == old(self).next_id(),
            old(self).active() < old(self).capacity() && old(self).next_id() != 0 ==> match session_slot(old(self).descs(), 0) {
                None => r is None && final(self).descs() == old(self).descs()
                    && final(self).active() == old(self).active() && final(self).next_id() == old(self).next_id(),
                Some(i) => r == Some(old(self).next_id())
                    && final(self).next_id() == old(self).next_id().wrapping_add(1)
                    && final(self).active() == old(self).active() + 1
                    && final(self).descs().len() == old(self).descs().len()
                    && (forall|j: int| 0 <= j < old(self).descs().len() && j != i
                        ==> #[trigger] final(self).descs()[j] == old(self).descs()[j])
                    && final(self).descs()[i] == (SessionDesc {
                        id: old(self).next_id(),
                        pid,
                        ring_capacity,
                        last_activity: final(self).descs()[i].last_activity,
                        ..old(self).descs()[i]
                    }),
            },
    {
        if self.active_sessions >= self.max_sessions || self.next_session_id == 0 {
            return None;
        }
        let slot = match self.find(0) {
            Some(s) => s,
            None => {
                return None;
            },
        };
        proof { lemma_session_slot(self.sessions@, 0); }
        let session_id = self.next_session_id;
        self.next_session_id = self.next_session_id.wrapping_add(1);
        let mut desc = self.sessions[slot];
        desc.id = session_id;
        desc.pid = pid;
        desc.ring_capacity = ring_capacity;
        desc.touch();
        proof {
            lemma_live_update(self.sessions@, slot as int, desc);
            lemma_live_le_len(self.sessions@);
        }
        self.sessions.set(slot, desc);
        self.active_sessions = self.active_sessions + 1;
        Some(session_id)
    }

    /// The first descriptor with identifier `session_id`.
    pub fn get_session(&self, session_id: SessionId) -> (r: Option<&SessionDesc>)
        ensures
            match session_slot(self.descs(), session_id) {
                None => r is None,
                Some(i) => r == Some(&self.descs()[i]),
            },
    {
        match self.find(session_id) {
            Some(i) => {
                proof { lemma_session_slot(self.sessions@, session_id); }
                Some(&self.sessions[i])
            },
            None => None,
        }
    }

    /// Frees the first descriptor with identifier `session_id`; returns
    /// whether there was one. Identifier 0 names no session: it is answered
    /// `false` and changes nothing.
    pub fn remove_session(&mut self, session_id: SessionId) -> (r: bool)
        requires
            old(self).wf(),
        ensures
            final(self).wf(),
            final(self).capacity() == old(self).capacity(),
            final(self).next_id() == old(self).next_id(),
            session_id == 0 ==> !r && final(self).descs() == old(self).descs() && final(self).active() == old(self).active(),
            session_id != 0 ==> match session_slot(old(self).descs(), session_id) {
                None => !r && final(self).descs() == old(self).descs() && final(self).active() == old(self).active(),
                Some(i) => r && final(self).descs() == old(self).descs().update(i, (SessionDesc {
                    id: 0,
                    pid: 0,
                    ..old(self).descs()[i]
                })) && final(self).active() == old(self).active() - 1,
            },
    {
        if session_id == 0 {
            return false;
        }
        match self.find(session_id) {
            Some(i) => {
                proof { lemma_session_slot(self.sessions@, session_id); }
                let mut desc = self.sessions[i];
                desc.id = 0;
                desc.pid = 0;
                proof { lemma_live_update(self.sessions@, i as int, desc); }
                self.sessions.set(i, desc);
                self.active_sessions = self.active_sessions - 1;
                true
            },
            None => false,
        }
    }

    /// Frees every occupied descriptor idle longer than `timeout_secs` at
    /// time `now`, lowers the active count by their number and returns it.
    pub fn cleanup_stale_sessions_at(&mut self, now: u64, timeout_secs: u64) -> (r: usize)
        requires
            old(self).wf(),
        ensures
            final(self).wf(),
            final(self).capacity() == old(self).capacity(),
            final(self).next_id() == old(self).next_id(),
            r == stale_count(old(self).descs(), now, timeout_secs),
            final(self).descs() == old(self).descs().map_values(|d: SessionDesc| cleaned_desc(d, now, timeout_secs)),
            final(self).active() == old(self).active() - r,
    {
        let ghost orig = self.sessions@;
        let mut cleaned: u64 = 0;
        let mut i: usize = 0;
        while i < self.sessions.len()
            invariant
                i <= self.sessions@.len(),
                self.sessions@.len() == orig.len(),
                self.sessions@.len() == self.max_sessions,
                self.max_sessions == old(self).max_sessions,
                self.next_session_id == old(self).next_session_id,
                self.active_sessions == old(self).active_sessions,
                cleaned == stale_count(orig.take(i as int), now, timeout_secs),
                cleaned <= i,
                live(self.sessions@) + cleaned == live(orig),
                forall|j: int| 0 <= j < i ==> #[trigger] self.sessions@[j] == cleaned_desc(orig[j], now, timeout_secs),
                forall|j: int| i <= j < orig.len() ==> #[trigger] self.sessions@[j] == orig[j],
            decreases self.sessions@.len() - i,
        {
            proof { assert(orig.take(i + 1).drop_last() =~= orig.take(i as int)); }
            let d = self.sessions[i];
            if d.id != 0 && d.is_stale_at(now, timeout_secs) {
                let mut freed = d;
                freed.id = 0;
                freed.pid = 0;
                proof { lemma_live_update(self.sessions@, i as int, freed); }
                self.sessions.set(i, freed);
                cleaned = cleaned + 1;
            }
            i = i + 1;
        }
        proof {
            assert(orig.take(i as int) =~= orig);
            assert(self.sessions@ =~= orig.map_values(|d: SessionDesc| cleaned_desc(d, now, timeout_secs)));
        }
        self.active_sessions = self.active_sessions - cleaned;
        cleaned as usize
    }

    /// Frees every occupied descriptor idle longer than `timeout_secs` now.
    pub fn cleanup_stale_sessions(&mut self, timeout_secs: u64) -> (r: usize)
        requires
            old(self).wf(),
        ensures
            final(self).wf(),
            exists|now: u64| {
                &&& r == stale_count(old(self).descs(), now, timeout_secs)
                &&& final(self).descs() == old(self).descs().map_values(
                    |d: SessionDesc| cleaned_desc(d, now, timeout_secs),
                )
            },
    {
        let now = unix_secs();
        self.cleanup_stale_sessions_at(now, timeout_secs)
    }

    /// Counts one more pending notification of `session_id` and records
    /// activity now; gives the count before, or `None` for an unknown
    /// session. The count wraps at the top of its range.
    pub fn note_pending(&mut self, session_id: SessionId) -> (r: Option<u32>)
        requires
            old(self).wf(),
        ensures
            final(self).wf(),
            final(self).capacity() == old(self).capacity(),
            final(self).next_id() == old(self).next_id(),
            final(self).active() == old(self).active(),
            match session_slot(old(self).descs(), session_id) {
                None => r is None && final(self).descs() == old(self).descs(),
                Some(i) => r == Some(old(self).descs()[i].pending_notifications)
                    && final(self).descs() == old(self).descs().update(i, SessionDesc {
                        pending_notifications: old(self).descs()[i].pending_notifications.wrapping_add(1),
                        last_activity: final(self).descs()[i].last_activity,
                        ..old(self).descs()[i]
                    }),
            },
    {
        match self.find(session_id) {
            Some(i) => {
                proof { lemma_session_slot(self.sessions@, session_id); }
                let mut d = self.sessions[i];
                let prev = d.pending_notifications;
                d.pending_notifications = prev.wrapping_add(1);
                d.touch();
                proof { lemma_live_update(self.sessions@, i as int, d); }
                self.sessions.set(i, d);
                Some(prev)
            },
            None => None,
        }
    }

    /// Clears the pending notifications of `session_id` and records
    /// activity now; false for an unknown session.
    pub fn clear_pending(&mut self, session_id: SessionId) -> (r: bool)
        requires
            old(self).wf(),
        ensures
            final(self).wf(),
            final(self).capacity() == old(self).capacity(),
            final(self).next_id() == old(self).next_id(),
            final(self).active() == old(self).active(),
            match session_slot(old(self).descs(), session_id) {
                None => !r && final(self).descs() == old(self).descs(),
                Some(i) => r && final(self).descs() == old(self).descs().update(i, SessionDesc {
                    pending_notifications: 0,
                    last_activity: final(self).descs()[i].last_activity,
                    ..old(self).descs()[i]
                }),
            },
    {
        match self.find(session_id) {
            Some(i) => {
                proof { lemma_session_slot(self.sessions@, session_id); }
                let mut d = self.sessions[i];
                d.pending_notifications = 0;
                d.touch();
                proof { lemma_live_update(self.sessions@, i as int, d); }
                self.sessions.set(i, d);
                true
            },
            None => false,
        }
    }

    /// Records activity of `session_id` now; false for an unknown session.
    pub fn touch_session(&mut self, session_id: SessionId) -> (r: bool)
        requires
            old(self).wf(),
        ensures
            final(self).wf(),
            final(self).capacity() == old(self).capacity(),
            final(self).next_id() == old(self).next_id(),
            final(self).active() == old(self).active(),
            match session_slot(old(self).descs(), session_id) {
                None => !r && final(self).descs() == old(self).descs(),
                Some(i) => r && final(self).descs() == old(self).descs().update(i, SessionDesc {
                    last_activity: final(self).descs()[i].last_activity,
                    ..old(self).descs()[i]
                }),
            },
    {
        match self.find(session_id) {
            Some(i) => {
                proof { lemma_session_slot(self.sessions@, session_id); }
                let mut d = self.sessions[i];
                d.touch();
                proof { lemma_live_update(self.sessions@, i as int, d); }
                self.sessions.set(i, d);
                true
            },
            None => false,
        }
    }

    pub fn stats(&self) -> (s: SessionStats)
        ensures
            s.active_sessions == self.active(),
            self.wf() ==> s.active_sessions == live(self.descs()),
            s.max_sessions == self.capacity(),
            s.next_session_id == self.next_id(),
    {
        SessionStats {
            active_sessions: self.active_sessions,
            max_sessions: self.max_sessions,
            next_session_id: self.next_session_id,
        }
    }
}

/// In a well-formed registry the active count is the number of occupied
/// descriptors.
pub proof fn lemma_active_is_live(r: &SessionRegistry)
    requires
        r.wf(),
    ensures
        r.active() == live(r.descs()),
{
}

/// Session counters.
#[derive(Debug, Clone)]
pub struct SessionStats {
    pub active_sessions: u64,
    pub max_sessions: u64,
    pub next_session_id: u64,
}

/// Errors of session management.
#[derive(Debug, Clone, Copy, PartialEq, Eq)]
pub enum SessionError {
    TooManySessions,
    OutOfMemory,
    SessionNotFound,
    RingFull,
    InvalidSession,
}

impl SessionError {
    /// The text that describes this error.
    pub fn message(&self) -> (r: &'static str)
        ensures
            r@ == match *self {
                SessionError::TooManySessions => "Too many sessions"@,
                SessionError::OutOfMemory => "Out of memory"@,
                SessionError::SessionNotFound => "Session not found"@,
                SessionError::RingFull => "Ring buffer full"@,
                SessionError::InvalidSession => "Invalid session"@,
            },
    {
        match self {
            SessionError::TooManySessions => "Too many sessions",
            SessionError::OutOfMemory => "Out of memory",
            SessionError::SessionNotFound => "Session not found",
            SessionError::RingFull => "Ring buffer full",
            SessionError::InvalidSession => "Invalid session",
        }
    }
}

} // verus!

verus! {

/// The command and response rings of one attached session.
pub struct SessionRings {
    id: SessionId,
    cmd: SpscRing,
    resp: SpscRing,
}

impl SessionRings {
    pub closed spec fn ident(&self) -> SessionId { self.id }
    pub closed spec fn cmd_ring(&self) -> SpscRing { self.cmd }
    pub closed spec fn resp_ring(&self) -> SpscRing { self.resp }
}

/// The identifiers of a list of session rings.
pub open spec fn ring_ids(s: Seq<SessionRings>) -> Seq<SessionId> {
    s.map_values(|r: SessionRings| r.ident())
}

/// The payload a slot carries: its inline bytes, the bytes of the shared
/// region `arena` it refers to (`None` when they lie past the region's
/// end), or nothing for an empty slot.
pub open spec fn slot_payload(slot: Slot, arena: Seq<u8>) -> Option<Seq<u8>> {
    match inline_bytes(slot) {
        Some(b) => Some(b),
        None => match offset_of(slot) {
            Some(o) => if o + slot.len <= arena.len() {
                Some(arena.subrange(o as int, o + slot.len))
            } else {
                None
            },
            None => Some(Seq::empty()),
        },
    }
}

/// Whether two registries hold the same descriptors and counters.
pub open spec fn same_registry(a: SessionRegistry, b: SessionRegistry) -> bool {
    a.descs() == b.descs() && a.next_id() == b.next_id() && a.active() == b.active() && a.capacity() == b.capacity()
}

/// Whether `bytes` decode to a command: a whole header and the key and
/// value its lengths announce.
pub open spec fn decodes(bytes: Seq<u8>) -> bool {
    bytes.len() >= 24 && {
        let h = cmd_header_from(bytes);
        bytes.len() >= 24 + h.key_len + h.val_len
    }
}

proof fn lemma_first_at(s: Seq<SessionId>, x: SessionId, k: int)
    requires
        0 <= k < s.len(),
        s[k] == x,
        forall|j: int| 0 <= j < k ==> s[j] != x,
    ensures
        first_index(s, x) == Some(k),
{
    lemma_first_index(s, x);
    if first_index(s, x) is None {
        assert(s.contains(x));
    }
}

/// Attaches client sessions to the session registry, each with a command
/// ring and a response ring of the same capacity, and batches response
/// notifications: only a response that finds no notification pending asks
/// for the client to be woken.
pub struct SessionManager {
    registry: SessionRegistry,
    rings: Vec<SessionRings>,
    ring_capacity: u64,
}

impl SessionManager {
    pub closed spec fn reg(&self) -> SessionRegistry { self.registry }
    pub closed spec fn attached(&self) -> Seq<SessionRings> { self.rings@ }
    pub closed spec fn ring_cap(&self) -> u64 { self.ring_capacity }

    pub closed spec fn wf(&self) -> bool {
        &&& self.registry.wf()
        &&& is_pow2(self.ring_capacity)
        &&& SPSC_HEADER_SIZE + self.ring_capacity * SLOT_SIZE <= usize::MAX
        &&& forall|k: int| 0 <= k < self.rings@.len() ==> {
            &&& (#[trigger] self.rings@[k]).cmd.wf() && self.rings@[k].resp.wf()
            &&& self.rings@[k].cmd.cap() == self.ring_capacity && self.rings@[k].resp.cap() == self.ring_capacity
        }
    }

    /// The position of the rings of `id`, when the registry knows the
    /// session and rings were made for it.
    pub open spec fn rings_at(&self, id: SessionId) -> Option<int> {
        match session_slot(self.reg().descs(), id) {
            None => None,
            Some(_) => first_index(ring_ids(self.attached()), id),
        }
    }

    /// A manager of the sessions of `registry` with rings of
    /// `ring_capacity` slots, a power of two.
    pub fn new(registry: SessionRegistry, ring_capacity: u64) -> (m: SessionManager)
        requires
            registry.wf(),
            is_pow2(ring_capacity),
            SPSC_HEADER_SIZE + ring_capacity * SLOT_SIZE <= usize::MAX,
        ensures
            m.wf(),
            m.reg() == registry,
            m.attached().len() == 0,
            m.ring_cap() == ring_capacity,
    {
        SessionManager { registry, rings: Vec::new(), ring_capacity }
    }

    fn position(&self, id: SessionId) -> (r: Option<usize>)
        ensures
            r matches Some(k) ==> first_index(ring_ids(self.attached()), id) == Some(k as int),
            r is None ==> first_index(ring_ids(self.attached()), id) is None,
    {
        let mut k: usize = 0;
        while k < self.rings.len()
            invariant
                k <= self.rings@.len(),
                forall|j: int| 0 <= j < k ==> self.rings@[j].id != id,
            decreases self.rings@.len() - k,
        {
            if self.rings[k].id == id {
                proof {
                    lemma_first_index(ring_ids(self.rings@), id);
                    assert(ring_ids(self.rings@)[k as int] == id);
                    if first_index(ring_ids(self.rings@), id) is Some {
                        let i = first_index(ring_ids(self.rings@), id).unwrap();
                        assert(ring_ids(self.rings@)[i] == self.rings@[i].id);
                    }
                }
                return Some(k);
            }
            k = k + 1;
        }
        proof {
            lemma_first_index(ring_ids(self.rings@), id);
            if first_index(ring_ids(self.rings@), id) is Some {
                let i = first_index(ring_ids(self.rings@), id).unwrap();
                assert(ring_ids(self.rings@)[i] == self.rings@[i].id);
            }
        }
        None
    }

    /// Attaches a session for process `pid`: a registry descriptor with the
    /// ring capacity, and two empty rings. Fails when the registry has no
    /// room or its identifiers are used up.
    pub fn attach_session(&mut self, pid: u32) -> (r: Result<SessionId, SessionError>)
        requires
            old(self).wf(),
        ensures
            final(self).wf(),
            final(self).ring_cap() == old(self).ring_cap(),
            (old(self).reg().active() >= old(self).reg().capacity() || old(self).reg().next_id() == 0
                || session_slot(old(self).reg().descs(), 0) is None)
                ==> r == Err::<SessionId, SessionError>(SessionError::TooManySessions)
                    && same_registry(final(self).reg(), old(self).reg()) && final(self).attached() == old(self).attached(),
            !(old(self).reg().active() >= old(self).reg().capacity() || old(self).reg().next_id() == 0
                || session_slot(old(self).reg().descs(), 0) is None)
                ==> {
                    let i = session_slot(old(self).reg().descs(), 0).unwrap();
                    let id = old(self).reg().next_id();
                    &&& r == Ok::<SessionId, SessionError>(id)
                    &&& final(self).reg().next_id() == id.wrapping_add(1)
                    &&& final(self).reg().active() == old(self).reg().active() + 1
                    &&& final(self).reg().capacity() == old(self).reg().capacity()
                    &&& final(self).reg().descs().len() == old(self).reg().descs().len()
                    &&& forall|j: int| 0 <= j < old(self).reg().descs().len() && j != i
                        ==> #[trigger] final(self).reg().descs()[j] == old(self).reg().descs()[j]
                    &&& final(self).reg().descs()[i] == (SessionDesc {
                        id,
                        pid,
                        ring_capacity: old(self).ring_cap(),
                        last_activity: final(self).reg().descs()[i].last_activity,
                        ..old(self).reg().descs()[i]
                    })
                    &&& exists|k: int| {
                        &&& first_index(ring_ids(final(self).attached()), id) == Some(k)
                        &&& (#[trigger] final(self).attached()[k]).cmd_ring()@.len() == 0
                        &&& final(self).attached()[k].resp_ring()@.len() == 0
                        &&& final(self).attached()[k].cmd_ring().cap() == old(self).ring_cap()
                    }
                },
    {
        let created = self.registry.create_session(pid, self.ring_capacity);
        match created {
            None => Err(SessionError::TooManySessions),
            Some(id) => {
                let ghost before = self.rings@;
                let cmd = SpscRing::init(self.ring_capacity);
                let resp = SpscRing::init(self.ring_capacity);
                let entry = SessionRings { id, cmd, resp };
                let found = self.position(id);
                let ghost k: int;
                match found {
                    Some(p) => {
                        proof { lemma_first_index(ring_ids(self.rings@), id); }
                        self.rings.set(p, entry);
                        proof {
                            k = p as int;
                            lemma_first_index(ring_ids(before), id);
                            assert forall|j: int| 0 <= j < k implies ring_ids(self.rings@)[j] != id by {
                                assert(ring_ids(before)[j] == before[j].id);
                            }
                            lemma_first_at(ring_ids(self.rings@), id, k);
                        }
                    },
                    None => {
                        self.rings.push(entry);
                        proof {
                            k = before.len() as int;
                            lemma_first_index(ring_ids(before), id);
                            assert forall|j: int| 0 <= j < k implies ring_ids(self.rings@)[j] != id by {
                                assert(ring_ids(before)[j] == before[j].id);
                                assert(ring_ids(before).contains(before[j].id));
                            }
                            lemma_first_at(ring_ids(self.rings@), id, k);
                        }
                    },
                }
                proof {
                    assert(self.rings@[k] == entry);
                    assert forall|q: int| 0 <= q < self.rings@.len() implies {
                        &&& (#[trigger] self.rings@[q]).cmd.wf() && self.rings@[q].resp.wf()
                        &&& self.rings@[q].cmd.cap() == self.ring_capacity && self.rings@[q].resp.cap() == self.ring_capacity
                    } by {
                        if q != k {
                            assert(self.rings@[q] == before[q]);
                        }
                    }
                    assert(first_index(ring_ids(self.rings@), id) == Some(k));
                    assert(self.attached()[k].cmd_ring()@.len() == 0);
                }
                Ok(id)
            },
        }
    }

    /// Detaches a session: frees its descriptor and drops its rings.
    pub fn detach_session(&mut self, session_id: SessionId) -> (r: Result<(), SessionError>)
        requires
            old(self).wf(),
        ensures
            final(self).wf(),
            final(self).ring_cap() == old(self).ring_cap(),
            session_id == 0 ==> r == Err::<(), SessionError>(SessionError::SessionNotFound)
                && same_registry(final(self).reg(), old(self).reg())
                && final(self).attached() == old(self).attached(),
            session_id != 0 ==> match session_slot(old(self).reg().descs(), session_id) {
                None => r == Err::<(), SessionError>(SessionError::SessionNotFound)
                    && same_registry(final(self).reg(), old(self).reg())
                    && final(self).attached() == old(self).attached(),
                Some(i) => r is Ok
                    && final(self).reg().descs() == old(self).reg().descs().update(i, (SessionDesc {
                        id: 0,
                        pid: 0,
                        ..old(self).reg().descs()[i]
                    }))
                    && final(self).reg().active() == old(self).reg().active() - 1
                    && final(self).reg().next_id() == old(self).reg().next_id()
                    && final(self).reg().capacity() == old(self).reg().capacity()
                    && final(self).attached() == match first_index(ring_ids(old(self).attached()), session_id) {
                        Some(k) => old(self).attached().remove(k),
                        None => old(self).attached(),
                    },
            },
    {
        if !self.registry.remove_session(session_id) {
            return Err(SessionError::SessionNotFound);
        }
        let ghost before = self.rings@;
        match self.position(session_id) {
            Some(k) => {
                proof { lemma_first_index(ring_ids(self.rings@), session_id); }
                let _rings = self.rings.remove(k);
                proof {
                    assert forall|q: int| 0 <= q < self.rings@.len() implies {
                        &&& (#[trigger] self.rings@[q]).cmd.wf() && self.rings@[q].resp.wf()
                        &&& self.rings@[q].cmd.cap() == self.ring_capacity && self.rings@[q].resp.cap() == self.ring_capacity
                    } by {
                        if q < k { assert(self.rings@[q] == before[q]); } else { assert(self.rings@[q] == before[q + 1]); }
                    }
                }
            },
            None => {},
        }
        Ok(())
    }

    /// The command ring of a session.
    pub fn get_cmd_ring(&self, session_id: SessionId) -> (r: Result<&SpscRing, SessionError>)
        requires
            self.wf(),
        ensures
            match self.rings_at(session_id) {
                None => r == Err::<&SpscRing, SessionError>(SessionError::SessionNotFound),
                Some(k) => r == Ok::<&SpscRing, SessionError>(&self.attached()[k].cmd_ring()),
            },
    {
        if self.registry.get_session(session_id).is_none() {
            return Err(SessionError::SessionNotFound);
        }
        match self.position(session_id) {
            Some(k) => {
                proof { lemma_first_index(ring_ids(self.rings@), session_id); }
                Ok(&self.rings[k].cmd)
            },
            None => Err(SessionError::SessionNotFound),
        }
    }

    /// The response ring of a session.
    pub fn get_resp_ring(&self, session_id: SessionId) -> (r: Result<&SpscRing, SessionError>)
        requires
            self.wf(),
        ensures
            match self.rings_at(session_id) {
                None => r == Err::<&SpscRing, SessionError>(SessionError::SessionNotFound),
                Some(k) => r == Ok::<&SpscRing, SessionError>(&self.attached()[k].resp_ring()),
            },
    {
        if self.registry.get_session(session_id).is_none() {
            return Err(SessionError::SessionNotFound);
        }
        match self.position(session_id) {
            Some(k) => {
                proof { lemma_first_index(ring_ids(self.rings@), session_id); }
                Ok(&self.rings[k].resp)
            },
            None => Err(SessionError::SessionNotFound),
        }
    }

    /// Queues a response for a session and counts it as a pending
    /// notification; gives whether the client must be woken, which is when
    /// no notification was pending before.
    pub fn send_response(&mut self, session_id: SessionId, slot: Slot) -> (r: Result<bool, SessionError>)
        requires
            old(self).wf(),
        ensures
            final(self).wf(),
            final(self).ring_cap() == old(self).ring_cap(),
            match old(self).rings_at(session_id) {
                None => r == Err::<bool, SessionError>(SessionError::SessionNotFound)
                    && same_registry(final(self).reg(), old(self).reg()) && final(self).attached() == old(self).attached(),
                Some(k) => {
                    let ring = old(self).attached()[k].resp_ring();
                    if ring@.len() >= ring.cap() || ring.pushed() == u64::MAX {
                        r == Err::<bool, SessionError>(SessionError::RingFull)
                            && same_registry(final(self).reg(), old(self).reg())
                            && final(self).attached() == old(self).attached()
                    } else {
                        let i = session_slot(old(self).reg().descs(), session_id).unwrap();
                        let d = old(self).reg().descs()[i];
                        &&& r == Ok::<bool, SessionError>(d.pending_notifications == 0)
                        &&& final(self).attached().len() == old(self).attached().len()
                        &&& forall|q: int| 0 <= q < old(self).attached().len() && q != k
                            ==> #[trigger] final(self).attached()[q] == old(self).attached()[q]
                        &&& final(self).attached()[k].ident() == session_id
                        &&& final(self).attached()[k].cmd_ring() == old(self).attached()[k].cmd_ring()
                        &&& final(self).attached()[k].resp_ring()@ == ring@.push(slot)
                        &&& final(self).reg().descs() == old(self).reg().descs().update(i, SessionDesc {
                            pending_notifications: d.pending_notifications.wrapping_add(1),
                            last_activity: final(self).reg().descs()[i].last_activity,
                            ..d
                        })
                        &&& final(self).reg().next_id() == old(self).reg().next_id()
                        &&& final(self).reg().active() == old(self).reg().active()
                        &&& final(self).reg().capacity() == old(self).reg().capacity()
                    }
                },
            },
    {
        if self.registry.get_session(session_id).is_none() {
            return Err(SessionError::SessionNotFound);
        }
        let k = match self.position(session_id) {
            Some(k) => k,
            None => {
                return Err(SessionError::SessionNotFound);
            },
        };
        proof { lemma_first_index(ring_ids(self.rings@), session_id); }
        let ghost before = self.rings@;
        if self.rings[k].resp.pushed_count() == u64::MAX || self.rings[k].resp.is_full() {
            return Err(SessionError::RingFull);
        }
        let mut entry = self.rings.remove(k);
        let pushed = entry.resp.try_push(slot);
        self.rings.insert(k, entry);
        proof { assert(pushed); }
        proof {
            assert forall|q: int| 0 <= q < self.rings@.len() implies {
                &&& (#[trigger] self.rings@[q]).cmd.wf() && self.rings@[q].resp.wf()
                &&& self.rings@[q].cmd.cap() == self.ring_capacity && self.rings@[q].resp.cap() == self.ring_capacity
            } by {
                if q != k { assert(self.rings@[q] == before[q]); }
            }
        }
        match self.registry.note_pending(session_id) {
            Some(prev) => Ok(prev == 0),
            None => Err(SessionError::SessionNotFound),
        }
    }

    /// Queues a command on a session's command ring, as its client does.
    pub fn push_command(&mut self, session_id: SessionId, slot: Slot) -> (r: Result<(), SessionError>)
        requires
            old(self).wf(),
        ensures
            final(self).wf(),
            final(self).ring_cap() == old(self).ring_cap(),
            same_registry(final(self).reg(), old(self).reg()),
            match old(self).rings_at(session_id) {
                None => r == Err::<(), SessionError>(SessionError::SessionNotFound)
                    && final(self).attached() == old(self).attached(),
                Some(k) => {
                    let ring = old(self).attached()[k].cmd_ring();
                    if ring@.len() >= ring.cap() || ring.pushed() == u64::MAX {
                        r == Err::<(), SessionError>(SessionError::RingFull)
                            && final(self).attached() == old(self).attached()
                    } else {
                        &&& r is Ok
                        &&& final(self).attached().len() == old(self).attached().len()
                        &&& forall|q: int| 0 <= q < old(self).attached().len() && q != k
                            ==> #[trigger] final(self).attached()[q] == old(self).attached()[q]
                        &&& final(self).attached()[k].ident() == session_id
                        &&& final(self).attached()[k].resp_ring() == old(self).attached()[k].resp_ring()
                        &&& final(self).attached()[k].cmd_ring()@ == ring@.push(slot)
                    }
                },
            },
    {
        if self.registry.get_session(session_id).is_none() {
            return Err(SessionError::SessionNotFound);
        }
        let k = match self.position(session_id) {
            Some(k) => k,
            None => {
                return Err(SessionError::SessionNotFound);
            },
        };
        proof { lemma_first_index(ring_ids(self.rings@), session_id); }
        let ghost before = self.rings@;
        if self.rings[k].cmd.pushed_count() == u64::MAX || self.rings[k].cmd.is_full() {
            return Err(SessionError::RingFull);
        }
        let mut entry = self.rings.remove(k);
        let pushed = entry.cmd.try_push(slot);
        self.rings.insert(k, entry);
        proof {
            assert(pushed);
            assert forall|q: int| 0 <= q < self.rings@.len() implies {
                &&& (#[trigger] self.rings@[q]).cmd.wf() && self.rings@[q].resp.wf()
                &&& self.rings@[q].cmd.cap() == self.ring_capacity && self.rings@[q].resp.cap() == self.ring_capacity
            } by {
                if q != k { assert(self.rings@[q] == before[q]); }
            }
        }
        Ok(())
    }

    /// Clears a session's pending notifications.
    pub fn ack_notifications(&mut self, session_id: SessionId) -> (r: Result<(), SessionError>)
        requires
            old(self).wf(),
        ensures
            final(self).wf(),
            final(self).ring_cap() == old(self).ring_cap(),
            final(self).attached() == old(self).attached(),
            final(self).reg().next_id() == old(self).reg().next_id(),
            final(self).reg().active() == old(self).reg().active(),
            final(self).reg().capacity() == old(self).reg().capacity(),
            match session_slot(old(self).reg().descs(), session_id) {
                None => r == Err::<(), SessionError>(SessionError::SessionNotFound)
                    && final(self).reg().descs() == old(self).reg().descs(),
                Some(i) => r is Ok && final(self).reg().descs() == old(self).reg().descs().update(i, SessionDesc {
                    pending_notifications: 0,
                    last_activity: final(self).reg().descs()[i].last_activity,
                    ..old(self).reg().descs()[i]
                }),
            },
    {
        if self.registry.clear_pending(session_id) {
            Ok(())
        } else {
            Err(SessionError::SessionNotFound)
        }
    }

    /// Frees the descriptors of sessions idle longer than `timeout_secs`
    /// now; their rings stay until they are detached.
    pub fn cleanup_stale_sessions(&mut self, timeout_secs: u64) -> (r: usize)
        requires
            old(self).wf(),
        ensures
            final(self).wf(),
            final(self).ring_cap() == old(self).ring_cap(),
            final(self).attached() == old(self).attached(),
            exists|now: u64| {
                &&& r == stale_count(old(self).reg().descs(), now, timeout_secs)
                &&& final(self).reg().descs() == old(self).reg().descs().map_values(
                    |d: SessionDesc| cleaned_desc(d, now, timeout_secs),
                )
            },
    {
        let now = unix_secs();
        let r = self.registry.cleanup_stale_sessions_at(now, timeout_secs);
        proof {
            assert(self.registry.descs() =~= old(self).reg().descs().map_values(
                |d: SessionDesc| cleaned_desc(d, now, timeout_secs),
            ));
        }
        r
    }

    /// The identifiers of the active sessions, in table order.
    pub fn get_active_sessions(&self) -> (r: Vec<SessionId>)
        ensures
            r@ == active_ids(self.reg().descs()),
    {
        self.registry.get_active_sessions()
    }

    /// Takes the next command from a session's command ring. A slot's
    /// payload is inline or lies in the shared region `arena`; a payload
    /// that does not decode to a command, or lies past the region, makes
    /// the session invalid.
    pub fn try_get_command(&mut self, session_id: SessionId, arena: &[u8]) -> (r: Result<Option<Command>, SessionError>)
        requires
            old(self).wf(),
        ensures
            final(self).wf(),
            final(self).ring_cap() == old(self).ring_cap(),
            same_registry(final(self).reg(), old(self).reg()),
            match old(self).rings_at(session_id) {
                None => r == Err::<Option<Command>, SessionError>(SessionError::SessionNotFound)
                    && final(self).attached() == old(self).attached(),
                Some(k) => {
                    let ring = old(self).attached()[k].cmd_ring();
                    &&& final(self).attached().len() == old(self).attached().len()
                    &&& forall|q: int| 0 <= q < old(self).attached().len() && q != k
                        ==> #[trigger] final(self).attached()[q] == old(self).attached()[q]
                    &&& final(self).attached()[k].ident() == session_id
                    &&& final(self).attached()[k].resp_ring() == old(self).attached()[k].resp_ring()
                    &&& if ring@.len() == 0 {
                        r == Ok::<Option<Command>, SessionError>(None) && final(self).attached()[k].cmd_ring()@ == ring@
                    } else {
                        &&& final(self).attached()[k].cmd_ring()@ == ring@.drop_first()
                        &&& match slot_payload(ring@[0], arena@) {
                            Some(b) => if decodes(b) {
                                r matches Ok(Some(c)) && {
                                    let h = cmd_header_from(b);
                                    &&& c.header == h
                                    &&& c.key@ == b.subrange(24, 24 + h.key_len)
                                    &&& c.value@ == b.subrange(24 + h.key_len, 24 + h.key_len + h.val_len)
                                }
                            } else {
                                r == Err::<Option<Command>, SessionError>(SessionError::InvalidSession)
                            },
                            None => r == Err::<Option<Command>, SessionError>(SessionError::InvalidSession),
                        }
                    }
                },
            },
    {
        if self.registry.get_session(session_id).is_none() {
            return Err(SessionError::SessionNotFound);
        }
        let k = match self.position(session_id) {
            Some(k) => k,
            None => {
                return Err(SessionError::SessionNotFound);
            },
        };
        proof { lemma_first_index(ring_ids(self.rings@), session_id); }
        let ghost before = self.rings@;
        let mut entry = self.rings.remove(k);
        let popped = entry.cmd.try_pop();
        self.rings.insert(k, entry);
        proof {
            assert forall|q: int| 0 <= q < self.rings@.len() implies {
                &&& (#[trigger] self.rings@[q]).cmd.wf() && self.rings@[q].resp.wf()
                &&& self.rings@[q].cmd.cap() == self.ring_capacity && self.rings@[q].resp.cap() == self.ring_capacity
            } by {
                if q != k { assert(self.rings@[q] == before[q]); }
            }
        }
        let slot = match popped {
            None => {
                return Ok(None);
            },
            Some(s) => s,
        };
        let bytes: Vec<u8> = match slot.get_inline_data() {
            Some(b) => b,
            None => match slot.get_arena_offset() {
                Some(o) => {
                    let len = slot.len as u64;
                    if o > arena.len() as u64 || len > arena.len() as u64 - o {
                        return Err(SessionError::InvalidSession);
                    }
                    slice_to_vec(slice_subrange(arena, o as usize, (o + len) as usize))
                },
                None => Vec::new(),
            },
        };
        match Command::from_bytes(bytes.as_slice()) {
            Ok(cmd) => Ok(Some(cmd)),
            Err(_) => Err(SessionError::InvalidSession),
        }
    }
}


} // verus!
