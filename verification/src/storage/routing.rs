//! How the hybrid engine routes document operations between the cache and
//! the persistent layer under each collection's cache strategy, and the
//! queue of persistent writes that the write-behind strategy delays.
//!
//! A collection without a schema is treated as `NoCache`. The engine runs
//! the steps in order and stops at the first step that fails.
use vstd::prelude::*;
use crate::document::{Document, DocumentId};
use crate::schema::CacheStrategy;
use super::hybrid::HybridStorageStats;

verus! {

/// One step of an operation of the engine.
#[derive(Debug, Clone, Copy, PartialEq, Eq, Structural)]
pub enum StorageStep {
    PersistentInsert,
    PersistentUpdate,
    PersistentDelete,
    PersistentRead,
    CacheRead,
    CacheStore,
    CacheRemove,
    /// Queue the persistent write for after `delay_ms` milliseconds.
    QueueWrite { delay_ms: u64 },
    /// Queue the persistent deletion for after `delay_ms` milliseconds.
    QueueDelete { delay_ms: u64 },
    CountCacheHit,
    CountCacheMiss,
    CountCacheWrite,
    CountInvalidation,
    CountPersistentRead,
    CountPersistentWrite,
}

/// The kind of a write.
#[derive(Debug, Clone, Copy, PartialEq, Eq, Structural)]
pub enum WriteKind {
    Insert,
    Update,
    Delete,
}

/// The steps of a write under `strategy` (`None`: no schema).
pub open spec fn write_plan(strategy: Option<CacheStrategy>, kind: WriteKind) -> Seq<StorageStep> {
    match strategy {
        Some(CacheStrategy::WriteThrough) => match kind {
            WriteKind::Delete => seq![StorageStep::CacheRemove, StorageStep::PersistentDelete,
                StorageStep::CountCacheWrite, StorageStep::CountPersistentWrite],
            _ => seq![StorageStep::PersistentInsert, StorageStep::CacheStore,
                StorageStep::CountCacheWrite, StorageStep::CountPersistentWrite],
        },
        Some(CacheStrategy::WriteBehind { delay_ms }) => match kind {
            WriteKind::Delete => seq![StorageStep::CacheRemove, StorageStep::QueueDelete { delay_ms },
                StorageStep::CountCacheWrite],
            _ => seq![StorageStep::CacheStore, StorageStep::QueueWrite { delay_ms }, StorageStep::CountCacheWrite],
        },
        Some(CacheStrategy::ReadThrough) => seq![persistent_step(kind), StorageStep::CacheRemove,
            StorageStep::CountInvalidation, StorageStep::CountPersistentWrite],
        _ => seq![persistent_step(kind), StorageStep::CountPersistentWrite],
    }
}

/// The persistent-layer operation of a write.
pub open spec fn persistent_step(kind: WriteKind) -> StorageStep {
    match kind {
        WriteKind::Insert => StorageStep::PersistentInsert,
        WriteKind::Update => StorageStep::PersistentUpdate,
        WriteKind::Delete => StorageStep::PersistentDelete,
    }
}

/// Whether a read consults the cache first.
pub open spec fn reads_cache(strategy: Option<CacheStrategy>) -> bool {
    strategy matches Some(s) && !(s is NoCache)
}

/// The steps of a read, given whether the cache held the document and
/// whether the persistent layer did.
pub open spec fn read_plan(strategy: Option<CacheStrategy>, cache_hit: bool, found: bool) -> Seq<StorageStep> {
    if !reads_cache(strategy) {
        seq![StorageStep::PersistentRead, StorageStep::CountPersistentRead]
    } else if cache_hit {
        seq![StorageStep::CacheRead, StorageStep::CountCacheHit]
    } else if found {
        seq![StorageStep::CacheRead, StorageStep::CountCacheMiss, StorageStep::PersistentRead,
            StorageStep::CacheStore, StorageStep::CountPersistentRead]
    } else {
        seq![StorageStep::CacheRead, StorageStep::CountCacheMiss, StorageStep::PersistentRead,
            StorageStep::CountPersistentRead]
    }
}

fn persistent_op(kind: WriteKind) -> (s: StorageStep)
    ensures
        s == persistent_step(kind),
{
    match kind {
        WriteKind::Insert => StorageStep::PersistentInsert,
        WriteKind::Update => StorageStep::PersistentUpdate,
        WriteKind::Delete => StorageStep::PersistentDelete,
    }
}

/// The steps of a write under `strategy` (`None`: no schema).
pub fn write_steps(strategy: Option<CacheStrategy>, kind: WriteKind) -> (r: Vec<StorageStep>)
    ensures
        r@ == write_plan(strategy, kind),
{
    let r = match strategy {
        Some(CacheStrategy::WriteThrough) => match kind {
            WriteKind::Delete => vec![StorageStep::CacheRemove, StorageStep::PersistentDelete,
                StorageStep::CountCacheWrite, StorageStep::CountPersistentWrite],
            _ => vec![StorageStep::PersistentInsert, StorageStep::CacheStore,
                StorageStep::CountCacheWrite, StorageStep::CountPersistentWrite],
        },
        Some(CacheStrategy::WriteBehind { delay_ms }) => match kind {
            WriteKind::Delete => vec![StorageStep::CacheRemove, StorageStep::QueueDelete { delay_ms },
                StorageStep::CountCacheWrite],
            _ => vec![StorageStep::CacheStore, StorageStep::QueueWrite { delay_ms }, StorageStep::CountCacheWrite],
        },
        Some(CacheStrategy::ReadThrough) => vec![persistent_op(kind), StorageStep::CacheRemove,
            StorageStep::CountInvalidation, StorageStep::CountPersistentWrite],
        _ => vec![persistent_op(kind), StorageStep::CountPersistentWrite],
    };
    proof { assert(r@ =~= write_plan(strategy, kind)); }
    r
}

/// Whether a read under `strategy` consults the cache first.
pub fn read_uses_cache(strategy: Option<CacheStrategy>) -> (r: bool)
    ensures
        r == reads_cache(strategy),
{
    match strategy {
        Some(CacheStrategy::NoCache) => false,
        Some(_) => true,
        None => false,
    }
}

/// The steps of a read, given whether the cache held the document and
/// whether the persistent layer did.
pub fn read_steps(strategy: Option<CacheStrategy>, cache_hit: bool, found: bool) -> (r: Vec<StorageStep>)
    ensures
        r@ == read_plan(strategy, cache_hit, found),
{
    let r = if !read_uses_cache(strategy) {
        vec![StorageStep::PersistentRead, StorageStep::CountPersistentRead]
    } else if cache_hit {
        vec![StorageStep::CacheRead, StorageStep::CountCacheHit]
    } else if found {
        vec![StorageStep::CacheRead, StorageStep::CountCacheMiss, StorageStep::PersistentRead,
            StorageStep::CacheStore, StorageStep::CountPersistentRead]
    } else {
        vec![StorageStep::CacheRead, StorageStep::CountCacheMiss, StorageStep::PersistentRead,
            StorageStep::CountPersistentRead]
    };
    proof { assert(r@ =~= read_plan(strategy, cache_hit, found)); }
    r
}

/// The counters after a step: each counting step adds one (wrapping) to
/// its counter; other steps change nothing.
pub open spec fn counted(s: HybridStorageStats, step: StorageStep) -> HybridStorageStats {
    match step {
        StorageStep::CountCacheHit => s.with_hits(s.hits().wrapping_add(1)),
        StorageStep::CountCacheMiss => s.with_misses(s.misses().wrapping_add(1)),
        StorageStep::CountCacheWrite => s.with_writes(s.writes().wrapping_add(1)),
        StorageStep::CountInvalidation => s.with_invalidations(s.invalidations().wrapping_add(1)),
        StorageStep::CountPersistentRead => s.with_preads(s.preads().wrapping_add(1)),
        StorageStep::CountPersistentWrite => s.with_pwrites(s.pwrites().wrapping_add(1)),
        _ => s,
    }
}

/// Applies a step's count to the counters.
pub fn count_step(stats: &mut HybridStorageStats, step: StorageStep)
    ensures
        *final(stats) == counted(*old(stats), step),
{
    match step {
        StorageStep::CountCacheHit => stats.record_cache_hit(),
        StorageStep::CountCacheMiss => stats.record_cache_miss(),
        StorageStep::CountCacheWrite => stats.record_cache_write(),
        StorageStep::CountInvalidation => stats.record_cache_invalidation(),
        StorageStep::CountPersistentRead => stats.record_persistent_read(),
        StorageStep::CountPersistentWrite => stats.record_persistent_write(),
        _ => {},
    }
}

/// Whether a plan writes `kind` to the persistent layer, now or through
/// the write-behind queue.
pub open spec fn reaches_persistence(plan: Seq<StorageStep>, kind: WriteKind) -> bool {
    exists|i: int| 0 <= i < plan.len() && {
        let s = #[trigger] plan[i];
        match kind {
            WriteKind::Delete => s is PersistentDelete || s is QueueDelete,
            _ => s is PersistentInsert || s is PersistentUpdate || s is QueueWrite,
        }
    }
}

/// Every write reaches the persistent layer, now or later, whatever the
/// cache strategy.
pub proof fn lemma_writes_reach_persistence(strategy: Option<CacheStrategy>, kind: WriteKind)
    ensures
        reaches_persistence(write_plan(strategy, kind), kind),
{
    let p = write_plan(strategy, kind);
    match strategy {
        Some(CacheStrategy::WriteThrough) => {
            assert(p[0] is PersistentInsert || p[1] is PersistentDelete);
            if kind is Delete { assert(p[1] is PersistentDelete); } else { assert(p[0] is PersistentInsert); }
        },
        Some(CacheStrategy::WriteBehind { delay_ms }) => {
            if kind is Delete { assert(p[1] is QueueDelete); } else { assert(p[1] is QueueWrite); }
        },
        _ => {
            assert(p[0] == persistent_step(kind));
        },
    }
}

/// Every write that goes through the cache leaves it consistent: the
/// document is stored there, or the entry is removed.
pub proof fn lemma_writes_touch_cache(strategy: Option<CacheStrategy>, kind: WriteKind)
    requires
        reads_cache(strategy),
    ensures
        write_plan(strategy, kind).contains(StorageStep::CacheStore)
            || write_plan(strategy, kind).contains(StorageStep::CacheRemove),
{
    let p = write_plan(strategy, kind);
    match strategy {
        Some(CacheStrategy::WriteThrough) => {
            if kind is Delete { assert(p[0] == StorageStep::CacheRemove); } else { assert(p[1] == StorageStep::CacheStore); }
        },
        Some(CacheStrategy::WriteBehind { delay_ms }) => {
            if kind is Delete { assert(p[0] == StorageStep::CacheRemove); } else { assert(p[0] == StorageStep::CacheStore); }
        },
        _ => {
            assert(p[1] == StorageStep::CacheRemove);
        },
    }
}

/// A persistent operation waiting in the write-behind queue.
pub enum WriteBehindOperation {
    Write(Document),
    Delete,
}

/// An entry of the write-behind queue; times are milliseconds on a
/// monotonic clock.
pub struct WriteBehindEntry {
    pub collection: String,
    pub doc_id: DocumentId,
    pub operation: WriteBehindOperation,
    pub delay_ms: u64,
    pub queued_at_ms: u64,
}

/// Whether an entry's delay has passed at `now_ms` (a clock that reads
/// earlier than the entry counts as no time passed).
pub open spec fn is_due(e: WriteBehindEntry, now_ms: u64) -> bool {
    (if now_ms >= e.queued_at_ms { now_ms - e.queued_at_ms } else { 0 }) >= e.delay_ms
}

/// Takes the entries whose delay has passed out of the queue, keeping the
/// order of both the entries taken and those left.
pub fn take_due(queue: &mut Vec<WriteBehindEntry>, now_ms: u64) -> (due: Vec<WriteBehindEntry>)
    ensures
        due@ == old(queue)@.filter(|e: WriteBehindEntry| is_due(e, now_ms)),
        final(queue)@ == old(queue)@.filter(|e: WriteBehindEntry| !is_due(e, now_ms)),
{
    let ghost orig = queue@;
    let ghost due_pred = |e: WriteBehindEntry| is_due(e, now_ms);
    let ghost keep_pred = |e: WriteBehindEntry| !is_due(e, now_ms);
    let mut due: Vec<WriteBehindEntry> = Vec::new();
    let mut i: usize = 0;
    let ghost mut k: int = 0;
    proof {
        reveal(Seq::filter);
        assert(orig.take(0) =~= Seq::<WriteBehindEntry>::empty());
        assert(orig.skip(0) =~= orig);
        assert(queue@ =~= orig.take(0).filter(keep_pred) + orig.skip(0));
    }
    while i < queue.len()
        invariant
            0 <= k <= orig.len(),
            i == orig.take(k).filter(keep_pred).len(),
            queue@ == orig.take(k).filter(keep_pred) + orig.skip(k),
            due@ == orig.take(k).filter(due_pred),
            due_pred == (|e: WriteBehindEntry| is_due(e, now_ms)),
            keep_pred == (|e: WriteBehindEntry| !is_due(e, now_ms)),
        decreases queue@.len() - i,
    {
        let ghost kept = orig.take(k).filter(keep_pred);
        let ghost taken = orig.take(k).filter(due_pred);
        proof {
            reveal(Seq::filter);
            assert(orig.take(k + 1).drop_last() =~= orig.take(k));
            assert(orig.take(k + 1).last() == orig[k]);
            assert(queue@[i as int] == orig[k]);
            assert(orig.skip(k).drop_first() =~= orig.skip(k + 1));
            assert(orig.take(k + 1).filter(keep_pred) == if keep_pred(orig[k]) { kept.push(orig[k]) } else { kept });
            assert(orig.take(k + 1).filter(due_pred) == if due_pred(orig[k]) { taken.push(orig[k]) } else { taken });
        }
        let entry_due = {
            let e = &queue[i];
            let elapsed: u64 = if now_ms >= e.queued_at_ms { now_ms - e.queued_at_ms } else { 0 };
            elapsed >= e.delay_ms
        };
        proof { assert(entry_due == is_due(orig[k], now_ms)); }
        if entry_due {
            let ghost before = queue@;
            let e = queue.remove(i);
            due.push(e);
            proof {
                assert(before == kept + orig.skip(k));
                assert(queue@ =~= kept + orig.skip(k + 1));
                assert(due@ =~= taken.push(orig[k]));
            }
        } else {
            proof {
                assert(queue@ =~= kept.push(orig[k]) + orig.skip(k + 1));
            }
            i = i + 1;
        }
        proof { k = k + 1; }
    }
    proof {
        assert(orig.take(k).filter(keep_pred).len() + orig.skip(k).len() == queue@.len());
        assert(k == orig.len());
        assert(orig.take(k) =~= orig);
        assert(orig.skip(k) =~= Seq::<WriteBehindEntry>::empty());
    }
    due
}

} // verus!
