use veddb_core::document::{Document, DocumentId};
use veddb_core::schema::CacheStrategy;
use veddb_core::storage::hybrid::HybridStorageStats;
use veddb_core::storage::routing::{
    count_step, read_steps, read_uses_cache, take_due, write_steps, StorageStep, WriteBehindEntry,
    WriteBehindOperation, WriteKind,
};


#[test]
fn write_plans_by_strategy() {
    assert_eq!(write_steps(None, WriteKind::Insert), vec![StorageStep::PersistentInsert, StorageStep::CountPersistentWrite]);
    assert_eq!(
        write_steps(Some(CacheStrategy::NoCache), WriteKind::Update),
        vec![StorageStep::PersistentUpdate, StorageStep::CountPersistentWrite]
    );
    assert_eq!(
        write_steps(Some(CacheStrategy::WriteThrough), WriteKind::Insert),
        vec![StorageStep::PersistentInsert, StorageStep::CacheStore, StorageStep::CountCacheWrite, StorageStep::CountPersistentWrite]
    );
    // an update under write-through stores the document again
    assert_eq!(
        write_steps(Some(CacheStrategy::WriteThrough), WriteKind::Update),
        vec![StorageStep::PersistentInsert, StorageStep::CacheStore, StorageStep::CountCacheWrite, StorageStep::CountPersistentWrite]
    );
    assert_eq!(
        write_steps(Some(CacheStrategy::WriteThrough), WriteKind::Delete),
        vec![StorageStep::CacheRemove, StorageStep::PersistentDelete, StorageStep::CountCacheWrite, StorageStep::CountPersistentWrite]
    );
    assert_eq!(
        write_steps(Some(CacheStrategy::WriteBehind { delay_ms: 100 }), WriteKind::Insert),
        vec![StorageStep::CacheStore, StorageStep::QueueWrite { delay_ms: 100 }, StorageStep::CountCacheWrite]
    );
    assert_eq!(
        write_steps(Some(CacheStrategy::WriteBehind { delay_ms: 5 }), WriteKind::Delete),
        vec![StorageStep::CacheRemove, StorageStep::QueueDelete { delay_ms: 5 }, StorageStep::CountCacheWrite]
    );
    assert_eq!(
        write_steps(Some(CacheStrategy::ReadThrough), WriteKind::Delete),
        vec![StorageStep::PersistentDelete, StorageStep::CacheRemove, StorageStep::CountInvalidation, StorageStep::CountPersistentWrite]
    );
}

#[test]
fn read_plans_by_outcome() {
    assert!(!read_uses_cache(None));
    assert!(!read_uses_cache(Some(CacheStrategy::NoCache)));
    assert!(read_uses_cache(Some(CacheStrategy::ReadThrough)));
    assert_eq!(read_steps(None, true, true), vec![StorageStep::PersistentRead, StorageStep::CountPersistentRead]);
    let wt = Some(CacheStrategy::WriteThrough);
    assert_eq!(read_steps(wt, true, false), vec![StorageStep::CacheRead, StorageStep::CountCacheHit]);
    assert_eq!(
        read_steps(wt, false, true),
        vec![StorageStep::CacheRead, StorageStep::CountCacheMiss, StorageStep::PersistentRead, StorageStep::CacheStore, StorageStep::CountPersistentRead]
    );
    assert_eq!(
        read_steps(wt, false, false),
        vec![StorageStep::CacheRead, StorageStep::CountCacheMiss, StorageStep::PersistentRead, StorageStep::CountPersistentRead]
    );
}

#[test]
fn counting_steps() {
    let mut stats = HybridStorageStats::default();
    for step in write_steps(Some(CacheStrategy::WriteThrough), WriteKind::Insert) {
        count_step(&mut stats, step);
    }
    for step in read_steps(Some(CacheStrategy::WriteThrough), true, true) {
        count_step(&mut stats, step);
    }
    for step in read_steps(Some(CacheStrategy::WriteThrough), false, true) {
        count_step(&mut stats, step);
    }
    assert_eq!(stats.cache_writes(), 1);
    assert_eq!(stats.persistent_writes(), 1);
    assert_eq!(stats.cache_hits(), 1);
    assert_eq!(stats.cache_misses(), 1);
    assert_eq!(stats.persistent_reads(), 1);
    assert_eq!(stats.total_operations(), 5);
}

fn entry(n: u128, delay_ms: u64, queued_at_ms: u64) -> WriteBehindEntry {
    WriteBehindEntry {
        collection: "users".to_string(),
        doc_id: DocumentId::from_u128(n),
        operation: if n % 2 == 0 {
            WriteBehindOperation::Delete
        } else {
            WriteBehindOperation::Write(Document::with_id(DocumentId::from_u128(n)))
        },
        delay_ms,
        queued_at_ms,
    }
}

#[test]
fn write_behind_queue_takes_due_entries_in_order() {
    let mut queue = vec![
        entry(1, 100, 0),   // due at 100
        entry(2, 500, 0),   // due at 500
        entry(3, 0, 250),   // due at once
        entry(4, 50, 300),  // clock behind: not due
        entry(5, 100, 100), // due at 200
    ];
    let due = take_due(&mut queue, 250);
    let ids: Vec<u128> = due.iter().map(|e| e.doc_id.value).collect();
    assert_eq!(ids, vec![1, 3, 5]);
    let left: Vec<u128> = queue.iter().map(|e| e.doc_id.value).collect();
    assert_eq!(left, vec![2, 4]);
    assert!(take_due(&mut queue, 260).is_empty());
    let rest = take_due(&mut queue, 1000);
    assert_eq!(rest.len(), 2);
    assert!(queue.is_empty());
}
