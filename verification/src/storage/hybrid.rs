//! Counters of the hybrid storage engine (cache in front of the persistent
//! layer). The counts wrap at the top of their range.
use vstd::prelude::*;

verus! {

/// Counters of cache and persistent-layer traffic.
#[derive(Debug, Clone, Copy, PartialEq, Eq, Structural)]
pub struct HybridStorageStats {
    cache_hits: u64,
    cache_misses: u64,
    cache_writes: u64,
    cache_invalidations: u64,
    persistent_reads: u64,
    persistent_writes: u64,
    cache_warmed: u64,
}

impl Default for HybridStorageStats {
    fn default() -> (s: HybridStorageStats)
        ensures
            s.hits() == 0 && s.misses() == 0 && s.writes() == 0 && s.invalidations() == 0,
            s.preads() == 0 && s.pwrites() == 0,
    {
        HybridStorageStats {
            cache_hits: 0,
            cache_misses: 0,
            cache_writes: 0,
            cache_invalidations: 0,
            persistent_reads: 0,
            persistent_writes: 0,
            cache_warmed: 0,
        }
    }
}

impl HybridStorageStats {
    pub closed spec fn hits(&self) -> u64 { self.cache_hits }
    pub closed spec fn misses(&self) -> u64 { self.cache_misses }
    pub closed spec fn writes(&self) -> u64 { self.cache_writes }
    pub closed spec fn invalidations(&self) -> u64 { self.cache_invalidations }
    pub closed spec fn preads(&self) -> u64 { self.persistent_reads }
    pub closed spec fn pwrites(&self) -> u64 { self.persistent_writes }

    /// These counters with the cache-hit count set to `v`.
    pub closed spec fn with_hits(self, v: u64) -> Self { HybridStorageStats { cache_hits: v, ..self } }
    /// These counters with the cache-miss count set to `v`.
    pub closed spec fn with_misses(self, v: u64) -> Self { HybridStorageStats { cache_misses: v, ..self } }
    /// These counters with the cache-write count set to `v`.
    pub closed spec fn with_writes(self, v: u64) -> Self { HybridStorageStats { cache_writes: v, ..self } }
    /// These counters with the invalidation count set to `v`.
    pub closed spec fn with_invalidations(self, v: u64) -> Self { HybridStorageStats { cache_invalidations: v, ..self } }
    /// These counters with the persistent-read count set to `v`.
    pub closed spec fn with_preads(self, v: u64) -> Self { HybridStorageStats { persistent_reads: v, ..self } }
    /// These counters with the persistent-write count set to `v`.
    pub closed spec fn with_pwrites(self, v: u64) -> Self { HybridStorageStats { persistent_writes: v, ..self } }

    /// The sum of the counters that `total_operations` adds up.
    pub open spec fn operations(&self) -> int {
        self.hits() + self.misses() + self.writes() + self.preads() + self.pwrites()
    }

    pub fn record_cache_hit(&mut self)
        ensures
            *final(self) == old(self).with_hits(old(self).hits().wrapping_add(1)),
            final(self).hits() == old(self).hits().wrapping_add(1),
            final(self).misses() == old(self).misses(),
            final(self).writes() == old(self).writes(),
            final(self).invalidations() == old(self).invalidations(),
            final(self).preads() == old(self).preads(),
            final(self).pwrites() == old(self).pwrites(),
    {
        self.cache_hits = self.cache_hits.wrapping_add(1);
    }

    pub fn record_cache_miss(&mut self)
        ensures
            *final(self) == old(self).with_misses(old(self).misses().wrapping_add(1)),
            final(self).misses() == old(self).misses().wrapping_add(1),
            final(self).hits() == old(self).hits(),
            final(self).writes() == old(self).writes(),
            final(self).invalidations() == old(self).invalidations(),
            final(self).preads() == old(self).preads(),
            final(self).pwrites() == old(self).pwrites(),
    {
        self.cache_misses = self.cache_misses.wrapping_add(1);
    }

    pub fn record_cache_write(&mut self)
        ensures
            *final(self) == old(self).with_writes(old(self).writes().wrapping_add(1)),
            final(self).writes() == old(self).writes().wrapping_add(1),
            final(self).hits() == old(self).hits(),
            final(self).misses() == old(self).misses(),
            final(self).invalidations() == old(self).invalidations(),
            final(self).preads() == old(self).preads(),
            final(self).pwrites() == old(self).pwrites(),
    {
        self.cache_writes = self.cache_writes.wrapping_add(1);
    }

    pub fn record_cache_invalidation(&mut self)
        ensures
            *final(self) == old(self).with_invalidations(old(self).invalidations().wrapping_add(1)),
            final(self).invalidations() == old(self).invalidations().wrapping_add(1),
            final(self).hits() == old(self).hits(),
            final(self).misses() == old(self).misses(),
            final(self).writes() == old(self).writes(),
            final(self).preads() == old(self).preads(),
            final(self).pwrites() == old(self).pwrites(),
    {
        self.cache_invalidations = self.cache_invalidations.wrapping_add(1);
    }

    pub fn record_persistent_read(&mut self)
        ensures
            *final(self) == old(self).with_preads(old(self).preads().wrapping_add(1)),
            final(self).preads() == old(self).preads().wrapping_add(1),
            final(self).hits() == old(self).hits(),
            final(self).misses() == old(self).misses(),
            final(self).writes() == old(self).writes(),
            final(self).invalidations() == old(self).invalidations(),
            final(self).pwrites() == old(self).pwrites(),
    {
        self.persistent_reads = self.persistent_reads.wrapping_add(1);
    }

    pub fn record_persistent_write(&mut self)
        ensures
            *final(self) == old(self).with_pwrites(old(self).pwrites().wrapping_add(1)),
            final(self).pwrites() == old(self).pwrites().wrapping_add(1),
            final(self).hits() == old(self).hits(),
            final(self).misses() == old(self).misses(),
            final(self).writes() == old(self).writes(),
            final(self).invalidations() == old(self).invalidations(),
            final(self).preads() == old(self).preads(),
    {
        self.persistent_writes = self.persistent_writes.wrapping_add(1);
    }

    pub fn cache_hits(&self) -> (r: u64)
        ensures
            r == self.hits(),
    {
        self.cache_hits
    }

    pub fn cache_misses(&self) -> (r: u64)
        ensures
            r == self.misses(),
    {
        self.cache_misses
    }

    pub fn cache_writes(&self) -> (r: u64)
        ensures
            r == self.writes(),
    {
        self.cache_writes
    }

    pub fn cache_invalidations(&self) -> (r: u64)
        ensures
            r == self.invalidations(),
    {
        self.cache_invalidations
    }

    pub fn persistent_reads(&self) -> (r: u64)
        ensures
            r == self.preads(),
    {
        self.persistent_reads
    }

    pub fn persistent_writes(&self) -> (r: u64)
        ensures
            r == self.pwrites(),
    {
        self.persistent_writes
    }

    /// Cache hits, cache misses, cache writes, persistent reads and
    /// persistent writes added up.
    pub fn total_operations(&self) -> (r: u64)
        requires
            self.operations() <= u64::MAX,
        ensures
            r == self.operations(),
    {
        self.cache_hits() + self.cache_misses() + self.cache_writes() + self.persistent_reads()
            + self.persistent_writes()
    }
}

} // verus!
