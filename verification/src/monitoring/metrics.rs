//! Server metrics: operation, connection, cache, replication and error
//! counters, latency percentiles over windows of recent samples, and
//! per-collection counters. Rates and ratios, which are floating-point
//! numbers, are computed from these counters elsewhere.
use vstd::prelude::*;
use crate::sorted_map::{get_field, keys_sorted, map_get, map_insert};

verus! {

/// Samples kept by a latency buffer.
pub const BUFFER_SIZE: usize = 10000;

/// Sorts samples in nondecreasing order with `slice::sort_unstable`. The
/// contract states what the standard library documents: the result is a
/// reordering of the input and is sorted.
#[verifier::external_body]
fn sort_samples(v: &mut Vec<u64>)
    ensures
        final(v)@.to_multiset() == old(v)@.to_multiset(),
        final(v)@.len() == old(v)@.len(),
        forall|i: int, j: int| 0 <= i <= j < final(v)@.len() ==> final(v)@[i] <= final(v)@[j],
{
    v.sort_unstable();
}

/// Nondecreasing.
pub open spec fn sorted(s: Seq<u64>) -> bool {
    forall|i: int, j: int| 0 <= i <= j < s.len() ==> s[i] <= s[j]
}

/// The rank, among `len` sorted samples, of the per-mille point `per_mille`:
/// `len * per_mille / 1000` rounded down, and at most the last rank.
pub open spec fn rank(len: nat, per_mille: nat) -> int {
    let r = (len * per_mille / 1000) as int;
    if r < len { r } else { len - 1 }
}

/// Latency percentiles, in microseconds.
#[derive(Debug, Clone, Copy, PartialEq, Eq, Structural)]
pub struct LatencyPercentiles {
    pub p50: u64,
    pub p90: u64,
    pub p95: u64,
    pub p99: u64,
    pub p999: u64,
    pub max: u64,
}

impl Default for LatencyPercentiles {
    fn default() -> (p: LatencyPercentiles)
        ensures
            p == (LatencyPercentiles { p50: 0, p90: 0, p95: 0, p99: 0, p999: 0, max: 0 }),
    {
        LatencyPercentiles { p50: 0, p90: 0, p95: 0, p99: 0, p999: 0, max: 0 }
    }
}

/// The percentiles of the samples `s` sorted as `t`.
pub open spec fn percentiles_of(t: Seq<u64>) -> LatencyPercentiles {
    LatencyPercentiles {
        p50: t[rank(t.len(), 500)],
        p90: t[rank(t.len(), 900)],
        p95: t[rank(t.len(), 950)],
        p99: t[rank(t.len(), 990)],
        p999: t[rank(t.len(), 999)],
        max: t[t.len() - 1],
    }
}

/// Whether `p` are the percentiles of the samples `w`: all zero for no
/// samples, otherwise those of `w` sorted.
pub open spec fn percentiles_fit(p: LatencyPercentiles, w: Seq<u64>) -> bool {
    &&& w.len() == 0 ==> p == LatencyPercentiles::default_spec()
    &&& w.len() > 0 ==> exists|t: Seq<u64>|
        #![auto]
        t.to_multiset() == w.to_multiset() && t.len() == w.len() && sorted(t) && p == percentiles_of(t)
}

/// A fixed window of recent latency samples, in microseconds, overwritten
/// in a circle.
#[derive(Debug)]
pub struct LatencyBuffer {
    samples: Vec<u64>,
    index: usize,
    full: bool,
}

impl LatencyBuffer {
    /// The stored samples, by position.
    pub closed spec fn slots(&self) -> Seq<u64> {
        self.samples@
    }

    /// The position the next sample goes to.
    pub closed spec fn next(&self) -> usize {
        self.index
    }

    /// Whether the window has been filled at least once.
    pub closed spec fn wrapped(&self) -> bool {
        self.full
    }

    pub closed spec fn wf(&self) -> bool {
        self.samples@.len() == BUFFER_SIZE && self.index < self.samples@.len()
    }

    /// The samples that count: all positions once the window has wrapped,
    /// otherwise those written so far.
    pub open spec fn window(&self) -> Seq<u64> {
        if self.wrapped() { self.slots() } else { self.slots().take(self.next() as int) }
    }

    /// An empty window of [`BUFFER_SIZE`] zero samples.
    pub fn new() -> (b: LatencyBuffer)
        ensures
            b.wf(),
            b.slots() == Seq::new(BUFFER_SIZE as nat, |i: int| 0u64),
            b.next() == 0,
            !b.wrapped(),
    {
        let mut samples: Vec<u64> = Vec::new();
        let mut i: usize = 0;
        while i < BUFFER_SIZE
            invariant
                i <= BUFFER_SIZE,
                samples@ == Seq::new(i as nat, |k: int| 0u64),
            decreases BUFFER_SIZE - i,
        {
            samples.push(0);
            i = i + 1;
            proof { assert(samples@ =~= Seq::new(i as nat, |k: int| 0u64)); }
        }
        LatencyBuffer { samples, index: 0, full: false }
    }

    /// Stores a sample at the next position and moves on, wrapping to the
    /// start after the last position.
    pub fn add_sample(&mut self, latency_us: u64)
        requires
            old(self).wf(),
        ensures
            final(self).wf(),
            final(self).slots() == old(self).slots().update(old(self).next() as int, latency_us),
            final(self).next() == (old(self).next() + 1) % (old(self).slots().len() as int),
            final(self).wrapped() == (old(self).wrapped() || final(self).next() == 0),
    {
        let i = self.index;
        self.samples.set(i, latency_us);
        self.index = (i + 1) % self.samples.len();
        if self.index == 0 {
            self.full = true;
        }
    }

    /// The percentiles of the window's samples; all zero for an empty window.
    pub fn calculate_percentiles(&self) -> (p: LatencyPercentiles)
        requires
            self.wf(),
        ensures
            percentiles_fit(p, self.window()),
    {
        let n: usize = if self.full { self.samples.len() } else { self.index };
        let mut samples: Vec<u64> = Vec::new();
        let mut i: usize = 0;
        while i < n
            invariant
                i <= n,
                n == self.window().len(),
                self.wf(),
                samples@ == self.window().take(i as int),
            decreases n - i,
        {
            samples.push(self.samples[i]);
            i = i + 1;
            proof { assert(samples@ =~= self.window().take(i as int)); }
        }
        proof { assert(samples@ =~= self.window()); }
        if samples.len() == 0 {
            return LatencyPercentiles { p50: 0, p90: 0, p95: 0, p99: 0, p999: 0, max: 0 };
        }
        sort_samples(&mut samples);
        let len = samples.len();
        proof {
            assert(len * 999 / 1000 <= len) by (nonlinear_arith)
                requires len > 0;
            assert(len * 500 <= len * 999) by (nonlinear_arith);
            assert(len * 990 <= len * 999) by (nonlinear_arith);
        }
        let p = LatencyPercentiles {
            p50: samples[pick(len, 500)],
            p90: samples[pick(len, 900)],
            p95: samples[pick(len, 950)],
            p99: samples[pick(len, 990)],
            p999: samples[pick(len, 999)],
            max: samples[len - 1],
        };
        proof { assert(p == percentiles_of(samples@)); }
        p
    }
}

/// Percentiles fitted to a window of samples: all zero for an empty window;
/// otherwise each of them is one of the samples, they rise in the order
/// p50, p90, p95, p99, p99.9, and the maximum is the largest sample.
pub proof fn lemma_percentiles_from_window(p: LatencyPercentiles, w: Seq<u64>)
    requires
        percentiles_fit(p, w),
    ensures
        w.len() == 0 ==> p == LatencyPercentiles::default_spec(),
        w.len() > 0 ==> {
            &&& w.contains(p.p50) && w.contains(p.p90) && w.contains(p.p95)
            &&& w.contains(p.p99) && w.contains(p.p999) && w.contains(p.max)
            &&& p.p50 <= p.p90 <= p.p95 <= p.p99 <= p.p999 <= p.max
            &&& forall|i: int| 0 <= i < w.len() ==> #[trigger] w[i] <= p.max
        },
{
    if w.len() > 0 {
        broadcast use vstd::seq_lib::group_to_multiset_ensures;
        let t = choose|t: Seq<u64>|
            #![auto]
            t.to_multiset() == w.to_multiset() && t.len() == w.len() && sorted(t) && p == percentiles_of(t);
        let n = t.len();
        assert(n * 500 / 1000 <= n * 900 / 1000 <= n * 950 / 1000 <= n * 990 / 1000 <= n * 999 / 1000 < n)
            by (nonlinear_arith)
            requires n > 0;
        assert forall|x: u64| t.contains(x) implies w.contains(x) by {
            assert(t.to_multiset().count(x) > 0);
        }
        assert(t.contains(t[rank(n, 500)]));
        assert(t.contains(t[rank(n, 900)]));
        assert(t.contains(t[rank(n, 950)]));
        assert(t.contains(t[rank(n, 990)]));
        assert(t.contains(t[rank(n, 999)]));
        assert(t.contains(t[n - 1]));
        assert forall|i: int| 0 <= i < w.len() implies #[trigger] w[i] <= p.max by {
            assert(w.contains(w[i]));
            assert(w.to_multiset().count(w[i]) > 0);
            assert(t.contains(w[i]));
            let j = choose|j: int| 0 <= j < t.len() && t[j] == w[i];
            assert(t[j] <= t[n - 1]);
        }
    }
}

impl LatencyPercentiles {
    /// All zero.
    pub open spec fn default_spec() -> LatencyPercentiles {
        LatencyPercentiles { p50: 0, p90: 0, p95: 0, p99: 0, p999: 0, max: 0 }
    }
}

/// The rank of a per-mille point among `len` samples.
fn pick(len: usize, per_mille: usize) -> (r: usize)
    requires
        len > 0,
        per_mille <= 1000,
        len <= usize::MAX / 1000,
    ensures
        r == rank(len as nat, per_mille as nat),
        r < len,
{
    assert(len * per_mille <= usize::MAX) by (nonlinear_arith)
        requires
            per_mille <= 1000,
            len <= usize::MAX / 1000;
    let r = len * per_mille / 1000;
    if r < len { r } else { len - 1 }
}

/// The kinds of operation counted by the metrics.
#[derive(Debug, Clone, Copy, PartialEq, Eq, Structural)]
pub enum OperationType {
    Read,
    Write,
    Delete,
    Query,
}

/// Counters of one collection. The counts wrap at the top of their range.
#[derive(Debug, Clone, Copy, PartialEq, Eq, Structural)]
pub struct CollectionMetrics {
    pub document_count: u64,
    pub total_size_bytes: u64,
    pub read_count: u64,
    pub write_count: u64,
    pub index_count: usize,
    /// Cache hit rate in hundredths of a percent.
    pub cache_hit_rate: u64,
}

impl CollectionMetrics {
    pub fn new() -> (m: CollectionMetrics)
        ensures
            m.document_count == 0,
            m.total_size_bytes == 0,
            m.read_count == 0,
            m.write_count == 0,
            m.index_count == 0,
            m.cache_hit_rate == 0,
    {
        CollectionMetrics {
            document_count: 0,
            total_size_bytes: 0,
            read_count: 0,
            write_count: 0,
            index_count: 0,
            cache_hit_rate: 0,
        }
    }

    pub fn record_read(&mut self)
        ensures
            *final(self) == (CollectionMetrics { read_count: old(self).read_count.wrapping_add(1), ..*old(self) }),
    {
        self.read_count = self.read_count.wrapping_add(1);
    }

    pub fn record_write(&mut self)
        ensures
            *final(self) == (CollectionMetrics { write_count: old(self).write_count.wrapping_add(1), ..*old(self) }),
    {
        self.write_count = self.write_count.wrapping_add(1);
    }

    pub fn update_document_count(&mut self, count: u64)
        ensures
            *final(self) == (CollectionMetrics { document_count: count, ..*old(self) }),
    {
        self.document_count = count;
    }

    pub fn update_size(&mut self, size_bytes: u64)
        ensures
            *final(self) == (CollectionMetrics { total_size_bytes: size_bytes, ..*old(self) }),
    {
        self.total_size_bytes = size_bytes;
    }

    pub fn update_index_count(&mut self, count: usize)
        ensures
            *final(self) == (CollectionMetrics { index_count: count, ..*old(self) }),
    {
        self.index_count = count;
    }
}


/// Whether `after` is `before` with one more sample, as
/// [`LatencyBuffer::add_sample`] stores it.
pub open spec fn sampled(before: LatencyBuffer, after: LatencyBuffer, latency_us: u64) -> bool {
    &&& after.wf()
    &&& after.slots() == before.slots().update(before.next() as int, latency_us)
    &&& after.next() == (before.next() + 1) % (before.slots().len() as int)
    &&& after.wrapped() == (before.wrapped() || after.next() == 0)
}

/// Latency windows and their last computed percentiles, for reads, writes
/// (deletions included) and queries.
pub struct LatencyTracker {
    read_latencies: LatencyBuffer,
    write_latencies: LatencyBuffer,
    query_latencies: LatencyBuffer,
    read_percentiles: LatencyPercentiles,
    write_percentiles: LatencyPercentiles,
    query_percentiles: LatencyPercentiles,
}

impl LatencyTracker {
    pub closed spec fn reads(&self) -> LatencyBuffer { self.read_latencies }
    pub closed spec fn writes(&self) -> LatencyBuffer { self.write_latencies }
    pub closed spec fn queries(&self) -> LatencyBuffer { self.query_latencies }
    pub closed spec fn read_p(&self) -> LatencyPercentiles { self.read_percentiles }
    pub closed spec fn write_p(&self) -> LatencyPercentiles { self.write_percentiles }
    pub closed spec fn query_p(&self) -> LatencyPercentiles { self.query_percentiles }

    pub open spec fn wf(&self) -> bool {
        self.reads().wf() && self.writes().wf() && self.queries().wf()
    }

    /// Empty windows and all-zero percentiles.
    pub fn new() -> (t: LatencyTracker)
        ensures
            t.wf(),
            t.reads().window().len() == 0 && t.writes().window().len() == 0 && t.queries().window().len() == 0,
            t.reads().slots() == Seq::new(BUFFER_SIZE as nat, |i: int| 0u64) && t.reads().next() == 0 && !t.reads().wrapped(),
            t.writes().slots() == Seq::new(BUFFER_SIZE as nat, |i: int| 0u64) && t.writes().next() == 0 && !t.writes().wrapped(),
            t.queries().slots() == Seq::new(BUFFER_SIZE as nat, |i: int| 0u64) && t.queries().next() == 0 && !t.queries().wrapped(),
            t.read_p() == LatencyPercentiles::default_spec(),
            t.write_p() == LatencyPercentiles::default_spec(),
            t.query_p() == LatencyPercentiles::default_spec(),
    {
        LatencyTracker {
            read_latencies: LatencyBuffer::new(),
            write_latencies: LatencyBuffer::new(),
            query_latencies: LatencyBuffer::new(),
            read_percentiles: LatencyPercentiles { p50: 0, p90: 0, p95: 0, p99: 0, p999: 0, max: 0 },
            write_percentiles: LatencyPercentiles { p50: 0, p90: 0, p95: 0, p99: 0, p999: 0, max: 0 },
            query_percentiles: LatencyPercentiles { p50: 0, p90: 0, p95: 0, p99: 0, p999: 0, max: 0 },
        }
    }

    /// Adds a read latency in microseconds.
    pub fn record_read_latency(&mut self, latency_us: u64)
        requires
            old(self).wf(),
        ensures
            final(self).wf(),
            sampled(old(self).reads(), final(self).reads(), latency_us),
            final(self).writes() == old(self).writes() && final(self).queries() == old(self).queries(),
            final(self).read_p() == old(self).read_p() && final(self).write_p() == old(self).write_p()
                && final(self).query_p() == old(self).query_p(),
    {
        self.read_latencies.add_sample(latency_us);
    }

    /// Adds a write latency in microseconds.
    pub fn record_write_latency(&mut self, latency_us: u64)
        requires
            old(self).wf(),
        ensures
            final(self).wf(),
            sampled(old(self).writes(), final(self).writes(), latency_us),
            final(self).reads() == old(self).reads() && final(self).queries() == old(self).queries(),
            final(self).read_p() == old(self).read_p() && final(self).write_p() == old(self).write_p()
                && final(self).query_p() == old(self).query_p(),
    {
        self.write_latencies.add_sample(latency_us);
    }

    /// Adds a query latency in microseconds.
    pub fn record_query_latency(&mut self, latency_us: u64)
        requires
            old(self).wf(),
        ensures
            final(self).wf(),
            sampled(old(self).queries(), final(self).queries(), latency_us),
            final(self).reads() == old(self).reads() && final(self).writes() == old(self).writes(),
            final(self).read_p() == old(self).read_p() && final(self).write_p() == old(self).write_p()
                && final(self).query_p() == old(self).query_p(),
    {
        self.query_latencies.add_sample(latency_us);
    }

    /// The read percentiles last computed.
    pub fn get_read_percentiles(&self) -> (p: LatencyPercentiles)
        ensures
            p == self.read_p(),
    {
        self.read_percentiles
    }

    /// The write percentiles last computed.
    pub fn get_write_percentiles(&self) -> (p: LatencyPercentiles)
        ensures
            p == self.write_p(),
    {
        self.write_percentiles
    }

    /// The query percentiles last computed.
    pub fn get_query_percentiles(&self) -> (p: LatencyPercentiles)
        ensures
            p == self.query_p(),
    {
        self.query_percentiles
    }

    /// Computes the percentiles of the three windows again.
    pub fn update_percentiles(&mut self)
        requires
            old(self).wf(),
        ensures
            final(self).wf(),
            final(self).reads() == old(self).reads() && final(self).writes() == old(self).writes()
                && final(self).queries() == old(self).queries(),
            percentiles_fit(final(self).read_p(), old(self).reads().window()),
            percentiles_fit(final(self).write_p(), old(self).writes().window()),
            percentiles_fit(final(self).query_p(), old(self).queries().window()),
    {
        self.read_percentiles = self.read_latencies.calculate_percentiles();
        self.write_percentiles = self.write_latencies.calculate_percentiles();
        self.query_percentiles = self.query_latencies.calculate_percentiles();
    }
}

/// The server's counters. Counts wrap at the top of their range (the
/// active-connection count also at the bottom).
#[derive(Debug, Clone, Copy, PartialEq, Eq, Structural)]
pub struct MetricCounters {
    pub total_operations: u64,
    pub read_operations: u64,
    pub write_operations: u64,
    pub delete_operations: u64,
    pub query_operations: u64,
    pub active_connections: usize,
    pub total_connections: u64,
    pub connection_errors: u64,
    pub memory_usage_bytes: u64,
    pub cache_memory_bytes: u64,
    pub persistent_memory_bytes: u64,
    pub cache_hits: u64,
    pub cache_misses: u64,
    pub cache_evictions: u64,
    pub replication_lag_ms: u64,
    pub replication_bytes_sent: u64,
    pub replication_bytes_received: u64,
    pub authentication_failures: u64,
    pub authorization_failures: u64,
    pub query_errors: u64,
    pub storage_errors: u64,
}

/// The counters after one operation of kind `op`.
pub open spec fn counted_operation(c: MetricCounters, op: OperationType) -> MetricCounters {
    let c = MetricCounters { total_operations: c.total_operations.wrapping_add(1), ..c };
    match op {
        OperationType::Read => MetricCounters { read_operations: c.read_operations.wrapping_add(1), ..c },
        OperationType::Write => MetricCounters { write_operations: c.write_operations.wrapping_add(1), ..c },
        OperationType::Delete => MetricCounters { delete_operations: c.delete_operations.wrapping_add(1), ..c },
        OperationType::Query => MetricCounters { query_operations: c.query_operations.wrapping_add(1), ..c },
    }
}

/// Metrics of the whole server.
pub struct ServerMetrics {
    counters: MetricCounters,
    latency_tracker: LatencyTracker,
    collection_metrics: Vec<(String, CollectionMetrics)>,
    /// When the server started, in milliseconds since the Unix epoch.
    start_time_ms: i64,
}

impl ServerMetrics {
    pub closed spec fn count(&self) -> MetricCounters { self.counters }
    pub closed spec fn tracker(&self) -> LatencyTracker { self.latency_tracker }
    pub closed spec fn collections(&self) -> Seq<(String, CollectionMetrics)> { self.collection_metrics@ }
    pub closed spec fn started(&self) -> i64 { self.start_time_ms }

    /// When the server started, in milliseconds since the Unix epoch.
    pub fn start_time_ms(&self) -> (t: i64)
        ensures
            t == self.started(),
    {
        self.start_time_ms
    }

    pub open spec fn wf(&self) -> bool {
        self.tracker().wf() && keys_sorted(self.collections())
    }

    /// All counters zero, empty latency windows, no collections.
    pub fn new(start_time_ms: i64) -> (m: ServerMetrics)
        ensures
            m.wf(),
            m.count() == (MetricCounters {
                total_operations: 0, read_operations: 0, write_operations: 0, delete_operations: 0,
                query_operations: 0, active_connections: 0, total_connections: 0, connection_errors: 0,
                memory_usage_bytes: 0, cache_memory_bytes: 0, persistent_memory_bytes: 0, cache_hits: 0,
                cache_misses: 0, cache_evictions: 0, replication_lag_ms: 0, replication_bytes_sent: 0,
                replication_bytes_received: 0, authentication_failures: 0, authorization_failures: 0,
                query_errors: 0, storage_errors: 0,
            }),
            m.tracker().reads().window().len() == 0,
            m.tracker().writes().window().len() == 0,
            m.tracker().queries().window().len() == 0,
            m.collections().len() == 0,
            m.started() == start_time_ms,
    {
        ServerMetrics {
            counters: MetricCounters {
                total_operations: 0, read_operations: 0, write_operations: 0, delete_operations: 0,
                query_operations: 0, active_connections: 0, total_connections: 0, connection_errors: 0,
                memory_usage_bytes: 0, cache_memory_bytes: 0, persistent_memory_bytes: 0, cache_hits: 0,
                cache_misses: 0, cache_evictions: 0, replication_lag_ms: 0, replication_bytes_sent: 0,
                replication_bytes_received: 0, authentication_failures: 0, authorization_failures: 0,
                query_errors: 0, storage_errors: 0,
            },
            latency_tracker: LatencyTracker::new(),
            collection_metrics: Vec::new(),
            start_time_ms,
        }
    }

    /// The counters.
    pub fn counters(&self) -> (c: MetricCounters)
        ensures
            c == self.count(),
    {
        self.counters
    }

    /// The latency windows and percentiles.
    pub fn latency_tracker(&self) -> (t: &LatencyTracker)
        ensures
            *t == self.tracker(),
    {
        &self.latency_tracker
    }

    /// Counts an operation and adds its latency, in microseconds, to the
    /// window of its kind: reads to the reads, writes and deletions to the
    /// writes, queries to the queries.
    pub fn record_operation(&mut self, op_type: OperationType, latency_us: u64)
        requires
            old(self).wf(),
        ensures
            final(self).wf(),
            final(self).count() == counted_operation(old(self).count(), op_type),
            final(self).collections() == old(self).collections(),
            final(self).started() == old(self).started(),
            sampled(
                match op_type {
                    OperationType::Read => old(self).tracker().reads(),
                    OperationType::Query => old(self).tracker().queries(),
                    _ => old(self).tracker().writes(),
                },
                match op_type {
                    OperationType::Read => final(self).tracker().reads(),
                    OperationType::Query => final(self).tracker().queries(),
                    _ => final(self).tracker().writes(),
                },
                latency_us,
            ),
            op_type is Read ==> final(self).tracker().writes() == old(self).tracker().writes()
                && final(self).tracker().queries() == old(self).tracker().queries(),
            op_type is Query ==> final(self).tracker().reads() == old(self).tracker().reads()
                && final(self).tracker().writes() == old(self).tracker().writes(),
            (op_type is Write || op_type is Delete) ==> final(self).tracker().reads() == old(self).tracker().reads()
                && final(self).tracker().queries() == old(self).tracker().queries(),
            final(self).tracker().read_p() == old(self).tracker().read_p(),
            final(self).tracker().write_p() == old(self).tracker().write_p(),
            final(self).tracker().query_p() == old(self).tracker().query_p(),
    {
        self.counters.total_operations = self.counters.total_operations.wrapping_add(1);
        match op_type {
            OperationType::Read => {
                self.counters.read_operations = self.counters.read_operations.wrapping_add(1);
                self.latency_tracker.record_read_latency(latency_us);
            },
            OperationType::Write => {
                self.counters.write_operations = self.counters.write_operations.wrapping_add(1);
                self.latency_tracker.record_write_latency(latency_us);
            },
            OperationType::Delete => {
                self.counters.delete_operations = self.counters.delete_operations.wrapping_add(1);
                self.latency_tracker.record_write_latency(latency_us);
            },
            OperationType::Query => {
                self.counters.query_operations = self.counters.query_operations.wrapping_add(1);
                self.latency_tracker.record_query_latency(latency_us);
            },
        }
    }

    /// Computes the latency percentiles again.
    pub fn update_percentiles(&mut self)
        requires
            old(self).wf(),
        ensures
            final(self).wf(),
            final(self).count() == old(self).count(),
            final(self).collections() == old(self).collections(),
            final(self).started() == old(self).started(),
            final(self).tracker().reads() == old(self).tracker().reads(),
            final(self).tracker().writes() == old(self).tracker().writes(),
            final(self).tracker().queries() == old(self).tracker().queries(),
            percentiles_fit(final(self).tracker().read_p(), old(self).tracker().reads().window()),
            percentiles_fit(final(self).tracker().write_p(), old(self).tracker().writes().window()),
            percentiles_fit(final(self).tracker().query_p(), old(self).tracker().queries().window()),
    {
        self.latency_tracker.update_percentiles();
    }

    /// Sets the counters to `c`, the latency windows and collections
    /// unchanged.
    fn set_counters(&mut self, c: MetricCounters)
        requires
            old(self).wf(),
        ensures
            final(self).wf(),
            final(self).count() == c,
            final(self).tracker() == old(self).tracker(),
            final(self).collections() == old(self).collections(),
            final(self).started() == old(self).started(),
    {
        self.counters = c;
    }

    pub fn record_cache_hit(&mut self)
        requires old(self).wf(),
        ensures
            final(self).wf(),
            final(self).count() == (MetricCounters { cache_hits: old(self).count().cache_hits.wrapping_add(1), ..old(self).count() }),
            final(self).tracker() == old(self).tracker() && final(self).collections() == old(self).collections()
                && final(self).started() == old(self).started(),
    {
        let c = self.counters;
        self.set_counters(MetricCounters { cache_hits: c.cache_hits.wrapping_add(1), ..c });
    }

    pub fn record_cache_miss(&mut self)
        requires old(self).wf(),
        ensures
            final(self).wf(),
            final(self).count() == (MetricCounters { cache_misses: old(self).count().cache_misses.wrapping_add(1), ..old(self).count() }),
            final(self).tracker() == old(self).tracker() && final(self).collections() == old(self).collections()
                && final(self).started() == old(self).started(),
    {
        let c = self.counters;
        self.set_counters(MetricCounters { cache_misses: c.cache_misses.wrapping_add(1), ..c });
    }

    pub fn record_cache_eviction(&mut self)
        requires old(self).wf(),
        ensures
            final(self).wf(),
            final(self).count() == (MetricCounters { cache_evictions: old(self).count().cache_evictions.wrapping_add(1), ..old(self).count() }),
            final(self).tracker() == old(self).tracker() && final(self).collections() == old(self).collections()
                && final(self).started() == old(self).started(),
    {
        let c = self.counters;
        self.set_counters(MetricCounters { cache_evictions: c.cache_evictions.wrapping_add(1), ..c });
    }

    /// Counts a connection that opened: one more active, one more in all.
    pub fn record_connection_opened(&mut self)
        requires old(self).wf(),
        ensures
            final(self).wf(),
            final(self).count() == (MetricCounters {
                active_connections: old(self).count().active_connections.wrapping_add(1),
                total_connections: old(self).count().total_connections.wrapping_add(1),
                ..old(self).count()
            }),
            final(self).tracker() == old(self).tracker() && final(self).collections() == old(self).collections()
                && final(self).started() == old(self).started(),
    {
        let c = self.counters;
        self.set_counters(MetricCounters {
            active_connections: c.active_connections.wrapping_add(1),
            total_connections: c.total_connections.wrapping_add(1),
            ..c
        });
    }

    /// Counts a connection that closed: one less active.
    pub fn record_connection_closed(&mut self)
        requires old(self).wf(),
        ensures
            final(self).wf(),
            final(self).count() == (MetricCounters {
                active_connections: old(self).count().active_connections.wrapping_sub(1),
                ..old(self).count()
            }),
            final(self).tracker() == old(self).tracker() && final(self).collections() == old(self).collections()
                && final(self).started() == old(self).started(),
    {
        let c = self.counters;
        self.set_counters(MetricCounters { active_connections: c.active_connections.wrapping_sub(1), ..c });
    }

    pub fn record_connection_error(&mut self)
        requires old(self).wf(),
        ensures
            final(self).wf(),
            final(self).count() == (MetricCounters { connection_errors: old(self).count().connection_errors.wrapping_add(1), ..old(self).count() }),
            final(self).tracker() == old(self).tracker() && final(self).collections() == old(self).collections()
                && final(self).started() == old(self).started(),
    {
        let c = self.counters;
        self.set_counters(MetricCounters { connection_errors: c.connection_errors.wrapping_add(1), ..c });
    }

    /// Sets the memory in use: in all, by the cache and by the persistent
    /// layer.
    pub fn update_memory_usage(&mut self, total: u64, cache: u64, persistent: u64)
        requires old(self).wf(),
        ensures
            final(self).wf(),
            final(self).count() == (MetricCounters {
                memory_usage_bytes: total,
                cache_memory_bytes: cache,
                persistent_memory_bytes: persistent,
                ..old(self).count()
            }),
            final(self).tracker() == old(self).tracker() && final(self).collections() == old(self).collections()
                && final(self).started() == old(self).started(),
    {
        let c = self.counters;
        self.set_counters(MetricCounters {
            memory_usage_bytes: total,
            cache_memory_bytes: cache,
            persistent_memory_bytes: persistent,
            ..c
        });
    }

    pub fn update_replication_lag(&mut self, lag_ms: u64)
        requires old(self).wf(),
        ensures
            final(self).wf(),
            final(self).count() == (MetricCounters { replication_lag_ms: lag_ms, ..old(self).count() }),
            final(self).tracker() == old(self).tracker() && final(self).collections() == old(self).collections()
                && final(self).started() == old(self).started(),
    {
        let c = self.counters;
        self.set_counters(MetricCounters { replication_lag_ms: lag_ms, ..c });
    }

    pub fn record_auth_failure(&mut self)
        requires old(self).wf(),
        ensures
            final(self).wf(),
            final(self).count() == (MetricCounters { authentication_failures: old(self).count().authentication_failures.wrapping_add(1), ..old(self).count() }),
            final(self).tracker() == old(self).tracker() && final(self).collections() == old(self).collections()
                && final(self).started() == old(self).started(),
    {
        let c = self.counters;
        self.set_counters(MetricCounters { authentication_failures: c.authentication_failures.wrapping_add(1), ..c });
    }

    pub fn record_authz_failure(&mut self)
        requires old(self).wf(),
        ensures
            final(self).wf(),
            final(self).count() == (MetricCounters { authorization_failures: old(self).count().authorization_failures.wrapping_add(1), ..old(self).count() }),
            final(self).tracker() == old(self).tracker() && final(self).collections() == old(self).collections()
                && final(self).started() == old(self).started(),
    {
        let c = self.counters;
        self.set_counters(MetricCounters { authorization_failures: c.authorization_failures.wrapping_add(1), ..c });
    }

    pub fn record_query_error(&mut self)
        requires old(self).wf(),
        ensures
            final(self).wf(),
            final(self).count() == (MetricCounters { query_errors: old(self).count().query_errors.wrapping_add(1), ..old(self).count() }),
            final(self).tracker() == old(self).tracker() && final(self).collections() == old(self).collections()
                && final(self).started() == old(self).started(),
    {
        let c = self.counters;
        self.set_counters(MetricCounters { query_errors: c.query_errors.wrapping_add(1), ..c });
    }

    pub fn record_storage_error(&mut self)
        requires old(self).wf(),
        ensures
            final(self).wf(),
            final(self).count() == (MetricCounters { storage_errors: old(self).count().storage_errors.wrapping_add(1), ..old(self).count() }),
            final(self).tracker() == old(self).tracker() && final(self).collections() == old(self).collections()
                && final(self).started() == old(self).started(),
    {
        let c = self.counters;
        self.set_counters(MetricCounters { storage_errors: c.storage_errors.wrapping_add(1), ..c });
    }

    /// The counters of `collection`, which start at zero the first time it
    /// is asked for.
    pub fn get_collection_metrics(&mut self, collection: &str) -> (m: CollectionMetrics)
        requires
            old(self).wf(),
        ensures
            final(self).wf(),
            final(self).count() == old(self).count(),
            final(self).tracker() == old(self).tracker(),
            final(self).started() == old(self).started(),
            match get_field(old(self).collections(), collection@) {
                Some(c) => m == c && final(self).collections() == old(self).collections(),
                None => m == CollectionMetrics::zero() && get_field(final(self).collections(), collection@) == Some(m)
                    && forall|k: Seq<char>| k != collection@
                        ==> get_field(final(self).collections(), k) == get_field(old(self).collections(), k),
            },
    {
        match map_get(&self.collection_metrics, collection) {
            Some(m) => *m,
            None => {
                let m = CollectionMetrics::new();
                map_insert(&mut self.collection_metrics, collection.to_owned(), m);
                m
            },
        }
    }
}

impl CollectionMetrics {
    /// All counters zero.
    pub open spec fn zero() -> CollectionMetrics {
        CollectionMetrics {
            document_count: 0,
            total_size_bytes: 0,
            read_count: 0,
            write_count: 0,
            index_count: 0,
            cache_hit_rate: 0,
        }
    }
}

} // verus!
