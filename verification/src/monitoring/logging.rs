//! Logging configuration, the slow-query log and the audit log.
//!
//! Both logs keep only their most recent entries: the slow-query log the
//! last [`SLOW_QUERY_LIMIT`], the audit log the last [`AUDIT_EVENT_LIMIT`].
use vstd::prelude::*;
use vstd::string::StringExecFns;
use crate::util::str_eq;
use crate::clock::utc_now_millis;

verus! {

/// Slow queries kept by the slow-query log.
pub const SLOW_QUERY_LIMIT: usize = 1000;
/// Events kept by the audit log.
pub const AUDIT_EVENT_LIMIT: usize = 10000;

/// Severity levels of log output.
#[derive(Debug, Clone, Copy, PartialEq, Eq, Structural)]
pub enum LogLevel {
    Error,
    Warn,
    Info,
    Debug,
    Trace,
}

/// What `str::to_uppercase` gives for a string.
pub uninterp spec fn uppercase(s: Seq<char>) -> Seq<char>;

/// The upper-case form of `s`, by `str::to_uppercase`. The contract names
/// the result: it is a function of the string alone.
#[verifier::external_body]
fn to_uppercase(s: &str) -> (r: String)
    ensures
        r@ == uppercase(s@),
{
    s.to_uppercase()
}

/// The level an upper-case level name stands for; names other than the
/// five level names stand for `Info`.
pub open spec fn level_named(name: Seq<char>) -> LogLevel {
    if name == "ERROR"@ {
        LogLevel::Error
    } else if name == "WARN"@ {
        LogLevel::Warn
    } else if name == "INFO"@ {
        LogLevel::Info
    } else if name == "DEBUG"@ {
        LogLevel::Debug
    } else if name == "TRACE"@ {
        LogLevel::Trace
    } else {
        LogLevel::Info
    }
}

/// The level an upper-case level name stands for.
pub fn level_from_name(name: &str) -> (r: LogLevel)
    ensures
        r == level_named(name@),
{
    if str_eq(name, "ERROR") {
        LogLevel::Error
    } else if str_eq(name, "WARN") {
        LogLevel::Warn
    } else if str_eq(name, "INFO") {
        LogLevel::Info
    } else if str_eq(name, "DEBUG") {
        LogLevel::Debug
    } else if str_eq(name, "TRACE") {
        LogLevel::Trace
    } else {
        LogLevel::Info
    }
}

/// Logging configuration.
#[derive(Debug, Clone)]
pub struct LoggingConfig {
    /// Level name: ERROR, WARN, INFO, DEBUG or TRACE, in any case.
    pub level: String,
    pub json_format: bool,
    pub slow_query_logging: bool,
    pub slow_query_threshold_ms: u64,
    /// Log file path; standard output when `None`.
    pub log_file: Option<String>,
    pub audit_logging: bool,
}

impl Default for LoggingConfig {
    fn default() -> (c: LoggingConfig)
        ensures
            c.level@ == "INFO"@,
            !c.json_format,
            c.slow_query_logging,
            c.slow_query_threshold_ms == 100,
            c.log_file is None,
            c.audit_logging,
    {
        LoggingConfig {
            level: String::from_str("INFO"),
            json_format: false,
            slow_query_logging: true,
            slow_query_threshold_ms: 100,
            log_file: None,
            audit_logging: true,
        }
    }
}

impl LoggingConfig {
    /// The configured level, its name read without regard to case.
    pub fn parse_level(&self) -> (r: LogLevel)
        ensures
            r == level_named(uppercase(self.level@)),
    {
        let upper = to_uppercase(self.level.as_str());
        level_from_name(upper.as_str())
    }
}

/// A point in time on the monotonic clock.
#[verifier::external_type_specification]
#[verifier::external_body]
pub struct ExInstant(std::time::Instant);

/// The current monotonic time, by `Instant::now`. Nothing is stated of it.
#[verifier::external_body]
fn instant_now() -> std::time::Instant {
    std::time::Instant::now()
}

/// Nanoseconds elapsed since `start`, by `Instant::elapsed` and
/// `Duration::as_nanos`. Nothing is stated of the value: it depends on when
/// the call is made.
#[verifier::external_body]
fn elapsed_nanos_wide(start: &std::time::Instant) -> u128 {
    start.elapsed().as_nanos()
}

/// `n` held to the range of `u64`.
fn saturate_u64(n: u128) -> (r: u64)
    ensures
        r == if n > u64::MAX { u64::MAX as int } else { n as int },
{
    if n > u64::MAX as u128 { u64::MAX } else { n as u64 }
}

/// Nanoseconds elapsed since `start`, saturated to the range of `u64`.
fn elapsed_nanos(start: &std::time::Instant) -> u64 {
    saturate_u64(elapsed_nanos_wide(start))
}

/// A recorded slow query.
#[derive(Debug, Clone)]
pub struct SlowQuery {
    /// Milliseconds since the Unix epoch when the query finished.
    pub timestamp: i64,
    pub duration_ms: u64,
    pub query: String,
    pub collection: Option<String>,
    pub client_addr: Option<String>,
    pub user: Option<String>,
}

/// A copy of an optional string.
fn copy_opt(s: &Option<String>) -> (r: Option<String>)
    ensures
        r == *s,
{
    match s {
        Some(x) => Some(x.clone()),
        None => None,
    }
}

impl SlowQuery {
    /// A copy of this record.
    pub fn copy(&self) -> (r: SlowQuery)
        ensures
            r == *self,
    {
        SlowQuery {
            timestamp: self.timestamp,
            duration_ms: self.duration_ms,
            query: self.query.clone(),
            collection: copy_opt(&self.collection),
            client_addr: copy_opt(&self.client_addr),
            user: copy_opt(&self.user),
        }
    }
}

/// A query being timed.
pub struct QueryTracker {
    pub start_time: std::time::Instant,
    pub query: String,
    pub collection: Option<String>,
    pub client_addr: Option<String>,
    pub user: Option<String>,
}

/// The last `n` entries of `s`, all of them when there are fewer.
pub open spec fn keep_last<T>(s: Seq<T>, n: nat) -> Seq<T> {
    if s.len() > n { s.skip(s.len() - n) } else { s }
}

/// The `limit` most recent entries, newest first.
pub open spec fn recent<T>(s: Seq<T>, limit: nat) -> Seq<T> {
    keep_last(s, limit).reverse()
}

/// The sum of the recorded durations.
pub open spec fn total_ms(s: Seq<SlowQuery>) -> nat
    decreases s.len(),
{
    if s.len() == 0 { 0 } else { total_ms(s.drop_last()) + s.last().duration_ms as nat }
}

/// The largest recorded duration, or 0.
pub open spec fn max_ms(s: Seq<SlowQuery>) -> u64
    decreases s.len(),
{
    if s.len() == 0 {
        0
    } else {
        let m = max_ms(s.drop_last());
        if s.last().duration_ms > m { s.last().duration_ms } else { m }
    }
}

/// Summary of the slow-query log.
#[derive(Debug, Clone)]
pub struct SlowQueryStats {
    pub total_count: usize,
    pub avg_duration_ms: u64,
    pub max_duration_ms: u64,
    pub threshold_ms: u64,
}

impl Default for SlowQueryStats {
    fn default() -> (s: SlowQueryStats)
        ensures
            s.total_count == 0,
            s.avg_duration_ms == 0,
            s.max_duration_ms == 0,
            s.threshold_ms == 100,
    {
        SlowQueryStats { total_count: 0, avg_duration_ms: 0, max_duration_ms: 0, threshold_ms: 100 }
    }
}

/// The record of a tracked query that finished at `timestamp` after
/// `elapsed_nanos` nanoseconds.
pub open spec fn tracked_record(t: QueryTracker, elapsed_nanos: u64, timestamp: i64) -> SlowQuery {
    SlowQuery {
        timestamp,
        duration_ms: elapsed_nanos / 1_000_000,
        query: t.query,
        collection: t.collection,
        client_addr: t.client_addr,
        user: t.user,
    }
}

/// The slow-query log after a query of `elapsed_nanos` nanoseconds is
/// offered to it: kept (with only the last [`SLOW_QUERY_LIMIT`] records)
/// when the log is enabled and the query took at least the threshold,
/// unchanged otherwise.
pub open spec fn slow_logged(s: Seq<SlowQuery>, enabled: bool, threshold: u64, q: SlowQuery, elapsed_nanos: u64) -> Seq<SlowQuery> {
    if enabled && elapsed_nanos >= threshold { keep_last(s.push(q), SLOW_QUERY_LIMIT as nat) } else { s }
}

/// Records queries that take at least a threshold.
pub struct SlowQueryLogger {
    threshold_nanos: u64,
    enabled: bool,
    queries: Vec<SlowQuery>,
}

impl SlowQueryLogger {
    /// The recorded slow queries, oldest first.
    pub closed spec fn recorded(&self) -> Seq<SlowQuery> {
        self.queries@
    }

    pub closed spec fn threshold(&self) -> u64 {
        self.threshold_nanos
    }

    pub closed spec fn is_enabled(&self) -> bool {
        self.enabled
    }

    /// A log that records queries taking at least `threshold_nanos`
    /// nanoseconds, when enabled.
    pub fn new(threshold_nanos: u64, enabled: bool) -> (l: SlowQueryLogger)
        ensures
            l.recorded() == Seq::<SlowQuery>::empty(),
            l.threshold() == threshold_nanos,
            l.is_enabled() == enabled,
    {
        SlowQueryLogger { threshold_nanos, enabled, queries: Vec::new() }
    }

    /// Starts timing a query.
    pub fn start_query(
        &self,
        query: String,
        collection: Option<String>,
        client_addr: Option<String>,
        user: Option<String>,
    ) -> (t: QueryTracker)
        ensures
            t.query == query,
            t.collection == collection,
            t.client_addr == client_addr,
            t.user == user,
    {
        QueryTracker { start_time: instant_now(), query, collection, client_addr, user }
    }

    /// Records a query that finished at `timestamp` after `elapsed_nanos`
    /// nanoseconds, when the log is enabled and the query took at least the
    /// threshold; only the last [`SLOW_QUERY_LIMIT`] records are kept.
    pub fn record_query(
        &mut self,
        query: String,
        collection: Option<String>,
        client_addr: Option<String>,
        user: Option<String>,
        elapsed_nanos: u64,
        timestamp: i64,
    )
        ensures
            final(self).threshold() == old(self).threshold(),
            final(self).is_enabled() == old(self).is_enabled(),
            old(self).is_enabled() && elapsed_nanos >= old(self).threshold() ==> final(self).recorded() == keep_last(
                old(self).recorded().push(SlowQuery {
                    timestamp,
                    duration_ms: elapsed_nanos / 1_000_000,
                    query,
                    collection,
                    client_addr,
                    user,
                }),
                SLOW_QUERY_LIMIT as nat,
            ),
            !(old(self).is_enabled() && elapsed_nanos >= old(self).threshold()) ==> final(self).recorded() == old(self).recorded(),
    {
        if !self.enabled || elapsed_nanos < self.threshold_nanos {
            return;
        }
        let record = SlowQuery {
            timestamp,
            duration_ms: elapsed_nanos / 1_000_000,
            query,
            collection,
            client_addr,
            user,
        };
        self.queries.push(record);
        if self.queries.len() > SLOW_QUERY_LIMIT {
            let ghost full = self.queries@;
            let excess = self.queries.len() - SLOW_QUERY_LIMIT;
            let mut kept: Vec<SlowQuery> = Vec::new();
            let mut i: usize = excess;
            while i < self.queries.len()
                invariant
                    excess <= i <= self.queries@.len(),
                    self.queries@ == full,
                    kept@ == full.subrange(excess as int, i as int),
                decreases self.queries@.len() - i,
            {
                kept.push(self.queries[i].copy());
                i = i + 1;
            }
            self.queries = kept;
        }
    }

    /// Finishes timing a query and records it if it was slow.
    pub fn finish_query(&mut self, tracker: QueryTracker)
        ensures
            final(self).threshold() == old(self).threshold(),
            final(self).is_enabled() == old(self).is_enabled(),
            exists|elapsed_nanos: u64, timestamp: i64| #![trigger tracked_record(tracker, elapsed_nanos, timestamp)]
                final(self).recorded() == slow_logged(
                    old(self).recorded(),
                    old(self).is_enabled(),
                    old(self).threshold(),
                    tracked_record(tracker, elapsed_nanos, timestamp),
                    elapsed_nanos,
                ),
    {
        if !self.enabled {
            assert(self.recorded() == slow_logged(old(self).recorded(), false, old(self).threshold(), tracked_record(tracker, 0, 0), 0));
            return;
        }
        let elapsed = elapsed_nanos(&tracker.start_time);
        let timestamp = utc_now_millis();
        let ghost t = tracker;
        self.record_query(tracker.query, tracker.collection, tracker.client_addr, tracker.user, elapsed, timestamp);
        assert(self.recorded() == slow_logged(old(self).recorded(), old(self).is_enabled(), old(self).threshold(),
            tracked_record(t, elapsed, timestamp), elapsed));
    }

    /// The `limit` most recent slow queries, newest first.
    pub fn get_slow_queries(&self, limit: usize) -> (r: Vec<SlowQuery>)
        ensures
            r@ == recent(self.recorded(), limit as nat),
    {
        let mut out: Vec<SlowQuery> = Vec::new();
        let n = self.queries.len();
        let mut i: usize = n;
        while i > 0 && out.len() < limit
            invariant
                i <= n,
                n == self.queries@.len(),
                out@.len() == n - i,
                out@.len() <= limit,
                forall|j: int| 0 <= j < out@.len() ==> out@[j] == self.queries@[n - 1 - j],
            decreases i,
        {
            i = i - 1;
            out.push(self.queries[i].copy());
        }
        proof {
            let k = keep_last(self.queries@, limit as nat);
            assert(out@.len() == k.len());
            assert forall|j: int| 0 <= j < out@.len() implies out@[j] == k.reverse()[j] by {
                assert(k.reverse()[j] == k[k.len() - 1 - j]);
            }
            assert(out@ =~= k.reverse());
        }
        out
    }

    /// Count, mean and largest duration of the recorded slow queries, and
    /// the threshold in milliseconds; the defaults when none is recorded.
    pub fn get_stats(&self) -> (s: SlowQueryStats)
        requires
            total_ms(self.recorded()) <= u64::MAX,
        ensures
            self.recorded().len() == 0 ==> s.total_count == 0 && s.avg_duration_ms == 0
                && s.max_duration_ms == 0 && s.threshold_ms == 100,
            self.recorded().len() > 0 ==> s.total_count == self.recorded().len()
                && s.avg_duration_ms == total_ms(self.recorded()) / (self.recorded().len() as nat)
                && s.max_duration_ms == max_ms(self.recorded())
                && s.threshold_ms == self.threshold() / 1_000_000,
    {
        if self.queries.len() == 0 {
            return SlowQueryStats::default();
        }
        let mut total: u64 = 0;
        let mut max: u64 = 0;
        let mut i: usize = 0;
        while i < self.queries.len()
            invariant
                i <= self.queries@.len(),
                total_ms(self.queries@) <= u64::MAX,
                total == total_ms(self.queries@.take(i as int)),
                max == max_ms(self.queries@.take(i as int)),
            decreases self.queries@.len() - i,
        {
            proof {
                assert(self.queries@.take(i + 1).drop_last() =~= self.queries@.take(i as int));
                lemma_total_prefix(self.queries@, i + 1);
            }
            let d = self.queries[i].duration_ms;
            total = total + d;
            if d > max {
                max = d;
            }
            i = i + 1;
        }
        proof { assert(self.queries@.take(i as int) =~= self.queries@); }
        let count = self.queries.len();
        SlowQueryStats {
            total_count: count,
            avg_duration_ms: total / (count as u64),
            max_duration_ms: max,
            threshold_ms: self.threshold_nanos / 1_000_000,
        }
    }
}

/// A prefix's total is at most the whole total.
proof fn lemma_total_prefix(s: Seq<SlowQuery>, n: int)
    requires
        0 <= n <= s.len(),
    ensures
        total_ms(s.take(n)) <= total_ms(s),
    decreases s.len(),
{
    if n < s.len() {
        assert(s.drop_last().take(n) =~= s.take(n));
        lemma_total_prefix(s.drop_last(), n);
    } else {
        assert(s.take(n) =~= s);
    }
}

/// An event for the audit log; times are milliseconds since the Unix epoch.
#[derive(Debug, Clone)]
pub enum AuditEvent {
    Authentication { user: String, success: bool, client_addr: String, timestamp: i64 },
    Authorization { user: String, operation: String, resource: String, success: bool, timestamp: i64 },
    AdminOperation { user: String, operation: String, details: String, timestamp: i64 },
    ConfigurationChange { user: String, setting: String, old_value: String, new_value: String, timestamp: i64 },
}

/// How an audit event is written to the log output: its level, its event
/// type and its message.
pub open spec fn audit_line(e: AuditEvent) -> (LogLevel, &'static str, &'static str) {
    match e {
        AuditEvent::Authentication { success, .. } => if success {
            (LogLevel::Info, "authentication", "User authentication successful")
        } else {
            (LogLevel::Warn, "authentication", "User authentication failed")
        },
        AuditEvent::Authorization { success, .. } => if success {
            (LogLevel::Debug, "authorization", "Authorization granted")
        } else {
            (LogLevel::Warn, "authorization", "Authorization denied")
        },
        AuditEvent::AdminOperation { .. } => (LogLevel::Info, "admin_operation", "Admin operation performed"),
        AuditEvent::ConfigurationChange { .. } => (LogLevel::Info, "config_change", "Configuration changed"),
    }
}

impl AuditEvent {
    /// The level, event type and message the event is written with.
    pub fn log_line(&self) -> (r: (LogLevel, &'static str, &'static str))
        ensures
            r == audit_line(*self),
    {
        match self {
            AuditEvent::Authentication { success, .. } => if *success {
                (LogLevel::Info, "authentication", "User authentication successful")
            } else {
                (LogLevel::Warn, "authentication", "User authentication failed")
            },
            AuditEvent::Authorization { success, .. } => if *success {
                (LogLevel::Debug, "authorization", "Authorization granted")
            } else {
                (LogLevel::Warn, "authorization", "Authorization denied")
            },
            AuditEvent::AdminOperation { .. } => (LogLevel::Info, "admin_operation", "Admin operation performed"),
            AuditEvent::ConfigurationChange { .. } => (LogLevel::Info, "config_change", "Configuration changed"),
        }
    }

    /// A copy of this event.
    pub fn copy(&self) -> (r: AuditEvent)
        ensures
            r == *self,
    {
        match self {
            AuditEvent::Authentication { user, success, client_addr, timestamp } => AuditEvent::Authentication {
                user: user.clone(),
                success: *success,
                client_addr: client_addr.clone(),
                timestamp: *timestamp,
            },
            AuditEvent::Authorization { user, operation, resource, success, timestamp } => AuditEvent::Authorization {
                user: user.clone(),
                operation: operation.clone(),
                resource: resource.clone(),
                success: *success,
                timestamp: *timestamp,
            },
            AuditEvent::AdminOperation { user, operation, details, timestamp } => AuditEvent::AdminOperation {
                user: user.clone(),
                operation: operation.clone(),
                details: details.clone(),
                timestamp: *timestamp,
            },
            AuditEvent::ConfigurationChange { user, setting, old_value, new_value, timestamp } => AuditEvent::ConfigurationChange {
                user: user.clone(),
                setting: setting.clone(),
                old_value: old_value.clone(),
                new_value: new_value.clone(),
                timestamp: *timestamp,
            },
        }
    }
}

/// Counts of audit events by kind.
#[derive(Debug, Clone)]
pub struct AuditStats {
    pub total_events: usize,
    pub authentication_success: usize,
    pub authentication_failure: usize,
    pub authorization_failure: usize,
    pub admin_operations: usize,
    pub config_changes: usize,
}

/// The number of events in `s` that satisfy `p`.
pub open spec fn count_where(s: Seq<AuditEvent>, p: spec_fn(AuditEvent) -> bool) -> nat
    decreases s.len(),
{
    if s.len() == 0 { 0 } else { count_where(s.drop_last(), p) + if p(s.last()) { 1nat } else { 0nat } }
}

pub open spec fn is_auth_success(e: AuditEvent) -> bool {
    e matches AuditEvent::Authentication { success, .. } && success
}

pub open spec fn is_auth_failure(e: AuditEvent) -> bool {
    e matches AuditEvent::Authentication { success, .. } && !success
}

pub open spec fn is_authz_failure(e: AuditEvent) -> bool {
    e matches AuditEvent::Authorization { success, .. } && !success
}

pub open spec fn is_admin(e: AuditEvent) -> bool {
    e is AdminOperation
}

pub open spec fn is_config_change(e: AuditEvent) -> bool {
    e is ConfigurationChange
}

proof fn lemma_count_le(s: Seq<AuditEvent>, p: spec_fn(AuditEvent) -> bool)
    ensures
        count_where(s, p) <= s.len(),
    decreases s.len(),
{
    if s.len() > 0 {
        lemma_count_le(s.drop_last(), p);
    }
}

/// The audit log after `e` is offered to it: kept (with only the last
/// [`AUDIT_EVENT_LIMIT`] events) when the log is enabled, unchanged otherwise.
pub open spec fn audit_logged(s: Seq<AuditEvent>, enabled: bool, e: AuditEvent) -> Seq<AuditEvent> {
    if enabled { keep_last(s.push(e), AUDIT_EVENT_LIMIT as nat) } else { s }
}

/// Records security-relevant events.
pub struct AuditLogger {
    enabled: bool,
    events: Vec<AuditEvent>,
}

impl AuditLogger {
    /// The recorded events, oldest first.
    pub closed spec fn recorded(&self) -> Seq<AuditEvent> {
        self.events@
    }

    pub closed spec fn is_enabled(&self) -> bool {
        self.enabled
    }

    pub fn new(enabled: bool) -> (l: AuditLogger)
        ensures
            l.recorded() == Seq::<AuditEvent>::empty(),
            l.is_enabled() == enabled,
    {
        AuditLogger { enabled, events: Vec::new() }
    }

    /// Records `event` when the log is enabled, keeping only the last
    /// [`AUDIT_EVENT_LIMIT`] events.
    pub fn log_event(&mut self, event: AuditEvent)
        ensures
            final(self).is_enabled() == old(self).is_enabled(),
            old(self).is_enabled() ==> final(self).recorded() == keep_last(old(self).recorded().push(event), AUDIT_EVENT_LIMIT as nat),
            !old(self).is_enabled() ==> final(self).recorded() == old(self).recorded(),
    {
        if !self.enabled {
            return;
        }
        self.events.push(event);
        if self.events.len() > AUDIT_EVENT_LIMIT {
            let ghost full = self.events@;
            let excess = self.events.len() - AUDIT_EVENT_LIMIT;
            let mut kept: Vec<AuditEvent> = Vec::new();
            let mut i: usize = excess;
            while i < self.events.len()
                invariant
                    excess <= i <= self.events@.len(),
                    self.events@ == full,
                    kept@ == full.subrange(excess as int, i as int),
                decreases self.events@.len() - i,
            {
                kept.push(self.events[i].copy());
                i = i + 1;
            }
            self.events = kept;
        }
    }

    /// Records a login attempt, stamped now.
    pub fn log_authentication(&mut self, user: &str, success: bool, client_addr: &str)
        ensures
            final(self).is_enabled() == old(self).is_enabled(),
            exists|e: AuditEvent| #![trigger audit_logged(old(self).recorded(), old(self).is_enabled(), e)] {
                &&& e matches AuditEvent::Authentication { user: u, success: ok, client_addr: a, .. }
                &&& u@ == user@ && ok == success && a@ == client_addr@
                &&& final(self).recorded() == audit_logged(old(self).recorded(), old(self).is_enabled(), e)
            },
    {
        let timestamp = utc_now_millis();
        let event = AuditEvent::Authentication {
            user: user.to_owned(),
            success,
            client_addr: client_addr.to_owned(),
            timestamp,
        };
        let ghost g = event;
        self.log_event(event);
        assert(self.recorded() == audit_logged(old(self).recorded(), old(self).is_enabled(), g));
    }

    /// Records an access decision, stamped now.
    pub fn log_authorization(&mut self, user: &str, operation: &str, resource: &str, success: bool)
        ensures
            final(self).is_enabled() == old(self).is_enabled(),
            exists|e: AuditEvent| #![trigger audit_logged(old(self).recorded(), old(self).is_enabled(), e)] {
                &&& e matches AuditEvent::Authorization { user: u, operation: o, resource: r, success: ok, .. }
                &&& u@ == user@ && o@ == operation@ && r@ == resource@ && ok == success
                &&& final(self).recorded() == audit_logged(old(self).recorded(), old(self).is_enabled(), e)
            },
    {
        let timestamp = utc_now_millis();
        let event = AuditEvent::Authorization {
            user: user.to_owned(),
            operation: operation.to_owned(),
            resource: resource.to_owned(),
            success,
            timestamp,
        };
        let ghost g = event;
        self.log_event(event);
        assert(self.recorded() == audit_logged(old(self).recorded(), old(self).is_enabled(), g));
    }

    /// Records an administrative operation, stamped now.
    pub fn log_admin_operation(&mut self, user: &str, operation: &str, details: &str)
        ensures
            final(self).is_enabled() == old(self).is_enabled(),
            exists|e: AuditEvent| #![trigger audit_logged(old(self).recorded(), old(self).is_enabled(), e)] {
                &&& e matches AuditEvent::AdminOperation { user: u, operation: o, details: d, .. }
                &&& u@ == user@ && o@ == operation@ && d@ == details@
                &&& final(self).recorded() == audit_logged(old(self).recorded(), old(self).is_enabled(), e)
            },
    {
        let timestamp = utc_now_millis();
        let event = AuditEvent::AdminOperation {
            user: user.to_owned(),
            operation: operation.to_owned(),
            details: details.to_owned(),
            timestamp,
        };
        let ghost g = event;
        self.log_event(event);
        assert(self.recorded() == audit_logged(old(self).recorded(), old(self).is_enabled(), g));
    }

    /// Records a configuration change, stamped now.
    pub fn log_config_change(&mut self, user: &str, setting: &str, old_value: &str, new_value: &str)
        ensures
            final(self).is_enabled() == old(self).is_enabled(),
            exists|e: AuditEvent| #![trigger audit_logged(old(self).recorded(), old(self).is_enabled(), e)] {
                &&& e matches AuditEvent::ConfigurationChange { user: u, setting: k, old_value: a, new_value: b, .. }
                &&& u@ == user@ && k@ == setting@ && a@ == old_value@ && b@ == new_value@
                &&& final(self).recorded() == audit_logged(old(self).recorded(), old(self).is_enabled(), e)
            },
    {
        let timestamp = utc_now_millis();
        let event = AuditEvent::ConfigurationChange {
            user: user.to_owned(),
            setting: setting.to_owned(),
            old_value: old_value.to_owned(),
            new_value: new_value.to_owned(),
            timestamp,
        };
        let ghost g = event;
        self.log_event(event);
        assert(self.recorded() == audit_logged(old(self).recorded(), old(self).is_enabled(), g));
    }

    /// The `limit` most recent events, newest first.
    pub fn get_events(&self, limit: usize) -> (r: Vec<AuditEvent>)
        ensures
            r@ == recent(self.recorded(), limit as nat),
    {
        let mut out: Vec<AuditEvent> = Vec::new();
        let n = self.events.len();
        let mut i: usize = n;
        while i > 0 && out.len() < limit
            invariant
                i <= n,
                n == self.events@.len(),
                out@.len() == n - i,
                out@.len() <= limit,
                forall|j: int| 0 <= j < out@.len() ==> out@[j] == self.events@[n - 1 - j],
            decreases i,
        {
            i = i - 1;
            out.push(self.events[i].copy());
        }
        proof {
            let k = keep_last(self.events@, limit as nat);
            assert(out@.len() == k.len());
            assert forall|j: int| 0 <= j < out@.len() implies out@[j] == k.reverse()[j] by {
                assert(k.reverse()[j] == k[k.len() - 1 - j]);
            }
            assert(out@ =~= k.reverse());
        }
        out
    }

    /// Counts of the recorded events by kind.
    pub fn get_stats(&self) -> (s: AuditStats)
        ensures
            s.total_events == self.recorded().len(),
            s.authentication_success == count_where(self.recorded(), |e: AuditEvent| is_auth_success(e)),
            s.authentication_failure == count_where(self.recorded(), |e: AuditEvent| is_auth_failure(e)),
            s.authorization_failure == count_where(self.recorded(), |e: AuditEvent| is_authz_failure(e)),
            s.admin_operations == count_where(self.recorded(), |e: AuditEvent| is_admin(e)),
            s.config_changes == count_where(self.recorded(), |e: AuditEvent| is_config_change(e)),
    {
        let ghost s = self.events@;
        let mut c1: usize = 0;
        let mut c2: usize = 0;
        let mut c3: usize = 0;
        let mut c4: usize = 0;
        let mut c5: usize = 0;
        let mut i: usize = 0;
        while i < self.events.len()
            invariant
                i <= s.len(),
                s == self.events@,
                c1 == count_where(s.take(i as int), |e: AuditEvent| is_auth_success(e)),
                c2 == count_where(s.take(i as int), |e: AuditEvent| is_auth_failure(e)),
                c3 == count_where(s.take(i as int), |e: AuditEvent| is_authz_failure(e)),
                c4 == count_where(s.take(i as int), |e: AuditEvent| is_admin(e)),
                c5 == count_where(s.take(i as int), |e: AuditEvent| is_config_change(e)),
            decreases s.len() - i,
        {
            proof {
                assert(s.take(i + 1).drop_last() =~= s.take(i as int));
                lemma_count_le(s.take(i as int), |e: AuditEvent| is_auth_success(e));
                lemma_count_le(s.take(i as int), |e: AuditEvent| is_auth_failure(e));
                lemma_count_le(s.take(i as int), |e: AuditEvent| is_authz_failure(e));
                lemma_count_le(s.take(i as int), |e: AuditEvent| is_admin(e));
                lemma_count_le(s.take(i as int), |e: AuditEvent| is_config_change(e));
                assert(s.take(i + 1).last() == s[i as int]);
            }
            let ev = &self.events[i];
            match ev {
                AuditEvent::Authentication { success, .. } => {
                    if *success {
                        c1 = c1 + 1;
                    } else {
                        c2 = c2 + 1;
                    }
                },
                AuditEvent::Authorization { success, .. } => {
                    if !*success {
                        c3 = c3 + 1;
                    }
                },
                AuditEvent::AdminOperation { .. } => {
                    c4 = c4 + 1;
                },
                AuditEvent::ConfigurationChange { .. } => {
                    c5 = c5 + 1;
                },
            }
            i = i + 1;
        }
        proof { assert(s.take(i as int) =~= s); }
        AuditStats {
            total_events: self.events.len(),
            authentication_success: c1,
            authentication_failure: c2,
            authorization_failure: c3,
            admin_operations: c4,
            config_changes: c5,
        }
    }
}

} // verus!
