use std::time::{Duration, Instant};
use veddb_core::monitoring::health::HealthStatus;
use veddb_core::monitoring::logging::{level_from_name, AuditEvent, AuditLogger, LogLevel, LoggingConfig, SlowQueryLogger};
use veddb_core::monitoring::metrics::{CollectionMetrics, LatencyBuffer, LatencyPercentiles, BUFFER_SIZE};
use veddb_core::storage::hybrid::HybridStorageStats;

#[test]
fn test_logging_config() {
    let config = LoggingConfig::default();
    assert_eq!(config.level, "INFO");
    assert_eq!(config.parse_level(), LogLevel::Info);

    let config = LoggingConfig { level: "DEBUG".to_string(), ..Default::default() };
    assert_eq!(config.parse_level(), LogLevel::Debug);
}

#[test]
fn level_names_ignore_case_and_default_to_info() {
    let config = LoggingConfig { level: "warn".to_string(), ..Default::default() };
    assert_eq!(config.parse_level(), LogLevel::Warn);
    let config = LoggingConfig { level: "verbose".to_string(), ..Default::default() };
    assert_eq!(config.parse_level(), LogLevel::Info);
    assert_eq!(level_from_name("TRACE"), LogLevel::Trace);
    assert_eq!(level_from_name("ERROR"), LogLevel::Error);
    assert_eq!(level_from_name("error"), LogLevel::Info);
}

#[test]
fn test_slow_query_logger() {
    let mut logger = SlowQueryLogger::new(Duration::from_millis(100).as_nanos() as u64, true);

    let tracker = logger.start_query(
        "SELECT * FROM users".to_string(),
        Some("users".to_string()),
        Some("127.0.0.1".to_string()),
        Some("admin".to_string()),
    );
    logger.finish_query(tracker);

    let slow_queries = logger.get_slow_queries(10);
    assert_eq!(slow_queries.len(), 0);

    let mut tracker = logger.start_query(
        "SELECT * FROM large_table".to_string(),
        Some("large_table".to_string()),
        Some("127.0.0.1".to_string()),
        Some("admin".to_string()),
    );
    tracker.start_time = Instant::now() - Duration::from_millis(200);
    logger.finish_query(tracker);

    let slow_queries = logger.get_slow_queries(10);
    assert_eq!(slow_queries.len(), 1);
    assert!(slow_queries[0].duration_ms >= 200);
}

#[test]
fn test_audit_logger() {
    let mut logger = AuditLogger::new(true);

    logger.log_authentication("admin", true, "127.0.0.1");
    logger.log_authentication("user", false, "192.168.1.1");
    logger.log_authorization("admin", "READ", "users", true);
    logger.log_authorization("user", "WRITE", "admin", false);
    logger.log_admin_operation("admin", "CREATE_USER", "Created user 'newuser'");

    let events = logger.get_events(10);
    assert_eq!(events.len(), 5);

    let stats = logger.get_stats();
    assert_eq!(stats.authentication_success, 1);
    assert_eq!(stats.authentication_failure, 1);
    assert_eq!(stats.authorization_failure, 1);
    assert_eq!(stats.admin_operations, 1);
}

#[test]
fn test_query_tracker() {
    let logger = SlowQueryLogger::new(Duration::from_millis(50).as_nanos() as u64, true);
    let tracker = logger.start_query("INSERT INTO test VALUES (1)".to_string(), Some("test".to_string()), None, None);
    assert_eq!(tracker.query, "INSERT INTO test VALUES (1)");
    assert_eq!(tracker.collection, Some("test".to_string()));
    assert!(tracker.start_time.elapsed() < Duration::from_millis(10));
}

#[test]
fn slow_query_log_keeps_the_last_thousand() {
    let mut logger = SlowQueryLogger::new(1_000_000, true);
    for i in 0..1005u64 {
        logger.record_query(format!("q{}", i), None, None, None, (i + 1) * 1_000_000, 0);
    }
    let recent = logger.get_slow_queries(2000);
    assert_eq!(recent.len(), 1000);
    assert_eq!(recent[0].query, "q1004");
    assert_eq!(recent[999].query, "q5");
    let stats = logger.get_stats();
    assert_eq!(stats.total_count, 1000);
    assert_eq!(stats.max_duration_ms, 1005);
    assert_eq!(stats.avg_duration_ms, (6..=1005u64).sum::<u64>() / 1000);
    assert_eq!(stats.threshold_ms, 1);
}

#[test]
fn fast_or_disabled_queries_are_not_recorded() {
    let mut logger = SlowQueryLogger::new(5_000_000, true);
    logger.record_query("fast".to_string(), None, None, None, 4_999_999, 0);
    assert_eq!(logger.get_slow_queries(10).len(), 0);
    assert_eq!(logger.get_stats().threshold_ms, 100);
    let mut off = SlowQueryLogger::new(0, false);
    off.record_query("slow".to_string(), None, None, None, 9_000_000_000, 0);
    assert_eq!(off.get_slow_queries(10).len(), 0);
}

#[test]
fn audit_log_lines() {
    let e = AuditEvent::Authentication { user: "u".to_string(), success: false, client_addr: "a".to_string(), timestamp: 0 };
    assert_eq!(e.log_line(), (LogLevel::Warn, "authentication", "User authentication failed"));
    let e = AuditEvent::ConfigurationChange {
        user: "u".to_string(),
        setting: "s".to_string(),
        old_value: "1".to_string(),
        new_value: "2".to_string(),
        timestamp: 0,
    };
    assert_eq!(e.log_line(), (LogLevel::Info, "config_change", "Configuration changed"));
}

#[test]
fn disabled_audit_log_records_nothing() {
    let mut logger = AuditLogger::new(false);
    logger.log_admin_operation("admin", "X", "Y");
    assert_eq!(logger.get_events(10).len(), 0);
    assert_eq!(logger.get_stats().total_events, 0);
}

#[test]
fn test_latency_buffer() {
    let mut buffer = LatencyBuffer::new();
    for i in 1..=100u64 {
        buffer.add_sample(i * 1000);
    }
    let percentiles = buffer.calculate_percentiles();
    assert!(percentiles.p50 / 1000 > 0);
    assert!(percentiles.p99 > percentiles.p95);
    assert!(percentiles.p95 > percentiles.p90);
    assert!(percentiles.p90 > percentiles.p50);
}

#[test]
fn latency_percentile_ranks() {
    let mut buffer = LatencyBuffer::new();
    for i in (1..=100u64).rev() {
        buffer.add_sample(i);
    }
    let p = buffer.calculate_percentiles();
    assert_eq!(p.p50, 51);
    assert_eq!(p.p90, 91);
    assert_eq!(p.p95, 96);
    assert_eq!(p.p99, 100);
    assert_eq!(p.p999, 100);
    assert_eq!(p.max, 100);
    assert_eq!(LatencyBuffer::new().calculate_percentiles(), LatencyPercentiles::default());
}

#[test]
fn latency_buffer_wraps() {
    let mut buffer = LatencyBuffer::new();
    for _ in 0..BUFFER_SIZE {
        buffer.add_sample(7);
    }
    buffer.add_sample(9);
    let p = buffer.calculate_percentiles();
    assert_eq!(p.max, 9);
    assert_eq!(p.p50, 7);
}

#[test]
fn collection_metrics_counters() {
    let mut m = CollectionMetrics::new();
    m.record_read();
    m.record_read();
    m.record_write();
    m.update_document_count(12);
    m.update_size(4096);
    m.update_index_count(3);
    assert_eq!(m.read_count, 2);
    assert_eq!(m.write_count, 1);
    assert_eq!(m.document_count, 12);
    assert_eq!(m.total_size_bytes, 4096);
    assert_eq!(m.index_count, 3);
}

#[test]
fn hybrid_stats_total() {
    let mut s = HybridStorageStats::default();
    s.record_cache_hit();
    s.record_cache_hit();
    s.record_cache_miss();
    s.record_cache_write();
    s.record_cache_invalidation();
    s.record_persistent_read();
    s.record_persistent_write();
    assert_eq!(s.cache_hits(), 2);
    assert_eq!(s.cache_invalidations(), 1);
    assert_eq!(s.total_operations(), 6);
}

#[test]
fn health_status_values() {
    assert_ne!(HealthStatus::Healthy, HealthStatus::Degraded);
}
