use veddb_core::monitoring::metrics::{OperationType, ServerMetrics};

#[test]
fn test_metrics_creation() {
    let metrics = ServerMetrics::new(0);
    assert_eq!(metrics.counters().total_operations, 0);
    assert_eq!(metrics.counters().active_connections, 0);
}

#[test]
fn test_operation_recording() {
    let mut metrics = ServerMetrics::new(0);

    metrics.record_operation(OperationType::Read, 1000);
    metrics.record_operation(OperationType::Write, 2000);

    assert_eq!(metrics.counters().total_operations, 2);
    assert_eq!(metrics.counters().read_operations, 1);
    assert_eq!(metrics.counters().write_operations, 1);
}

#[test]
fn test_cache_metrics() {
    let mut metrics = ServerMetrics::new(0);

    metrics.record_cache_hit();
    metrics.record_cache_hit();
    metrics.record_cache_miss();

    let c = metrics.counters();
    let hit_rate = c.cache_hits as f64 / (c.cache_hits + c.cache_misses) as f64 * 100.0;
    assert!((hit_rate - 66.66666666666667).abs() < 0.001); // 2/3 * 100
}

#[test]
fn latencies_go_to_their_windows() {
    let mut metrics = ServerMetrics::new(0);
    for i in 1..=100u64 {
        metrics.record_operation(OperationType::Read, i * 1000);
    }
    metrics.record_operation(OperationType::Delete, 7);
    metrics.record_operation(OperationType::Query, 9);
    assert_eq!(metrics.latency_tracker().get_read_percentiles().max, 0);
    metrics.update_percentiles();
    let t = metrics.latency_tracker();
    assert_eq!(t.get_read_percentiles().max, 100_000);
    assert_eq!(t.get_read_percentiles().p50, 51_000);
    assert_eq!(t.get_write_percentiles().max, 7);
    assert_eq!(t.get_query_percentiles().p50, 9);
    assert_eq!(metrics.counters().delete_operations, 1);
    assert_eq!(metrics.counters().total_operations, 102);
}

#[test]
fn connection_and_error_counters() {
    let mut metrics = ServerMetrics::new(1_700_000_000_000);
    assert_eq!(metrics.start_time_ms(), 1_700_000_000_000);
    metrics.record_connection_opened();
    metrics.record_connection_opened();
    metrics.record_connection_closed();
    metrics.record_connection_error();
    metrics.record_auth_failure();
    metrics.record_authz_failure();
    metrics.record_query_error();
    metrics.record_storage_error();
    metrics.record_cache_eviction();
    metrics.update_memory_usage(30, 10, 20);
    metrics.update_replication_lag(42);
    let c = metrics.counters();
    assert_eq!((c.active_connections, c.total_connections, c.connection_errors), (1, 2, 1));
    assert_eq!((c.authentication_failures, c.authorization_failures, c.query_errors, c.storage_errors), (1, 1, 1, 1));
    assert_eq!((c.memory_usage_bytes, c.cache_memory_bytes, c.persistent_memory_bytes), (30, 10, 20));
    assert_eq!((c.cache_evictions, c.replication_lag_ms), (1, 42));
}

#[test]
fn collection_metrics_start_at_zero() {
    let mut metrics = ServerMetrics::new(0);
    let m = metrics.get_collection_metrics("users");
    assert_eq!(m.read_count, 0);
    assert_eq!(m.document_count, 0);
    let again = metrics.get_collection_metrics("users");
    assert_eq!(again, m);
}
