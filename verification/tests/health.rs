use veddb_core::monitoring::health::{
    http_status, latency_status, memory_status, overall_status, replication_status, HealthStatus,
};
use veddb_core::monitoring::health::HealthStatus::{Degraded, Healthy, Unhealthy};

#[test]
fn component_limits() {
    let gib: u64 = 1024 * 1024 * 1024;
    assert_eq!(memory_status(4 * gib), HealthStatus::Healthy);
    assert_eq!(memory_status(4 * gib + 1), HealthStatus::Degraded);
    assert_eq!(memory_status(8 * gib), HealthStatus::Degraded);
    assert_eq!(memory_status(8 * gib + 1), HealthStatus::Unhealthy);
    assert_eq!(latency_status(50), HealthStatus::Healthy);
    assert_eq!(latency_status(51), HealthStatus::Degraded);
    assert_eq!(latency_status(101), HealthStatus::Unhealthy);
    assert_eq!(replication_status(1000), HealthStatus::Healthy);
    assert_eq!(replication_status(1001), HealthStatus::Degraded);
    assert_eq!(replication_status(5001), HealthStatus::Unhealthy);
}

#[test]
fn overall_takes_the_last_unhealthy_component() {
    assert_eq!(overall_status(&[]), Healthy);
    assert_eq!(overall_status(&[Healthy, Healthy]), Healthy);
    assert_eq!(overall_status(&[Unhealthy, Healthy]), Unhealthy);
    // a later degraded component overrides an earlier unhealthy one
    assert_eq!(overall_status(&[Unhealthy, Degraded, Healthy]), Degraded);
    assert_eq!(overall_status(&[Degraded, Healthy, Unhealthy]), Unhealthy);
}

#[test]
fn http_status_of_reports() {

    assert_eq!(http_status(Healthy), "200 OK");
    assert_eq!(http_status(Degraded), "200 OK");
    assert_eq!(http_status(Unhealthy), "503 Service Unavailable");
}
