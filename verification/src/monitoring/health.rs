//! Health reporting: the status of each component from its measurement,
//! and the overall status from the components'.
use vstd::prelude::*;

verus! {

/// The health of the server or of one of its components.
#[derive(Debug, Clone, Copy, PartialEq, Eq, Structural)]
pub enum HealthStatus {
    Healthy,
    Degraded,
    Unhealthy,
}

/// Memory use above which the server is degraded: 4 GiB.
pub const MEMORY_DEGRADED_BYTES: u64 = 4294967296;
/// Memory use above which the server is unhealthy: 8 GiB.
pub const MEMORY_UNHEALTHY_BYTES: u64 = 8589934592;
/// Read latency (99th percentile) above which the server is degraded.
pub const LATENCY_DEGRADED_MS: u64 = 50;
/// Read latency (99th percentile) above which the server is unhealthy.
pub const LATENCY_UNHEALTHY_MS: u64 = 100;
/// Replication lag above which the server is degraded.
pub const LAG_DEGRADED_MS: u64 = 1000;
/// Replication lag above which the server is unhealthy.
pub const LAG_UNHEALTHY_MS: u64 = 5000;

/// The status of a measurement against two limits: above the higher one
/// unhealthy, above the lower one degraded, healthy otherwise.
pub open spec fn graded(value: int, degraded_above: int, unhealthy_above: int) -> HealthStatus {
    if value > unhealthy_above {
        HealthStatus::Unhealthy
    } else if value > degraded_above {
        HealthStatus::Degraded
    } else {
        HealthStatus::Healthy
    }
}

fn grade(value: u64, degraded_above: u64, unhealthy_above: u64) -> (s: HealthStatus)
    ensures
        s == graded(value as int, degraded_above as int, unhealthy_above as int),
{
    if value > unhealthy_above {
        HealthStatus::Unhealthy
    } else if value > degraded_above {
        HealthStatus::Degraded
    } else {
        HealthStatus::Healthy
    }
}

/// The memory component's status for `bytes` in use.
pub fn memory_status(bytes: u64) -> (s: HealthStatus)
    ensures
        s == graded(bytes as int, MEMORY_DEGRADED_BYTES as int, MEMORY_UNHEALTHY_BYTES as int),
{
    grade(bytes, MEMORY_DEGRADED_BYTES, MEMORY_UNHEALTHY_BYTES)
}

/// The latency component's status for a 99th-percentile read latency.
pub fn latency_status(p99_ms: u64) -> (s: HealthStatus)
    ensures
        s == graded(p99_ms as int, LATENCY_DEGRADED_MS as int, LATENCY_UNHEALTHY_MS as int),
{
    grade(p99_ms, LATENCY_DEGRADED_MS, LATENCY_UNHEALTHY_MS)
}

/// The replication component's status for a lag.
pub fn replication_status(lag_ms: u64) -> (s: HealthStatus)
    ensures
        s == graded(lag_ms as int, LAG_DEGRADED_MS as int, LAG_UNHEALTHY_MS as int),
{
    grade(lag_ms, LAG_DEGRADED_MS, LAG_UNHEALTHY_MS)
}

/// The overall status: that of the last component that is not healthy,
/// or healthy when all are.
pub open spec fn overall(checks: Seq<HealthStatus>) -> HealthStatus
    decreases checks.len(),
{
    if checks.len() == 0 {
        HealthStatus::Healthy
    } else if checks.last() != HealthStatus::Healthy {
        checks.last()
    } else {
        overall(checks.drop_last())
    }
}

/// The overall status of the components checked, in the order checked.
pub fn overall_status(checks: &[HealthStatus]) -> (s: HealthStatus)
    ensures
        s == overall(checks@),
{
    let mut s = HealthStatus::Healthy;
    let mut i: usize = 0;
    while i < checks.len()
        invariant
            i <= checks@.len(),
            s == overall(checks@.take(i as int)),
        decreases checks@.len() - i,
    {
        proof {
            assert(checks@.take(i + 1).drop_last() =~= checks@.take(i as int));
            assert(checks@.take(i + 1).last() == checks@[i as int]);
        }
        if checks[i] != HealthStatus::Healthy {
            s = checks[i];
        }
        i = i + 1;
    }
    proof { assert(checks@.take(checks@.len() as int) =~= checks@); }
    s
}

/// The server is healthy exactly when every component is.
pub proof fn lemma_overall_healthy(checks: Seq<HealthStatus>)
    ensures
        (overall(checks) == HealthStatus::Healthy)
            <==> (forall|i: int| 0 <= i < checks.len() ==> #[trigger] checks[i] == HealthStatus::Healthy),
    decreases checks.len(),
{
    if checks.len() > 0 {
        lemma_overall_healthy(checks.drop_last());
        if checks.last() == HealthStatus::Healthy {
            assert forall|i: int| 0 <= i < checks.len() - 1 implies checks.drop_last()[i] == checks[i] by {}
            if forall|i: int| 0 <= i < checks.drop_last().len() ==> #[trigger] checks.drop_last()[i] == HealthStatus::Healthy {
                assert forall|i: int| 0 <= i < checks.len() implies #[trigger] checks[i] == HealthStatus::Healthy by {
                    if i < checks.len() - 1 {
                        assert(checks.drop_last()[i] == checks[i]);
                    }
                }
            } else {
                let j = choose|j: int| 0 <= j < checks.drop_last().len() && checks.drop_last()[j] != HealthStatus::Healthy;
                assert(checks[j] == checks.drop_last()[j]);
            }
        } else {
            assert(checks[checks.len() - 1] != HealthStatus::Healthy);
        }
    }
}

/// The HTTP status line of a health report: a server that is not
/// unhealthy still serves.
pub fn http_status(status: HealthStatus) -> (r: &'static str)
    ensures
        r@ == if status == HealthStatus::Unhealthy { "503 Service Unavailable"@ } else { "200 OK"@ },
{
    match status {
        HealthStatus::Unhealthy => "503 Service Unavailable",
        _ => "200 OK",
    }
}

} // verus!
