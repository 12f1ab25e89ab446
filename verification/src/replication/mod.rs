//! Replication between a master and its slaves: the protocol's messages,
//! the roles of the nodes and what each may do, and the decisions of
//! synchronization.
pub mod message;
pub mod stream;
pub mod frame;

use vstd::prelude::*;

pub use message::{AckStatus, ErrorCode, ReplicationMessage};

verus! {

/// Errors of replication.
#[derive(Debug, Clone, PartialEq, Eq)]
pub enum ReplicationError {
    /// An input or output operation failed; the text describes it.
    IoError(String),
    SerializationError(String),
    DeserializationError(String),
    ConnectionError(String),
    ProtocolError(String),
    Timeout,
    InvalidMessageType(String),
    SlaveLimit(usize),
    NotMaster,
    NotSlave,
    NotConfigured,
    SnapshotError(String),
    WalError(String),
}

/// Synchronization counters.
#[derive(Debug, Clone)]
pub struct SyncStats {
    /// Current log sequence number.
    pub current_sequence: u64,
    /// How far the slaves lag, in milliseconds.
    pub replication_lag_ms: u64,
    /// Number of subscribers to the log stream.
    pub active_subscribers: usize,
}

/// The role of a node.
#[derive(Debug, Clone, PartialEq, Eq)]
pub enum NodeRole {
    /// Accepts writes and replicates them to its slaves.
    Master,
    /// Replicates from the master at `master_addr` (host and port).
    Slave { master_addr: String },
}

impl NodeRole {
    /// Every node serves reads.
    pub fn can_read(&self) -> (r: bool)
        ensures
            r,
    {
        true
    }

    /// Only the master serves writes.
    pub fn can_write(&self) -> (r: bool)
        ensures
            r == (*self is Master),
    {
        match self {
            NodeRole::Master => true,
            NodeRole::Slave { .. } => false,
        }
    }

    /// The check made before a write: a slave refuses it.
    pub fn check_write(&self) -> (r: Result<(), ReplicationError>)
        ensures
            *self is Master ==> r is Ok,
            *self is Slave ==> r == Err::<(), ReplicationError>(ReplicationError::NotMaster),
    {
        if self.can_write() { Ok(()) } else { Err(ReplicationError::NotMaster) }
    }

    /// The check made before reconnecting to the master: only a slave has
    /// one.
    pub fn check_reconnect(&self) -> (r: Result<(), ReplicationError>)
        ensures
            *self is Slave ==> r is Ok,
            *self is Master ==> r == Err::<(), ReplicationError>(ReplicationError::NotSlave),
    {
        match self {
            NodeRole::Slave { .. } => Ok(()),
            NodeRole::Master => Err(ReplicationError::NotSlave),
        }
    }
}

/// The health of a node and of the slaves it knows of.
#[derive(Debug, Clone)]
pub struct ClusterHealth {
    pub role: NodeRole,
    pub is_healthy: bool,
    /// Slaves connected to this master (0 on a slave).
    pub total_slaves: usize,
    /// Of those, the ones whose connection is still running.
    pub healthy_slaves: usize,
    /// How far this slave lags, in milliseconds (0 on the master).
    pub replication_lag_ms: u64,
    pub can_read: bool,
    pub can_write: bool,
}

impl ClusterHealth {
    /// The health report of a node: a master is healthy while it runs and
    /// reports its slaves; a slave is healthy while connected to its master
    /// and reports its lag.
    pub fn for_node(role: NodeRole, total_slaves: usize, healthy_slaves: usize, master_connected: bool, lag_ms: u64) -> (h: ClusterHealth)
        ensures
            h.role == role,
            h.can_read,
            h.can_write == (role is Master),
            role is Master ==> h.is_healthy && h.total_slaves == total_slaves
                && h.healthy_slaves == healthy_slaves && h.replication_lag_ms == 0,
            role is Slave ==> h.is_healthy == master_connected && h.total_slaves == 0
                && h.healthy_slaves == 0 && h.replication_lag_ms == lag_ms,
    {
        match role {
            NodeRole::Master => ClusterHealth {
                role,
                is_healthy: true,
                total_slaves,
                healthy_slaves,
                replication_lag_ms: 0,
                can_read: true,
                can_write: true,
            },
            NodeRole::Slave { .. } => ClusterHealth {
                role,
                is_healthy: master_connected,
                total_slaves: 0,
                healthy_slaves: 0,
                replication_lag_ms: lag_ms,
                can_read: true,
                can_write: false,
            },
        }
    }
}

/// The check made before a master takes another slave.
pub fn admit_slave(connected: usize, max_slaves: usize) -> (r: Result<(), ReplicationError>)
    ensures
        connected < max_slaves ==> r is Ok,
        connected >= max_slaves ==> r == Err::<(), ReplicationError>(ReplicationError::SlaveLimit(max_slaves)),
{
    if connected >= max_slaves {
        Err(ReplicationError::SlaveLimit(max_slaves))
    } else {
        Ok(())
    }
}

/// How far behind a slave may be and still catch up from the log.
pub const MAX_INCREMENTAL_GAP: u64 = 10000;

/// Whether a slave at `slave_sequence` needs a whole snapshot: it is more
/// than 10000 entries behind the master's `current` sequence, or the oldest
/// log entry still kept (`oldest_available`) is past it.
pub fn needs_full_sync(current: u64, slave_sequence: u64, oldest_available: u64) -> (r: bool)
    requires
        slave_sequence + MAX_INCREMENTAL_GAP <= u64::MAX,
    ensures
        r == (current > slave_sequence + MAX_INCREMENTAL_GAP || slave_sequence < oldest_available),
{
    if current > slave_sequence + MAX_INCREMENTAL_GAP {
        return true;
    }
    slave_sequence < oldest_available
}

/// What zstd's `bulk::compress` gives for `data` at `level`, or `None` when
/// it fails.
pub uninterp spec fn zstd_compressed(data: Seq<u8>, level: i32) -> Option<Seq<u8>>;

/// What zstd's `bulk::decompress` gives for `data` with room for at most
/// `capacity` bytes, or `None` when it fails.
pub uninterp spec fn zstd_decompressed(data: Seq<u8>, capacity: usize) -> Option<Seq<u8>>;

/// Compresses a block with `zstd::bulk::compress`; on failure, the error's
/// text. The result is named: it depends on the bytes and the level alone.
#[verifier::external_body]
fn zstd_compress(data: &[u8], level: i32) -> (r: Result<Vec<u8>, String>)
    ensures
        match zstd_compressed(data@, level) {
            Some(out) => r matches Ok(v) && v@ == out,
            None => r is Err,
        },
{
    zstd::bulk::compress(data, level).map_err(|e| e.to_string())
}

/// Decompresses a block with `zstd::bulk::decompress`, which fails when the
/// result would exceed `capacity` bytes; on failure, the error's text. The
/// result is named: it depends on the bytes and the capacity alone.
#[verifier::external_body]
fn zstd_decompress(data: &[u8], capacity: usize) -> (r: Result<Vec<u8>, String>)
    ensures
        match zstd_decompressed(data@, capacity) {
            Some(out) => r matches Ok(v) && v@ == out && out.len() <= capacity,
            None => r is Err,
        },
{
    zstd::bulk::decompress(data, capacity).map_err(|e| e.to_string())
}

/// The compression level of snapshots sent to slaves.
pub const SNAPSHOT_COMPRESSION_LEVEL: i32 = 3;
/// The largest snapshot a slave accepts, decompressed: 1 GiB.
pub const MAX_SNAPSHOT_BYTES: usize = 1073741824;

/// Compresses a snapshot before it is sent to a slave, at level 3.
pub fn compress_snapshot_data(data: &[u8]) -> (r: Result<Vec<u8>, ReplicationError>)
    ensures
        match zstd_compressed(data@, SNAPSHOT_COMPRESSION_LEVEL) {
            Some(out) => r matches Ok(v) && v@ == out,
            None => r matches Err(ReplicationError::SerializationError(_)),
        },
{
    match zstd_compress(data, SNAPSHOT_COMPRESSION_LEVEL) {
        Ok(v) => Ok(v),
        Err(e) => Err(ReplicationError::SerializationError(e)),
    }
}

/// Decompresses a snapshot received from the master, refusing one that
/// would exceed 1 GiB.
pub fn decompress_snapshot_data(compressed: Vec<u8>) -> (r: Result<Vec<u8>, ReplicationError>)
    ensures
        match zstd_decompressed(compressed@, MAX_SNAPSHOT_BYTES) {
            Some(out) => r matches Ok(v) && v@ == out,
            None => r matches Err(ReplicationError::DeserializationError(_)),
        },
{
    match zstd_decompress(compressed.as_slice(), MAX_SNAPSHOT_BYTES) {
        Ok(v) => Ok(v),
        Err(e) => Err(ReplicationError::DeserializationError(e)),
    }
}

} // verus!
