//! Messages of the replication protocol, with their status and error codes.
use vstd::prelude::*;
use crate::snapshot::SnapshotHeader;
use crate::clock::utc_now_or_epoch;

verus! {

/// The outcome an acknowledgment reports.
#[derive(Debug, Clone, Copy, PartialEq, Eq, Structural)]
pub enum AckStatus {
    Success,
    Failed,
    Partial,
}

/// Error codes of the replication protocol.
#[derive(Debug, Clone, Copy, PartialEq, Eq, Structural)]
pub enum ErrorCode {
    InvalidMessage,
    AuthenticationFailed,
    SequenceError,
    SnapshotCorrupted,
    WalCorrupted,
    InternalError,
    SlaveLimit,
    Timeout,
}

/// The text that describes each error code.
pub open spec fn error_text(c: ErrorCode) -> &'static str {
    match c {
        ErrorCode::InvalidMessage => "Invalid message format",
        ErrorCode::AuthenticationFailed => "Authentication failed",
        ErrorCode::SequenceError => "Sequence number out of order",
        ErrorCode::SnapshotCorrupted => "Snapshot data is corrupted",
        ErrorCode::WalCorrupted => "WAL entry is corrupted",
        ErrorCode::InternalError => "Internal server error",
        ErrorCode::SlaveLimit => "Maximum number of slaves exceeded",
        ErrorCode::Timeout => "Operation timed out",
    }
}

impl ErrorCode {
    /// A readable description of the error.
    pub fn description(&self) -> (r: &'static str)
        ensures
            r == error_text(*self),
    {
        match self {
            ErrorCode::InvalidMessage => "Invalid message format",
            ErrorCode::AuthenticationFailed => "Authentication failed",
            ErrorCode::SequenceError => "Sequence number out of order",
            ErrorCode::SnapshotCorrupted => "Snapshot data is corrupted",
            ErrorCode::WalCorrupted => "WAL entry is corrupted",
            ErrorCode::InternalError => "Internal server error",
            ErrorCode::SlaveLimit => "Maximum number of slaves exceeded",
            ErrorCode::Timeout => "Operation timed out",
        }
    }
}

/// A message between a master and a slave.
#[derive(Debug, Clone)]
pub enum ReplicationMessage {
    /// A slave asks to be brought up to date from `last_sequence`.
    SyncRequest { last_sequence: u64, slave_id: String },
    /// The master sends a whole snapshot, compressed.
    FullSync { header: SnapshotHeader, snapshot_data: Vec<u8> },
    /// The master sends log entries, each as its encoded bytes.
    IncrementalSync { entries: Vec<Vec<u8>> },
    /// Keeps the connection alive; the time is UTC seconds since the Unix
    /// epoch with the nanoseconds within the second.
    Heartbeat { timestamp: i64, timestamp_nanos: u32, current_sequence: u64 },
    Ack { sequence: u64, status: AckStatus },
    Error { code: ErrorCode, message: String },
    /// An administrator asks a slave to become the master.
    PromoteToMaster { auth_token: String },
    /// The master is shutting down.
    MasterShutdown { reason: String },
}

/// The name of a message's kind.
pub open spec fn kind_name(m: ReplicationMessage) -> &'static str {
    match m {
        ReplicationMessage::SyncRequest { .. } => "SyncRequest",
        ReplicationMessage::FullSync { .. } => "FullSync",
        ReplicationMessage::IncrementalSync { .. } => "IncrementalSync",
        ReplicationMessage::Heartbeat { .. } => "Heartbeat",
        ReplicationMessage::Ack { .. } => "Ack",
        ReplicationMessage::Error { .. } => "Error",
        ReplicationMessage::PromoteToMaster { .. } => "PromoteToMaster",
        ReplicationMessage::MasterShutdown { .. } => "MasterShutdown",
    }
}

/// Whether a message controls the connection rather than carrying data:
/// heartbeats, acknowledgments, errors, promotions and shutdowns.
pub open spec fn is_control(m: ReplicationMessage) -> bool {
    ||| m is Heartbeat
    ||| m is Ack
    ||| m is Error
    ||| m is PromoteToMaster
    ||| m is MasterShutdown
}

impl ReplicationMessage {
    /// The name of this message's kind.
    pub fn message_type(&self) -> (r: &'static str)
        ensures
            r == kind_name(*self),
    {
        match self {
            ReplicationMessage::SyncRequest { .. } => "SyncRequest",
            ReplicationMessage::FullSync { .. } => "FullSync",
            ReplicationMessage::IncrementalSync { .. } => "IncrementalSync",
            ReplicationMessage::Heartbeat { .. } => "Heartbeat",
            ReplicationMessage::Ack { .. } => "Ack",
            ReplicationMessage::Error { .. } => "Error",
            ReplicationMessage::PromoteToMaster { .. } => "PromoteToMaster",
            ReplicationMessage::MasterShutdown { .. } => "MasterShutdown",
        }
    }

    /// Whether this message controls the connection rather than carrying data.
    pub fn is_control_message(&self) -> (r: bool)
        ensures
            r == is_control(*self),
    {
        match self {
            ReplicationMessage::Heartbeat { .. } => true,
            ReplicationMessage::Ack { .. } => true,
            ReplicationMessage::Error { .. } => true,
            ReplicationMessage::PromoteToMaster { .. } => true,
            ReplicationMessage::MasterShutdown { .. } => true,
            _ => false,
        }
    }

    /// A heartbeat stamped with the current time.
    pub fn heartbeat(current_sequence: u64) -> (r: ReplicationMessage)
        ensures
            r matches ReplicationMessage::Heartbeat { current_sequence: s, .. } && s == current_sequence,
    {
        let (timestamp, timestamp_nanos) = utc_now_or_epoch();
        ReplicationMessage::Heartbeat { timestamp, timestamp_nanos, current_sequence }
    }

    /// An acknowledgment of success for `sequence`.
    pub fn ack_success(sequence: u64) -> (r: ReplicationMessage)
        ensures
            r == (ReplicationMessage::Ack { sequence, status: AckStatus::Success }),
    {
        ReplicationMessage::Ack { sequence, status: AckStatus::Success }
    }

    /// An acknowledgment of failure for `sequence`.
    pub fn ack_failed(sequence: u64) -> (r: ReplicationMessage)
        ensures
            r == (ReplicationMessage::Ack { sequence, status: AckStatus::Failed }),
    {
        ReplicationMessage::Ack { sequence, status: AckStatus::Failed }
    }

    /// An error message.
    pub fn error(code: ErrorCode, message: String) -> (r: ReplicationMessage)
        ensures
            r == (ReplicationMessage::Error { code, message }),
    {
        ReplicationMessage::Error { code, message }
    }
}

} // verus!
