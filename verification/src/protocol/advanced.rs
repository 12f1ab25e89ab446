//! Requests and responses of backups, replication administration, key
//! management and aggregation. Times are UTC; JSON values are documents'
//! values.
use vstd::prelude::*;
use crate::clock::UtcTime;
use crate::document::Value;

verus! {

/// Asks for a backup up to a log sequence (`None`: the current one).
#[derive(Debug, Clone)]
pub struct CreateBackupRequest {
    pub wal_sequence: Option<u64>,
    pub compress: bool,
}

/// A backup that was made.
#[derive(Debug, Clone)]
pub struct BackupInfo {
    pub backup_id: String,
    pub created_at: UtcTime,
    pub wal_sequence: u64,
    pub size_bytes: u64,
    pub compressed: bool,
    pub file_path: String,
}

/// Asks to restore a backup, named by identifier or path.
#[derive(Debug, Clone)]
pub struct RestoreBackupRequest {
    pub backup_id: String,
}

/// Asks to delete a backup.
#[derive(Debug, Clone)]
pub struct DeleteBackupRequest {
    pub backup_id: String,
}

/// Asks to recover the state at `target_time` from a backup and the log.
#[derive(Debug, Clone)]
pub struct PointInTimeRecoverRequest {
    pub target_time: UtcTime,
    pub backup_id: String,
    pub wal_directory: String,
}

/// Asks a master to take a slave (`slave_id`: `None` to have one made).
#[derive(Debug, Clone)]
pub struct AddSlaveRequest {
    pub slave_address: String,
    pub slave_id: Option<String>,
}

/// Asks a master to drop a slave.
#[derive(Debug, Clone)]
pub struct RemoveSlaveRequest {
    pub slave_id: String,
}

/// One slave as the master sees it.
#[derive(Debug, Clone)]
pub struct SlaveInfo {
    pub slave_id: String,
    pub address: String,
    pub last_ack_sequence: u64,
    pub connected: bool,
    pub connected_at: Option<UtcTime>,
}

/// The state of replication: the role (`master` or `slave`), the slaves,
/// the lag in bytes and whether all is well.
#[derive(Debug, Clone)]
pub struct ReplicationStatusResponse {
    pub role: String,
    pub slaves: Vec<SlaveInfo>,
    pub lag_bytes: u64,
    pub healthy: bool,
}

/// Asks for a new encryption key.
#[derive(Debug, Clone)]
pub struct CreateKeyRequest {
    pub key_id: String,
}

/// Asks to rotate a key.
#[derive(Debug, Clone)]
pub struct RotateKeyRequest {
    pub key_id: String,
}

/// Asks to export a key.
#[derive(Debug, Clone)]
pub struct ExportKeyRequest {
    pub key_id: String,
}

/// An exported key, encrypted and hex-encoded.
#[derive(Debug, Clone)]
pub struct ExportKeyResponse {
    pub key_id: String,
    pub encrypted_data: String,
}

/// Asks to import an exported key.
#[derive(Debug, Clone)]
pub struct ImportKeyRequest {
    pub encrypted_data: String,
}

/// Asks for the metadata of a key.
#[derive(Debug, Clone)]
pub struct GetKeyMetadataRequest {
    pub key_id: String,
}

/// The metadata of an encryption key.
#[derive(Debug, Clone)]
pub struct EncryptionKeyMetadata {
    pub key_id: String,
    pub version: u32,
    /// `AES-256-GCM` or `ChaCha20-Poly1305`.
    pub algorithm: String,
    pub created_at: UtcTime,
    pub expires_at: Option<UtcTime>,
    pub is_active: bool,
}

/// The answer to [`GetKeyMetadataRequest`].
pub type KeyMetadataResponse = EncryptionKeyMetadata;

/// Asks to run an aggregation pipeline on a collection.
#[derive(Debug)]
pub struct AggregateRequest {
    pub collection: String,
    pub pipeline: Vec<Value>,
}

/// The documents an aggregation gave.
#[derive(Debug)]
pub struct AggregateResponse {
    pub results: Vec<Value>,
    pub count: usize,
}

/// Asks for the keys due for rotation within a period of days.
#[derive(Debug, Clone)]
pub struct GetKeysExpiringRequest {
    pub rotation_days: u32,
}

/// A key due for rotation.
#[derive(Debug, Clone)]
pub struct ExpiringKeyInfo {
    pub key_id: String,
    pub days_remaining: i64,
    pub last_rotated: UtcTime,
    pub created_at: UtcTime,
}

/// The keys due for rotation.
#[derive(Debug, Clone)]
pub struct GetKeysExpiringResponse {
    pub expiring_keys: Vec<ExpiringKeyInfo>,
}

/// All encryption keys.
#[derive(Debug, Clone)]
pub struct ListKeysResponse {
    pub keys: Vec<KeyMetadataResponse>,
}

} // verus!
