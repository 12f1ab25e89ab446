//! Point-in-time snapshots: the file format's records and checks.
pub mod format;
pub mod image;

pub use format::{SnapshotHeader, SnapshotMetadata, CollectionHeader, SnapshotFooter, SnapshotError, ChecksumAlgo, SNAPSHOT_VERSION, SNAPSHOT_VERSION_V1};
