//! Counters of the persistent layer.
use vstd::prelude::*;

verus! {

/// Size of the persistent store.
#[derive(Debug, Clone, Copy, PartialEq, Eq, Structural)]
pub struct StorageStats {
    /// Number of keys stored.
    pub num_keys: u64,
    /// Total size in bytes.
    pub total_size_bytes: u64,
}

} // verus!
