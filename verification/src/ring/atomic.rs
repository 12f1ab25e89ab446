//! A 64-bit atomic counter used for ring indices shared between threads.
use vstd::prelude::*;
use std::sync::atomic::AtomicU64;
use std::sync::atomic::Ordering;

verus! {

/// A 64-bit atomic counter.
///
/// Verus gives the standard atomic operations no contract on the values
/// they read or write, so none of these methods states one.
pub struct AlignedAtomicU64(pub AtomicU64);

impl AlignedAtomicU64 {
    pub fn new(val: u64) -> Self {
        AlignedAtomicU64(AtomicU64::new(val))
    }

    pub fn load(&self, order: Ordering) -> u64 {
        self.0.load(order)
    }

    pub fn store(&self, val: u64, order: Ordering) {
        self.0.store(val, order)
    }

    pub fn fetch_add(&self, val: u64, order: Ordering) -> u64 {
        self.0.fetch_add(val, order)
    }

    pub fn compare_exchange_weak(&self, current: u64, new: u64, success: Ordering, failure: Ordering) -> Result<u64, u64> {
        self.0.compare_exchange_weak(current, new, success, failure)
    }
}

} // verus!
