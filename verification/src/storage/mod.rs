//! Storage: the hybrid engine's counters and routing, and the persistent layer's counters.
pub mod hybrid;
pub mod persistent;
pub mod routing;
