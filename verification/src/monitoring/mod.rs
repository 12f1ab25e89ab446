//! Monitoring: logging, metrics and health.
pub mod logging;
pub mod metrics;
pub mod health;
