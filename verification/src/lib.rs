//! The core of a document database: documents and their values, schemas
//! and validation, queries (parsing, planning, index selection and
//! execution), the binary command protocol and its first-version
//! compatibility layer, lock-free ring buffers, publish/subscribe
//! messaging, client sessions, snapshots, replication decisions, the hybrid
//! storage engine's routing, and monitoring records.
pub mod util;
pub mod clock;
pub mod sorted_map;
pub mod document;
pub mod regex_match;
pub mod schema;
pub mod query;
pub mod protocol;
pub mod ring;
pub mod pubsub;
pub mod session;
pub mod snapshot;
pub mod replication;
pub mod monitoring;
pub mod storage;
