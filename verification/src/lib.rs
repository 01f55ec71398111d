//! Background compaction for segmented full-text search indexes, together
//! with the sandbox crypto operations and the module registry rules.

pub mod config;
pub mod segment;
pub mod selector;
pub mod merger;
pub mod index;
pub mod metrics;
pub mod coordinator;
pub mod laws;
pub mod crypto_primitives;
pub mod crypto;
pub mod modules;
