//! A reconciliation engine for migrating a music library between streaming
//! services: it normalizes exported track records into search queries,
//! disambiguates search candidates by artist identity, and groups matched
//! track identifiers into bounded batches for playlist mutation calls.
//!
//! The engine itself is pure: every network and file operation lives with the
//! caller, which hands the engine plain values (track records, search results,
//! per-batch outcomes) and receives plain values back.

pub mod batch;
pub mod catalog;
pub mod provider;
pub mod query;
pub mod report;
pub mod resolve;
pub mod text;

