//! Killmail ingestion and statistics library.
//!
//! Normalizes killmail payloads from a remote metadata API into a relational
//! store model with at-most-once insert semantics under bounded retry, and
//! aggregates per-character kill/loss statistics from the stored rows.

pub mod api;
pub mod client;
pub mod database;
pub mod entity;
pub mod esi;
pub mod esi_models;
pub mod feed;
pub mod jager_redis;
pub mod killmail_processing;
pub mod organization_processing;
pub mod retry;
pub mod stats_processing;
pub mod strutil;
pub mod zkill;
