//! Verified core of the goblin metrics tools: log-line decoding, `/proc` text parsing,
//! ingestion bookkeeping, and the request-statistics query planning of the web UI.

pub mod api;
pub mod collectors;
pub mod ingest;
pub mod number;
pub mod parser;
pub mod responses;
pub mod sql;
pub mod text;
