//! Ingestion and lookup of vendor-published CPU specification sheets.
//!
//! Raw CSV-like lines are split by a quote-aware dialect parser,
//! normalized field by field into typed records, and materialized into a
//! local SQLite store; fuzzy keyword lookups against that store recover
//! the records.

pub mod cpu;
pub mod dialect;
pub mod gpu;
pub mod normalize;
pub mod os;
pub mod store;
pub mod text;
