//! Decisions of the thread-per-role pipeline.
pub mod ingestion;
