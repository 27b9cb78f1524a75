//! Decisions of the asynchronous pipeline.
pub mod ingestion;
