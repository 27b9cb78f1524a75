//! Verified core of a real-time Wikipedia recent-changes pipeline.
//!
//! Time is represented throughout the library as microsecond timestamps on the
//! pipeline's monotonic clock (`u64`); the executable around the library reads
//! the clock and hands the readings in.
pub mod allocator;
pub mod async_pipeline;
pub mod backoff;
pub mod compare;
pub mod event;
pub mod failsafe;
pub mod jitter_baseline;
pub mod leaderboard;
pub mod metrics;
pub mod mock_stream;
pub mod ranking;
pub mod ring;
pub mod schedule;
pub mod state;
pub mod stress;
pub mod threaded_pipeline;
pub mod types;
