//! Real-time monitoring engine for the Wikipedia recent-changes stream.
//!
//! The crate holds the decisions of the engine: how a raw event becomes a
//! packet, in which order packets are served, what is counted, when the
//! engine degrades and recovers, when the network is reset. Time enters as
//! plain numbers: nanoseconds of a monotonic clock, or milliseconds since the
//! Unix epoch where the wall clock is meant. Threads, sockets and locks stay
//! with the program around it.

pub mod advanced;
pub mod alloc_counter;
pub mod component_a;
pub mod component_b;
pub mod component_c;
pub mod component_d;
pub mod component_e;
pub mod control;
pub mod event_log;
pub mod ingestion;
pub mod metrics;
pub mod random;
pub mod ratio;
pub mod run_plan;
pub mod sorting;
pub mod stats;
pub mod text;
pub mod types;
