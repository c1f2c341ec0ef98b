//! Priority scheduling: human edits before bot edits.

pub mod packet_channel;
pub mod priority_scheduler;

pub use priority_scheduler::{PriorityScheduler, QUEUE_DEPTH};
