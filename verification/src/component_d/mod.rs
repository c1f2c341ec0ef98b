//! Shared counts: the leaderboard and the comparison of its strategies.

pub mod domain_counts;
pub mod leaderboard;
pub mod sync_benchmark;

pub use leaderboard::{Leaderboard, SyncStrategy};
