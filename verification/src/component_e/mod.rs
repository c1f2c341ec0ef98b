//! Fault tolerance: fail-safe modes and the network watchdog.

pub mod fail_safe;
pub mod watchdog;

pub use fail_safe::FailSafe;
pub use watchdog::{Watchdog, WATCHDOG_TIMEOUT_MS};
