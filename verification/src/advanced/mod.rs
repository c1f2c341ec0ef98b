//! Load generation and the dashboard.

pub mod cpu_load;
pub mod dashboard;
