//! The hot path: what happens to each packet, and its deadline. The actuation
//! side of the control loop.

pub mod actuator;
pub mod controller;
pub mod hot_path;
pub mod receiver;
pub mod zero_copy_parser;

pub use hot_path::{HotPathProcessor, HOT_DEADLINE};
pub use zero_copy_parser::parse_zero_copy;
