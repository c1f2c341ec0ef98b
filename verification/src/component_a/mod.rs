//! The two ingestion pipelines, and the sensing side of the control loop.

pub mod async_pipeline;
pub mod processor;
pub mod sensor;
pub mod sync_manager;
pub mod threaded_pipeline;
pub mod transmitter;

pub use async_pipeline::AsyncPipelineStats;
pub use threaded_pipeline::ThreadedPipelineStats;
