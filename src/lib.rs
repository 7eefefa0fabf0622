//! Span correlation and time-windowed trace batching for an in-process
//! trace exporter.

pub mod span;
pub mod correlation;
pub mod registry;
pub mod batcher;
pub mod config;
