//! Telemetry device simulator: the per-device buffering and dispatch pipeline.
//!
//! Events from two producers (log lines and sensor readings) are buffered in a
//! bounded queue, drained periodically, ordered by priority tier and cut down
//! to a maximum batch size before delivery.

pub mod event;
pub mod batch;
pub mod queue;
pub mod config;
pub mod device;
