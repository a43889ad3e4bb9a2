//! Telemetry transmission core: line-protocol formatting, batching with
//! size and time thresholds, the offline queue's order and file format,
//! token caching, reconnection backoff, the streaming protocol's
//! acknowledgment rules, and the orchestration step that ties them together.
//! A few helpers of the screen-recording side (segment timing, settings)
//! live here too.

pub mod auth;
pub mod batch;
pub mod bridge;
pub mod clock;
pub mod codec;
pub mod config;
pub mod formatter;
pub mod manager;
pub mod protocol;
pub mod queue;
pub mod recording;
pub mod text;
pub mod timeline;
pub mod types;
