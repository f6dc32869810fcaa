//! What the manager tells about itself: deployments, container states and
//! container output, as events for a telemetry store.

pub mod events;
pub mod types;
