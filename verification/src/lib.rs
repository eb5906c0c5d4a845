//! Uptime monitoring: per-endpoint availability statistics, edge-triggered
//! notifications and the decision logic of the monitoring loop.
//!
//! Durations are whole seconds, response times whole microseconds, so that
//! every statistic is exact integer arithmetic.

pub mod metrics;
pub mod clock;
pub mod notifier;
pub mod store;
pub mod monitor;
pub mod history;
pub mod passes;
pub mod probe;

pub use metrics::Metrics;
pub use monitor::Monitor;
