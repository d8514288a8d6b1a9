//! Telemetry sampling and aggregation for an Apple Silicon performance monitor.
//!
//! Raw samples come from the platform's `powermetrics` utility; this library
//! frames its output, normalizes each sample into per-component metrics and
//! keeps the rolling statistics that a dashboard shows.
pub mod config;
pub mod io_stats;
pub mod memory;
pub mod metrics;
pub mod powermetrics;
pub mod session;
pub mod soc;
pub mod stats;
pub mod text;
pub mod thermal;
pub mod ui;
