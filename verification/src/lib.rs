//! Chain-health monitoring: fork detection over a rolling window of block
//! headers and percentile statistics over a rolling window of gas prices.

pub mod blockchain;
pub mod error;
pub mod exporter;
pub mod fork_detector;
pub mod fork_laws;
pub mod gas_laws;
pub mod gas_oracle;
pub mod header;
pub mod metrics;
pub mod monitor_laws;
