//! A currency conversion library: exchange rates fetched from several
//! independent sources are aggregated concurrently, reduced to exact decimal
//! statistics, and applied to an amount.
//!
//! The crate verifies the pure core of the pipeline: decimal arithmetic,
//! statistics (mean and variance), the aggregation state machine with its
//! progress counter, amount and currency parsing, and the provider registry.
//! Network transport, JSON wire formats and floating-point presentation live
//! in the surrounding application.

pub mod aggregate;
pub mod amount;
pub mod convert;
pub mod currency;
pub mod decimal;
pub mod progress;
pub mod providers;
pub mod stats;
pub mod words;
