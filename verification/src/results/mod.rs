//! Scan results: errors, result types and statistics.

pub mod error;
pub mod types;
pub mod generator;
