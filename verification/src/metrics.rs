//! Metrics built from audit records.

pub mod aggregator;
