//! The metric data providers and the combination of their series.
pub mod buienradar;
pub mod combined;
pub mod luchtmeetnet;
