//! Host-health snapshot library: the verified core of a small system monitor.
//!
//! The library owns the logic of the monitor: the per-interface network
//! throughput estimator with its history table, the snapshot assembler, and
//! the interface identity resolver. Reading the operating system's counters,
//! the HTTP surface and JSON serialization live outside the library and hand
//! it plain values.

pub mod identity;
pub mod model;
pub mod rates;
pub mod service;
