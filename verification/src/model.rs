//! Plain-value data model: what the collector reads from the OS metrics
//! source and what a snapshot holds.
//!
//! Quantities that the OS reports as fractional are carried as scaled
//! integers: CPU load and temperatures in hundredths (a load of `2537` means
//! 25.37%), wall-clock time as milliseconds since the Unix epoch.

use vstd::prelude::*;

verus! {

/// One per-core CPU reading: brand string, frequency in MHz, and load in
/// hundredths of a percent (`0..=10000` covers 0% to 100%).
pub struct CpuReading {
    pub brand: String,
    pub frequency: u64,
    pub usage_centi: u32,
}

/// One hardware sensor reading: its label and a temperature in hundredths of
/// a degree Celsius.
pub struct ComponentReading {
    pub label: String,
    pub temperature_centi: i64,
}

/// One mounted volume as the OS reports it. Used space is not read from the
/// OS; the collector computes it from these two capacities.
pub struct DiskReading {
    pub name: String,
    pub mount_point: String,
    pub total_space: u64,
    pub available_space: u64,
    pub file_system: String,
}

/// One network interface's cumulative counters as the OS reports them.
pub struct NetReading {
    pub interface: String,
    pub received_bytes: u64,
    pub transmitted_bytes: u64,
    pub received_packets: u64,
    pub transmitted_packets: u64,
}

/// One full point-in-time reading of the OS metrics source, as plain values.
///
/// `monotonic_ms` is a monotonic clock at the moment of the reading, in
/// milliseconds; it is the time base of the rate estimator. `system_time_ms`
/// is the wall clock in milliseconds since the Unix epoch. A field the OS
/// cannot supply arrives empty (strings), zero (counters), or simply absent
/// from the `components` list; the snapshot is still assembled in full.
pub struct OsReading {
    pub hostname: String,
    pub os_type: String,
    pub os_version: String,
    pub kernel_version: String,
    pub system_time_ms: i64,
    pub monotonic_ms: u64,
    pub uptime: u64,
    pub cpus: Vec<CpuReading>,
    pub components: Vec<ComponentReading>,
    pub memory_total: u64,
    pub memory_used: u64,
    pub memory_free: u64,
    pub swap_total: u64,
    pub swap_used: u64,
    pub disks: Vec<DiskReading>,
    pub networks: Vec<NetReading>,
}

/// One per-volume record of a snapshot.
pub struct DiskInfo {
    pub name: String,
    pub mount_point: String,
    pub total_space: u64,
    pub used_space: u64,
    pub available_space: u64,
    pub file_system: String,
}

/// One per-interface record of a snapshot: identity, cumulative counters,
/// and the derived instantaneous rates in whole bytes per second.
pub struct NetworkInfo {
    pub interface: String,
    pub ip_addresses: Vec<String>,
    pub mac_address: Option<String>,
    pub received_bytes: u64,
    pub transmitted_bytes: u64,
    pub received_packets: u64,
    pub transmitted_packets: u64,
    pub rx_speed: u64,
    pub tx_speed: u64,
}

/// One complete host-health snapshot.
pub struct SystemInfo {
    pub hostname: String,
    pub os_type: String,
    pub os_version: String,
    pub kernel_version: String,
    pub system_time_ms: i64,
    pub uptime: u64,
    pub cpu_model: String,
    pub cpu_cores: usize,
    pub cpu_usage_centi: u32,
    pub cpu_frequency: u64,
    pub cpu_temperature_centi: Option<i64>,
    pub memory_total: u64,
    pub memory_used: u64,
    pub memory_free: u64,
    pub swap_total: u64,
    pub swap_used: u64,
    pub disks: Vec<DiskInfo>,
    pub networks: Vec<NetworkInfo>,
}

} // verus!
