//! Metric payload types shared by the collector, the history writer and the
//! alert checker.
use vstd::prelude::*;

verus! {

/// Kind of a logical CPU core on Apple Silicon.
#[derive(Clone, Copy, Debug, PartialEq, Eq, Structural)]
pub enum CoreType {
    Efficiency,
    Performance,
    Unknown,
}

/// macOS memory pressure as reported by the kernel.
#[derive(Clone, Copy, Debug, PartialEq, Eq, Structural)]
pub enum MemoryPressure {
    Normal,
    Warn,
    Critical,
}

/// RAM and swap usage together with the memory pressure.
#[derive(Clone, Copy, Debug)]
pub struct MemoryMetrics {
    pub used_bytes: u64,
    pub total_bytes: u64,
    pub swap_used_bytes: u64,
    pub swap_total_bytes: u64,
    pub pressure: MemoryPressure,
}

/// Per-device disk throughput and capacity.
#[derive(Clone, Debug)]
pub struct DiskDevice {
    pub name: String,
    pub read_bytes_per_sec: u64,
    pub write_bytes_per_sec: u64,
    pub total_bytes: u64,
    pub used_bytes: u64,
}

/// All disk devices of one snapshot.
#[derive(Clone, Debug)]
pub struct DiskMetrics {
    pub devices: Vec<DiskDevice>,
}

/// Per-interface network rates and cumulative totals.
#[derive(Clone, Debug)]
pub struct NetworkInterface {
    pub name: String,
    pub rx_bytes_per_sec: u64,
    pub tx_bytes_per_sec: u64,
    pub total_rx_bytes: u64,
    pub total_tx_bytes: u64,
}

/// All network interfaces of one snapshot.
#[derive(Clone, Debug)]
pub struct NetworkMetrics {
    pub interfaces: Vec<NetworkInterface>,
}

/// Size and location of the history database.
#[derive(Clone, Debug)]
pub struct DbInfo {
    pub row_count: u64,
    pub file_size_bytes: u64,
    pub path: String,
}

/// Cumulative network bytes of one process.
#[derive(Clone, Copy, Debug)]
pub struct ProcessNetUsage {
    pub rx_bytes: u64,
    pub tx_bytes: u64,
}

} // verus!
