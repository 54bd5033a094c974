use pulse_orbit::types::{CoreType, DiskDevice, MemoryMetrics, MemoryPressure, NetworkInterface};

// --- DiskDevice field access ---

#[test]
fn disk_device_read_write_bytes_are_independent() {
    let dev = DiskDevice {
        name: "disk0".into(),
        read_bytes_per_sec: 1_000_000,
        write_bytes_per_sec: 500_000,
        total_bytes: 500_000_000_000,
        used_bytes: 100_000_000_000,
    };
    assert_eq!(dev.read_bytes_per_sec, 1_000_000);
    assert_eq!(dev.write_bytes_per_sec, 500_000);
    assert_eq!(dev.name, "disk0");
}

#[test]
fn disk_used_never_exceeds_total() {
    let dev = DiskDevice {
        name: "disk1".into(),
        read_bytes_per_sec: 0,
        write_bytes_per_sec: 0,
        total_bytes: 256_000_000_000,
        used_bytes: 128_000_000_000,
    };
    assert!(dev.used_bytes <= dev.total_bytes);
}

// --- NetworkInterface field access ---

#[test]
fn network_interface_rx_tx_are_independent() {
    let iface = NetworkInterface {
        name: "en0".into(),
        rx_bytes_per_sec: 2_097_152,
        tx_bytes_per_sec: 524_288,
        total_rx_bytes: 1_000_000_000,
        total_tx_bytes: 500_000_000,
    };
    assert_eq!(iface.rx_bytes_per_sec, 2_097_152);
    assert_eq!(iface.tx_bytes_per_sec, 524_288);
    assert_eq!(iface.name, "en0");
}

// --- MemoryMetrics usage ratio ---

#[test]
fn memory_used_fraction_is_correct() {
    let mem = MemoryMetrics {
        used_bytes: 8_589_934_592,   // 8 GB
        total_bytes: 17_179_869_184, // 16 GB
        swap_used_bytes: 0,
        swap_total_bytes: 0,
        pressure: MemoryPressure::Normal,
    };
    let fraction = mem.used_bytes as f64 / mem.total_bytes as f64;
    assert!(
        (fraction - 0.5).abs() < 1e-9,
        "8/16 GB = 50%, got {fraction}"
    );
}

#[test]
fn memory_pressure_variants_are_distinct() {
    // Verify pattern matching exhausts all variants without compile error
    let pressures = [
        MemoryPressure::Normal,
        MemoryPressure::Warn,
        MemoryPressure::Critical,
    ];
    let labels: Vec<&str> = pressures
        .iter()
        .map(|p| match p {
            MemoryPressure::Normal => "normal",
            MemoryPressure::Warn => "warn",
            MemoryPressure::Critical => "critical",
        })
        .collect();
    assert_eq!(labels, vec!["normal", "warn", "critical"]);
}

// --- CoreType variants ---

#[test]
fn core_type_variants_map_correctly() {
    let core_types = [
        CoreType::Efficiency,
        CoreType::Performance,
        CoreType::Unknown,
    ];
    let labels: Vec<&str> = core_types
        .iter()
        .map(|ct| match ct {
            CoreType::Efficiency => "efficiency",
            CoreType::Performance => "performance",
            CoreType::Unknown => "unknown",
        })
        .collect();
    assert_eq!(labels, vec!["efficiency", "performance", "unknown"]);
}
