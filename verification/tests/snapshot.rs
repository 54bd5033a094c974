use pulse_orbit::snapshot::{
    build_disk_device, build_memory_metrics, max_disk_write, max_net_in, max_of, rate_samples,
    HistoryMetric,
};
use pulse_orbit::types::{DiskDevice, DiskMetrics, MemoryPressure, NetworkInterface, NetworkMetrics};

fn device(name: &str, read: u64, write: u64) -> DiskDevice {
    DiskDevice {
        name: name.to_string(),
        read_bytes_per_sec: read,
        write_bytes_per_sec: write,
        total_bytes: 0,
        used_bytes: 0,
    }
}

fn interface(name: &str, rx: u64, tx: u64) -> NetworkInterface {
    NetworkInterface {
        name: name.to_string(),
        rx_bytes_per_sec: rx,
        tx_bytes_per_sec: tx,
        total_rx_bytes: 0,
        total_tx_bytes: 0,
    }
}

#[test]
fn memory_metrics_carry_sizes_and_pressure() {
    let m = build_memory_metrics(8, 16, 1, 2, Some(2));
    assert_eq!((m.used_bytes, m.total_bytes, m.swap_used_bytes, m.swap_total_bytes), (8, 16, 1, 2));
    assert_eq!(m.pressure, MemoryPressure::Warn);
    assert_eq!(build_memory_metrics(0, 0, 0, 0, None).pressure, MemoryPressure::Normal);
}

#[test]
fn disk_device_used_is_total_less_available() {
    let d = build_disk_device("disk1".to_string(), 5, 6, 256_000_000_000, 128_000_000_000);
    assert_eq!(d.used_bytes, 128_000_000_000);
    assert!(d.used_bytes <= d.total_bytes);
    assert_eq!(d.name, "disk1");
    assert_eq!((d.read_bytes_per_sec, d.write_bytes_per_sec), (5, 6));
}

#[test]
fn max_of_integers() {
    assert_eq!(max_of(&vec![]), 0);
    assert_eq!(max_of(&vec![42]), 42);
    assert_eq!(max_of(&vec![3, 7, 1, 5]), 7);
    assert_eq!(max_of(&vec![4, 4, 4]), 4);
}

#[test]
fn maxima_over_devices_and_interfaces() {
    let disk = DiskMetrics { devices: vec![device("disk0", 9, 1_048_576), device("disk1", 1, 2 * 1_048_576)] };
    assert_eq!(max_disk_write(&disk), 2 * 1_048_576);
    let net = NetworkMetrics { interfaces: vec![interface("en0", 10, 99), interface("en1", 30, 1)] };
    assert_eq!(max_net_in(&net), 30);
    assert_eq!(max_disk_write(&DiskMetrics { devices: vec![] }), 0);
    assert_eq!(max_net_in(&NetworkMetrics { interfaces: vec![] }), 0);
}

#[test]
fn history_metric_names() {
    let names: Vec<&str> = [
        HistoryMetric::Cpu,
        HistoryMetric::Memory,
        HistoryMetric::DiskRead,
        HistoryMetric::DiskWrite,
        HistoryMetric::NetIn,
        HistoryMetric::NetOut,
    ]
    .iter()
    .map(|m| m.name())
    .collect();
    assert_eq!(names, vec!["cpu", "memory", "disk_read", "disk_write", "net_in", "net_out"]);
}

#[test]
fn rate_samples_per_device_then_per_interface() {
    let disk = DiskMetrics { devices: vec![device("disk0", 1, 2)] };
    let net = NetworkMetrics { interfaces: vec![interface("en0", 3, 4), interface("lo0", 5, 6)] };
    let s = rate_samples(&disk, &net);
    let got: Vec<(HistoryMetric, &str, u64)> =
        s.iter().map(|x| (x.metric, x.interface.as_str(), x.bytes_per_sec)).collect();
    assert_eq!(
        got,
        vec![
            (HistoryMetric::DiskRead, "disk0", 1),
            (HistoryMetric::DiskWrite, "disk0", 2),
            (HistoryMetric::NetIn, "en0", 3),
            (HistoryMetric::NetOut, "en0", 4),
            (HistoryMetric::NetIn, "lo0", 5),
            (HistoryMetric::NetOut, "lo0", 6),
        ]
    );
}
