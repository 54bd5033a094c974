use std::collections::HashMap;

use pulse_orbit::counters::{
    counter_delta, disk_throughput, interface_deltas, matching_throughput, process_net_delta,
    retain_active, CounterReading, NamedCounters,
};
use pulse_orbit::types::ProcessNetUsage;

fn reading(name: &str, first: u64, second: u64) -> CounterReading {
    CounterReading { name: name.to_string(), first, second }
}

#[test]
fn delta_saturates_at_zero() {
    assert_eq!(counter_delta((100, 50), (150, 40)), (50, 0));
    assert_eq!(counter_delta((7, 7), (7, 7)), (0, 0));
}

#[test]
fn named_counters_store_and_replace() {
    let mut c = NamedCounters::new();
    assert_eq!(c.get("en0"), None);
    c.insert("en0", (1, 2));
    c.insert("en1", (3, 4));
    c.insert("en0", (5, 6));
    assert_eq!(c.get("en0"), Some((5, 6)));
    assert_eq!(c.get("en1"), Some((3, 4)));
    assert_eq!(c.get("en2"), None);
}

#[test]
fn first_interface_reading_moves_nothing() {
    let mut baselines = NamedCounters::new();
    let first = interface_deltas(&mut baselines, &vec![reading("en0", 1000, 500)]);
    assert_eq!(first, vec![(0, 0)]);
    let second = interface_deltas(
        &mut baselines,
        &vec![reading("en0", 3000, 700), reading("lo0", 10, 10)],
    );
    assert_eq!(second, vec![(2000, 200), (0, 0)]);
    assert_eq!(baselines.get("en0"), Some((3000, 700)));
    assert_eq!(baselines.get("lo0"), Some((10, 10)));
}

#[test]
fn advance_reports_movement_since_baseline() {
    let mut c = NamedCounters::new();
    assert_eq!(c.advance("disk0", (10, 20)), (0, 0));
    assert_eq!(c.advance("disk0", (15, 19)), (5, 0));
    assert_eq!(c.get("disk0"), Some((15, 19)));
}

#[test]
fn disk_throughput_only_for_devices_seen_before() {
    let mut previous = NamedCounters::new();
    previous.insert("disk0", (1_000, 2_000));
    let current = vec![reading("disk0", 4_000, 2_500), reading("disk4", 10, 10)];
    let t = disk_throughput(&previous, &current);
    assert_eq!(t.len(), 1);
    assert_eq!(t[0].name, "disk0");
    assert_eq!((t[0].first, t[0].second), (3_000, 500));
}

#[test]
fn disk_names_match_by_containment_first_wins() {
    let t = vec![reading("disk3", 1, 2), reading("disk0", 30, 40), reading("disk0s1", 50, 60)];
    assert_eq!(matching_throughput("disk0s1", &t), (30, 40));
    assert_eq!(matching_throughput("disk", &t), (1, 2));
    assert_eq!(matching_throughput("Macintosh HD", &t), (0, 0));
    assert_eq!(matching_throughput("disk0", &vec![]), (0, 0));
}

#[test]
fn process_delta_uses_baseline_and_skips_unreadable() {
    let mut b: HashMap<u32, (u64, u64)> = HashMap::new();
    let u = |rx, tx| Some(ProcessNetUsage { rx_bytes: rx, tx_bytes: tx });
    assert_eq!(process_net_delta(&mut b, 42, u(100, 10)), (0, 0));
    assert_eq!(process_net_delta(&mut b, 42, u(160, 15)), (60, 5));
    assert_eq!(process_net_delta(&mut b, 7, None), (0, 0));
    assert_eq!(b.len(), 1);
    assert_eq!(b.get(&42), Some(&(160, 15)));
}

#[test]
fn inactive_process_baselines_are_dropped() {
    let mut b: HashMap<u32, (u64, u64)> = HashMap::new();
    b.insert(1, (1, 1));
    b.insert(2, (2, 2));
    b.insert(3, (3, 3));
    retain_active(&mut b, &vec![3, 1, 99]);
    assert_eq!(b.len(), 2);
    assert_eq!(b.get(&1), Some(&(1, 1)));
    assert_eq!(b.get(&3), Some(&(3, 3)));
    assert_eq!(b.get(&2), None);
}
