use pulse_orbit::alerts::{
    enabled_from_column, enabled_to_column, metric_type_label, whole_secs_elapsed, AlertGate,
    NANOS_PER_SEC,
};

const S: u64 = NANOS_PER_SEC;

#[test]
fn labels_for_known_metric_types() {
    assert_eq!(metric_type_label("cpu"), "CPU");
    assert_eq!(metric_type_label("memory"), "Memory");
    assert_eq!(metric_type_label("disk_write"), "Disk Write");
    assert_eq!(metric_type_label("disk_read"), "Disk Read");
    assert_eq!(metric_type_label("net_in"), "Network In");
    assert_eq!(metric_type_label("net_out"), "Network Out");
    assert_eq!(metric_type_label("gpu"), "gpu");
    assert_eq!(metric_type_label("CPU"), "CPU");
}

#[test]
fn whole_seconds_truncate_and_saturate() {
    assert_eq!(whole_secs_elapsed(0, 59 * S + S - 1), 59);
    assert_eq!(whole_secs_elapsed(S, 61 * S), 60);
    assert_eq!(whole_secs_elapsed(10 * S, 5 * S), 0);
}

#[test]
fn alert_fires_once_then_waits_for_cooldown() {
    let mut gate = AlertGate::new(0);
    gate.load_rule("cpu", true, 300);
    assert!(gate.check("cpu", true, 10 * S));
    assert!(!gate.check("cpu", true, 11 * S));
    assert!(!gate.check("cpu", true, 10 * S + 300 * S - 1));
    assert!(gate.check("cpu", true, 10 * S + 300 * S));
}

#[test]
fn no_alert_without_breach_rule_or_enabled() {
    let mut gate = AlertGate::new(0);
    gate.load_rule("memory", false, 0);
    assert!(!gate.check("memory", true, S));
    assert!(!gate.check("net_in", true, S));
    gate.load_rule("disk_write", true, 0);
    assert!(!gate.check("disk_write", false, S));
    assert!(gate.check("disk_write", true, S));
    assert!(gate.check("disk_write", true, S));
}

#[test]
fn reload_keeps_cooldown_running() {
    let mut gate = AlertGate::new(0);
    gate.load_rule("cpu", true, 60);
    assert!(gate.check("cpu", true, 100 * S));
    gate.load_rule("cpu", true, 60);
    assert!(!gate.check("cpu", true, 120 * S));
    gate.load_rule("cpu", true, 10);
    assert!(gate.check("cpu", true, 120 * S));
}

#[test]
fn thresholds_reload_every_minute() {
    let mut gate = AlertGate::new(5 * S);
    assert!(!gate.reload_due(64 * S));
    assert!(gate.reload_due(65 * S));
    gate.mark_reloaded(65 * S);
    assert!(!gate.reload_due(100 * S));
}

#[test]
fn enabled_column_round_trip() {
    assert_eq!(enabled_to_column(true), 1);
    assert_eq!(enabled_to_column(false), 0);
    assert!(enabled_from_column(1));
    assert!(enabled_from_column(-3));
    assert!(!enabled_from_column(0));
    for b in [true, false] {
        assert_eq!(enabled_from_column(enabled_to_column(b)), b);
    }
}

#[test]
fn alerts_of_different_metrics_are_independent() {
    let mut gate = AlertGate::new(0);
    gate.load_rule("cpu", true, 300);
    gate.load_rule("memory", true, 300);
    assert!(gate.check("cpu", true, 10 * S));
    assert!(gate.check("memory", true, 11 * S));
    assert!(!gate.check("cpu", true, 12 * S));
}
