use pulse_orbit::iokit::{io_counter, kIOMainPortDefault, latest_utilization, utilization_from_keys};

#[test]
fn main_port_is_default() {
    assert_eq!(kIOMainPortDefault(), 0);
}

#[test]
fn io_counter_values() {
    assert_eq!(io_counter(Some(12345)), 12345);
    assert_eq!(io_counter(None), 0);
    assert_eq!(io_counter(Some(-1)), u64::MAX);
}

#[test]
fn first_present_key_gives_utilization() {
    assert_eq!(utilization_from_keys(&vec![None, Some(37), Some(90)]), Some(37));
    assert_eq!(utilization_from_keys(&vec![None, None]), None);
}

#[test]
fn last_service_reading_wins() {
    assert_eq!(latest_utilization(&vec![Some(10), None, Some(20), None]), Some(20));
    assert_eq!(latest_utilization(&vec![]), None);
}
