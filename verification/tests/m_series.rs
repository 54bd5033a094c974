use pulse_orbit::m_series::{
    c_text, core_type_for, core_types, detect_core_topology, memory_pressure_level,
    pressure_from_level, sysctl_u32_reading, CoreTopology,
};
use pulse_orbit::types::{CoreType, MemoryPressure};

#[test]
fn apple_silicon_topology_is_detected() {
    let brand = b"Apple M2 Pro\0";
    let topo = detect_core_topology(Some(&brand[..]), Some(8), Some(4)).expect("topology");
    assert_eq!(topo.efficiency_count, 4);
    assert_eq!(topo.performance_count, 8);
}

#[test]
fn intel_brand_has_no_topology() {
    let brand = b"Intel(R) Core(TM) i9-9880H CPU @ 2.30GHz\0";
    assert!(detect_core_topology(Some(&brand[..]), Some(8), Some(4)).is_none());
}

#[test]
fn brand_after_nul_is_ignored() {
    let brand = b"Intel\0Apple";
    assert!(detect_core_topology(Some(&brand[..]), Some(8), Some(4)).is_none());
}

#[test]
fn brand_without_nul_has_no_topology() {
    let brand = b"Apple M1";
    assert!(detect_core_topology(Some(&brand[..]), Some(4), Some(4)).is_none());
}

#[test]
fn zero_or_missing_core_counts_have_no_topology() {
    let brand = b"Apple M1\0";
    assert!(detect_core_topology(Some(&brand[..]), Some(0), Some(4)).is_none());
    assert!(detect_core_topology(Some(&brand[..]), Some(4), Some(0)).is_none());
    assert!(detect_core_topology(Some(&brand[..]), None, Some(4)).is_none());
    assert!(detect_core_topology(Some(&brand[..]), Some(4), None).is_none());
    assert!(detect_core_topology(None, Some(4), Some(4)).is_none());
}

#[test]
fn c_text_stops_at_first_nul() {
    assert_eq!(c_text(b"abc\0def\0"), Some(b"abc".to_vec()));
    assert_eq!(c_text(b"\0"), Some(Vec::new()));
    assert_eq!(c_text(b"abc"), None);
    assert_eq!(c_text(b""), None);
}

#[test]
fn sysctl_status_decides_reading() {
    assert_eq!(sysctl_u32_reading(0, 7), Some(7));
    assert_eq!(sysctl_u32_reading(-1, 7), None);
    assert_eq!(memory_pressure_level(0, 4), Some(4));
    assert_eq!(memory_pressure_level(1, 4), None);
}

#[test]
fn pressure_levels_map_to_variants() {
    assert_eq!(pressure_from_level(Some(1)), MemoryPressure::Normal);
    assert_eq!(pressure_from_level(Some(2)), MemoryPressure::Warn);
    assert_eq!(pressure_from_level(Some(4)), MemoryPressure::Critical);
    assert_eq!(pressure_from_level(Some(3)), MemoryPressure::Normal);
    assert_eq!(pressure_from_level(None), MemoryPressure::Normal);
}

#[test]
fn cores_split_into_efficiency_then_performance() {
    let topo = Some(CoreTopology { efficiency_count: 4, performance_count: 8 });
    let kinds = core_types(12, &topo);
    assert_eq!(kinds.len(), 12);
    assert!(kinds[..4].iter().all(|k| *k == CoreType::Efficiency));
    assert!(kinds[4..].iter().all(|k| *k == CoreType::Performance));
    assert_eq!(core_type_for(3, &topo), CoreType::Efficiency);
    assert_eq!(core_type_for(4, &topo), CoreType::Performance);
}

#[test]
fn fewer_cores_than_efficiency_count_are_all_efficiency() {
    let topo = Some(CoreTopology { efficiency_count: 4, performance_count: 4 });
    let kinds = core_types(3, &topo);
    assert_eq!(kinds, vec![CoreType::Efficiency; 3]);
}

#[test]
fn without_topology_cores_are_unknown() {
    assert_eq!(core_types(2, &None), vec![CoreType::Unknown, CoreType::Unknown]);
    assert_eq!(core_types(0, &None), Vec::<CoreType>::new());
}
