use mylan::ports::{port_to_service_name, select_ports, COMMON_PORTS};
use mylan::scan::ScanOptions;

#[test]
fn catalog_has_at_least_100() {
    assert!(COMMON_PORTS.len() >= 100, "catálogo debe cubrir top 100");
}

#[test]
fn catalog_is_unique_and_sorted_by_rank() {
    let mut seen = std::collections::HashSet::new();
    for &p in COMMON_PORTS.iter() {
        assert!(seen.insert(p), "puerto {p} duplicado en COMMON_PORTS");
    }
}

#[test]
fn top_32_selects_32_ports() {
    let ports = select_ports(32);
    assert_eq!(ports.len(), 32);
    assert_eq!(ports[0], 80);
    assert!(ports.contains(&22));
    assert!(ports.contains(&443));
    assert!(ports.contains(&445));
    assert!(ports.contains(&53));
}

#[test]
fn top_100_selects_100_ports() {
    let ports = select_ports(100);
    assert_eq!(ports.len(), 100);
}

#[test]
fn top_zero_is_empty() {
    assert!(select_ports(0).is_empty());
}

#[test]
fn top_overflow_clamps_to_catalog() {
    let ports = select_ports(u16::MAX);
    assert_eq!(ports.len(), COMMON_PORTS.len());
}

#[test]
fn maps_well_known_ports() {
    assert_eq!(port_to_service_name(22), Some("ssh"));
    assert_eq!(port_to_service_name(80), Some("http"));
    assert_eq!(port_to_service_name(443), Some("https"));
    assert_eq!(port_to_service_name(445), Some("microsoft-ds"));
    assert_eq!(port_to_service_name(3306), Some("mysql"));
    assert_eq!(port_to_service_name(6379), Some("redis"));
    assert_eq!(port_to_service_name(9100), Some("jetdirect"));
}

#[test]
fn unknown_port_returns_none() {
    assert_eq!(port_to_service_name(12_345), None);
    assert_eq!(port_to_service_name(0), None);
}

#[test]
fn selected_ports_map_to_known_services() {
    let ports = select_ports(32);
    for &p in &[80, 443, 22, 445, 53, 3306] {
        assert!(ports.contains(&p), "top 32 incluye {p}");
        assert!(port_to_service_name(p).is_some(), "{p} tiene nombre");
    }
}

#[test]
fn scan_options_default_disables_udp() {
    let opts = ScanOptions::default();
    assert!(!opts.enable_udp, "Default desactiva UDP");
}

#[test]
fn catalog_holds_101_ports_in_rank_order() {
    assert_eq!(COMMON_PORTS.len(), 101);
    assert_eq!(COMMON_PORTS[0], 80);
    assert_eq!(COMMON_PORTS[100], 32400);
    assert_eq!(select_ports(3), vec![80, 23, 443]);
}

#[test]
fn selection_is_a_prefix_of_larger_selection() {
    let small = select_ports(10);
    let large = select_ports(50);
    assert_eq!(&large[..10], &small[..]);
}

#[test]
fn service_name_ranges_are_inclusive() {
    assert_eq!(port_to_service_name(3391), Some("ms-wbt-server"));
    assert_eq!(port_to_service_name(3392), None);
    assert_eq!(port_to_service_name(49158), Some("unknown"));
    assert_eq!(port_to_service_name(49159), None);
    assert_eq!(port_to_service_name(27019), Some("mongodb"));
}
