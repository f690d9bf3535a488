use mylan::model::ScanProfile;
use mylan::scan::{
    ports_for_profile, profile_options, split_budget, DiscoverOptions, ScanTracker, PROBE_PORTS,
};

#[test]
fn split_budget_halves_and_sums_to_total() {
    let total = std::time::Duration::from_secs(3).as_nanos();
    let (meta, resolve) = split_budget(total);
    assert_eq!(meta, std::time::Duration::from_millis(1500).as_nanos());
    assert_eq!(resolve, std::time::Duration::from_millis(1500).as_nanos());
    assert_eq!(meta + resolve, total, "sin pérdida de presupuesto");
}

#[test]
fn split_budget_handles_zero_and_odd() {
    assert_eq!(split_budget(0), (0, 0));
    let (meta, resolve) = split_budget(3);
    assert_eq!(meta + resolve, 3);
    assert!(resolve >= meta);
}

#[test]
fn probe_ports_are_lan_relevant() {
    assert!(PROBE_PORTS.contains(&80));
    assert!(PROBE_PORTS.contains(&443));
    assert!(PROBE_PORTS.contains(&22));
    assert!(PROBE_PORTS.contains(&53));
    assert!(!PROBE_PORTS.is_empty());
}

#[test]
fn quick_maps_top_32() {
    assert_eq!(ports_for_profile(ScanProfile::Quick).len(), 32);
}

#[test]
fn normal_maps_top_100() {
    assert_eq!(ports_for_profile(ScanProfile::Normal).len(), 100);
}

#[test]
fn deep_enables_udp_and_is_slower_than_quick() {
    let deep = profile_options(ScanProfile::Deep);
    let quick = profile_options(ScanProfile::Quick);
    assert!(deep.enable_udp, "deep activa UDP");
    assert!(!quick.enable_udp, "quick no activa UDP");
    assert!(deep.connect_timeout_ms > quick.connect_timeout_ms);
}

#[test]
fn deep_selects_at_least_normal_catalog() {
    assert!(
        ports_for_profile(ScanProfile::Deep).len() >= ports_for_profile(ScanProfile::Normal).len()
    );
}

#[test]
fn iot_ports_are_fixed_catalog() {
    assert_eq!(ports_for_profile(ScanProfile::Iot), vec![554, 80, 443, 1883, 5683, 1900, 5000, 7547]);
    let opts = profile_options(ScanProfile::Iot);
    assert_eq!(opts.concurrency, 80);
    assert!(!opts.enable_udp);
}

#[test]
fn router_ports_are_fixed_catalog() {
    assert_eq!(ports_for_profile(ScanProfile::Router), vec![22, 23, 80, 443, 1900, 53, 67, 7547]);
    let opts = profile_options(ScanProfile::Router);
    assert_eq!(opts.concurrency, 80);
    assert!(!opts.enable_udp);
}

#[test]
fn all_profiles_produce_non_empty_ports() {
    for profile in [ScanProfile::Quick, ScanProfile::Normal, ScanProfile::Deep, ScanProfile::Iot, ScanProfile::Router] {
        assert!(!ports_for_profile(profile).is_empty(), "{profile:?} sin puertos");
    }
}

#[test]
fn quick_defaults_within_scan_budget() {
    let opts = DiscoverOptions::default();
    assert_eq!(opts.profile, ScanProfile::Quick);
    assert_eq!(opts.concurrency, 256);
    assert!(opts.mdns_timeout_ms / 1000 < 30);
    assert!(opts.ssdp_timeout_ms / 1000 < 30);
}

#[test]
fn for_profile_deep_is_slower() {
    let quick = DiscoverOptions::for_profile(ScanProfile::Quick);
    let deep = DiscoverOptions::for_profile(ScanProfile::Deep);
    assert!(deep.tcp_timeout_ms > quick.tcp_timeout_ms);
}

#[test]
fn for_profile_covers_all_five_profiles() {
    let normal = DiscoverOptions::for_profile(ScanProfile::Normal);
    for profile in [ScanProfile::Quick, ScanProfile::Normal, ScanProfile::Deep, ScanProfile::Iot, ScanProfile::Router] {
        let opts = DiscoverOptions::for_profile(profile);
        assert_eq!(opts.profile, profile, "for_profile retiene el perfil pedido");
    }
    let iot = DiscoverOptions::for_profile(ScanProfile::Iot);
    let router = DiscoverOptions::for_profile(ScanProfile::Router);
    assert_eq!(iot.tcp_timeout_ms, normal.tcp_timeout_ms, "iot degrada a Normal");
    assert_eq!(router.tcp_timeout_ms, normal.tcp_timeout_ms, "router degrada a Normal");
    assert_eq!(iot.concurrency, normal.concurrency);
    assert_eq!(router.concurrency, normal.concurrency);
}

#[test]
fn tracker_reports_every_eight_ports_and_the_last() {
    let mut t = ScanTracker::new(10);
    let mut reports = Vec::new();
    for i in 0..10u16 {
        let open = if i == 3 { Some(443) } else { None };
        if let Some(p) = t.record(open) {
            reports.push(p);
        }
    }
    assert_eq!(reports.len(), 2);
    assert_eq!(reports[0].ports_tested, 8);
    assert_eq!(reports[0].percent_done, 80);
    assert_eq!(reports[1].percent_done, 100);
    assert_eq!(reports[1].latest_open_port, Some(443));
    assert_eq!(t.finish(false).map(|p| p.percent_done), Some(100));
    assert_eq!(t.finish(true), None);
}
