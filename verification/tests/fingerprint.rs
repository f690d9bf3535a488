use mylan::fingerprint::Fingerprint;
use mylan::model::{parse_ip, Confidence, Device, DeviceType, IpAddr, MacAddr, Observation, Source};
use mylan::oui::{normalize_prefix, OuiDatabase};
use mylan::rules::{Match, Matcher, Rule, RuleSet};

fn ip(s: &str) -> IpAddr {
    let c: Vec<char> = s.chars().collect();
    parse_ip(&c).expect("valid ip")
}

fn mac(s: &str) -> MacAddr {
    MacAddr::parse(s).expect("valid mac")
}

fn oui_db() -> OuiDatabase {
    OuiDatabase::load_csv("mac_prefix,vendor\naabbcc,Example Vendor Inc.\n".as_bytes()).expect("load")
}

fn camera_rule() -> Rule {
    Rule {
        id: "camera_rtsp_generic".to_string(),
        matcher: Match {
            any: vec![
                Matcher { port: Some(554), service: Some("rtsp".to_string()), ..Default::default() },
                Matcher { mdns_contains: Some("_rtsp".to_string()), ..Default::default() },
                Matcher {
                    upnp_device_type_contains: Some("MediaServer".to_string()),
                    ..Default::default()
                },
            ],
            all: vec![],
        },
        device_type: DeviceType::Camera,
        confidence: Confidence::new(75),
    }
}

fn obs_mdns(service: &str) -> Observation {
    Observation::new(Source::Mdns)
        .with_ip(ip("192.168.1.10"))
        .with_hint("mdns.service".to_string(), service.to_string())
}

fn obs_ssdp(st: &str) -> Observation {
    Observation::new(Source::Ssdp)
        .with_ip(ip("192.168.1.11"))
        .with_hint("ssdp.st".to_string(), st.to_string())
}

fn obs_tcp(port: u16) -> Observation {
    Observation::new(Source::TcpPing)
        .with_ip(ip("192.168.1.12"))
        .with_hint("tcp.ports".to_string(), port.to_string())
}

#[test]
fn enricher_fills_vendor_from_oui() {
    let fp = Fingerprint::from_parts(oui_db(), RuleSet::new(), None);
    let mut device = Device::new("dev-1", "net-1", "2026-06-27T00:00:00Z");
    device.primary_mac = Some(mac("aa:bb:cc:11:22:33"));
    fp.enrich(&mut device, &[]);
    assert_eq!(device.vendor.as_deref(), Some("Example Vendor Inc."));
    assert_eq!(device.manufacturer.as_deref(), Some("Example Vendor Inc."));
}

#[test]
fn enricher_fills_hostname_from_observations() {
    let fp = Fingerprint::from_parts(OuiDatabase::new(), RuleSet::new(), None);
    let mut device = Device::new("dev-1", "net-1", "2026-06-27T00:00:00Z");
    device.primary_ip = Some(ip("192.168.1.5"));
    let obs = [Observation::new(Source::Mdns).with_hostname("nas.local".to_string())];
    fp.enrich(&mut device, &obs);
    assert_eq!(device.hostname.as_deref(), Some("nas.local"));
}

#[test]
fn enricher_classifies_router_when_ip_is_gateway() {
    let fp = Fingerprint::from_parts(OuiDatabase::new(), RuleSet::new(), Some(ip("192.168.1.1")));
    let mut device = Device::new("dev-1", "net-1", "2026-06-27T00:00:00Z");
    device.primary_ip = Some(ip("192.168.1.1"));
    fp.enrich(&mut device, &[]);
    assert_eq!(device.device_type, DeviceType::Router);
    assert_eq!(device.confidence.score(), 70);
}

#[test]
fn enricher_applies_camera_rule_over_router_when_higher_confidence() {
    let fp = Fingerprint::from_parts(
        OuiDatabase::new(),
        RuleSet::from_rules(vec![camera_rule()]),
        Some(ip("192.168.1.1")),
    );
    let mut device = Device::new("dev-1", "net-1", "2026-06-27T00:00:00Z");
    device.primary_ip = Some(ip("192.168.1.1"));
    let obs = [Observation::new(Source::Mdns)
        .with_ip(ip("192.168.1.1"))
        .with_hint("mdns.service".to_string(), "_rtsp._tcp".to_string())];
    fp.enrich(&mut device, &obs);
    assert_eq!(device.device_type, DeviceType::Camera);
    assert_eq!(device.confidence.score(), 75);
}

#[test]
fn enricher_leaves_unknown_when_no_signals() {
    let fp = Fingerprint::from_parts(oui_db(), RuleSet::new(), None);
    let mut device = Device::new("dev-1", "net-1", "2026-06-27T00:00:00Z");
    device.primary_mac = Some(mac("00:11:22:33:44:55"));
    fp.enrich(&mut device, &[]);
    assert_eq!(device.device_type, DeviceType::Unknown);
    assert!(device.vendor.is_none());
}

#[test]
fn enricher_uses_first_observed_mac_and_keeps_known_vendor() {
    let fp = Fingerprint::from_parts(oui_db(), RuleSet::new(), None);
    let mut device = Device::new("dev-1", "net-1", "t0");
    let obs = [Observation::new(Source::ArpCache).with_mac(mac("aa:bb:cc:00:00:01"))];
    fp.enrich(&mut device, &obs);
    assert_eq!(device.vendor.as_deref(), Some("Example Vendor Inc."));
    let mut known = Device::new("dev-2", "net-1", "t0");
    known.vendor = Some("Mine".to_string());
    fp.enrich(&mut known, &obs);
    assert_eq!(known.vendor.as_deref(), Some("Mine"));
}

const CSV: &str =
    "mac_prefix,vendor\naabbcc,Example Vendor Inc.\nDEADBE,Deadbeef LLC\nXX,bad\n,empty\n";

#[test]
fn loads_valid_rows_and_skips_malformed() {
    let db = OuiDatabase::load_csv(CSV.as_bytes()).expect("load");
    assert_eq!(db.len(), 2);
    assert_eq!(db.vendor_for(&mac("aa:bb:cc:11:22:33")), Some("Example Vendor Inc."));
    assert_eq!(db.vendor_for(&mac("de:ad:be:00:00:00")), Some("Deadbeef LLC"));
}

#[test]
fn unknown_prefix_returns_none() {
    let db = OuiDatabase::load_csv(CSV.as_bytes()).expect("load");
    assert!(db.vendor_for(&mac("00:11:22:33:44:55")).is_none());
}

#[test]
fn empty_database_returns_none() {
    let db = OuiDatabase::new();
    assert!(db.is_empty());
    assert!(db.vendor_for(&mac("aa:bb:cc:dd:ee:ff")).is_none());
}

#[test]
fn prefixes_are_normalised() {
    assert_eq!(normalize_prefix(" AA:BB-CC "), "aabbcc");
    assert_eq!(normalize_prefix("00.1C.C4"), "001cc4");
    let db = OuiDatabase::load_csv("mac_prefix,vendor\nAA:BB:CC, Spaced Vendor \n".as_bytes())
        .expect("load");
    assert_eq!(db.vendor_for(&mac("aa:bb:cc:00:00:00")), Some("Spaced Vendor"));
}

#[test]
fn camera_rule_fires_on_mdns_rtsp() {
    let rules = RuleSet::from_rules(vec![camera_rule()]);
    let obs = [obs_mdns("_rtsp._tcp")];
    let (dt, conf) = rules.evaluate(&obs).expect("match");
    assert_eq!(dt, DeviceType::Camera);
    assert_eq!(conf.score(), 75);
}

#[test]
fn camera_rule_fires_on_ssdp_mediaserver() {
    let rules = RuleSet::from_rules(vec![camera_rule()]);
    let obs = [obs_ssdp("urn:schemas-upnp-org:device:MediaServer:1")];
    assert_eq!(rules.evaluate(&obs).map(|(d, _)| d), Some(DeviceType::Camera));
}

#[test]
fn camera_rule_does_not_fire_on_unrelated_mdns() {
    let rules = RuleSet::from_rules(vec![camera_rule()]);
    let obs = [obs_mdns("_ipp._tcp")];
    assert!(rules.evaluate(&obs).is_none());
}

#[test]
fn highest_confidence_wins_across_rules() {
    let camera = Rule {
        id: "camera".to_string(),
        matcher: Match {
            any: vec![Matcher { mdns_contains: Some("_rtsp".to_string()), ..Default::default() }],
            all: vec![],
        },
        device_type: DeviceType::Camera,
        confidence: Confidence::new(75),
    };
    let iot = Rule {
        id: "iot".to_string(),
        matcher: Match {
            any: vec![Matcher { mdns_contains: Some("_rtsp".to_string()), ..Default::default() }],
            all: vec![],
        },
        device_type: DeviceType::Iot,
        confidence: Confidence::new(40),
    };
    let rules = RuleSet::from_rules(vec![iot, camera]);
    let obs = [obs_mdns("_rtsp._tcp")];
    let (dt, conf) = rules.evaluate(&obs).expect("match");
    assert_eq!(dt, DeviceType::Camera);
    assert_eq!(conf.score(), 75);
}

#[test]
fn equal_confidence_keeps_first_rule() {
    let a = Rule {
        id: "a".to_string(),
        matcher: Match {
            any: vec![Matcher { mdns_contains: Some("_rtsp".to_string()), ..Default::default() }],
            all: vec![],
        },
        device_type: DeviceType::Nas,
        confidence: Confidence::new(60),
    };
    let mut b = a.clone();
    b.device_type = DeviceType::Camera;
    let rules = RuleSet::from_rules(vec![a, b]);
    assert_eq!(rules.evaluate(&[obs_mdns("_rtsp._tcp")]).map(|(d, _)| d), Some(DeviceType::Nas));
}

#[test]
fn all_branch_requires_every_matcher() {
    let rule = Rule {
        id: "printer_ipp".to_string(),
        matcher: Match {
            any: vec![],
            all: vec![
                Matcher { port: Some(631), ..Default::default() },
                Matcher { mdns_contains: Some("_ipp".to_string()), ..Default::default() },
            ],
        },
        device_type: DeviceType::Printer,
        confidence: Confidence::new(80),
    };
    let rules = RuleSet::from_rules(vec![rule]);
    assert!(rules.evaluate(&[obs_tcp(631)]).is_none());
    let obs = [obs_tcp(631), obs_mdns("_ipp._tcp")];
    assert_eq!(rules.evaluate(&obs).map(|(d, _)| d), Some(DeviceType::Printer));
}

#[test]
fn is_gateway_matcher_fires_on_hint() {
    let rule = Rule {
        id: "router_gateway".to_string(),
        matcher: Match {
            any: vec![Matcher { is_gateway: Some(true), ..Default::default() }],
            all: vec![],
        },
        device_type: DeviceType::Router,
        confidence: Confidence::new(70),
    };
    let rules = RuleSet::from_rules(vec![rule]);
    let obs = [Observation::new(Source::ArpCache)
        .with_ip(ip("192.168.1.1"))
        .with_hint("network.role".to_string(), "gateway".to_string())];
    assert_eq!(rules.evaluate(&obs).map(|(d, _)| d), Some(DeviceType::Router));
}

#[test]
fn empty_match_never_fires() {
    let rule = Rule {
        id: "empty".to_string(),
        matcher: Match::default(),
        device_type: DeviceType::Tv,
        confidence: Confidence::new(99),
    };
    let rules = RuleSet::from_rules(vec![rule]);
    assert!(rules.evaluate(&[obs_tcp(80)]).is_none());
    assert_eq!(rules.len(), 1);
}
