use mylan::codec::{
    device_type_from_db, device_type_to_db, event_type_from_db, event_type_to_db, mac_from_db,
    mac_to_db, protocol_from_db, protocol_to_db, scan_kind_to_db, scan_status_from_db,
    service_state_from_db, service_state_to_db, severity_from_db, severity_to_db, InvalidMac,
};
use mylan::connection::{db_path_in, default_data_dir, default_db_path};
use mylan::devices::{
    field_updates, identity_lookup, insert_row, merge_for_update, update_statement, FieldUpdate,
    IdentityLookup,
};
use mylan::diff::{diff_events, DeviceSnapshot, ServiceSnapshot};
use mylan::migrations::{latest_schema_version, pending_migrations, set_version_sql, stored_version};
use mylan::model::{
    parse_ip, Confidence, Device, DeviceType, EventType, IpAddr, MacAddr, Observation, Protocol,
    ScanKind, ScanStatus, ServiceState, Severity, Source,
};
use mylan::pipeline::{device_for_host, duration_ms_of, ScanTally, UpsertOutcome};
use mylan::services::{like_pattern, services_query, ServiceFilters, SqlParam};
use mylan::util::{new_id, now_rfc3339, timestamp_from, TimestampError};

fn ip(s: &str) -> IpAddr {
    let c: Vec<char> = s.chars().collect();
    parse_ip(&c).expect("valid ip")
}

fn mac(s: &str) -> MacAddr {
    MacAddr::parse(s).expect("valid mac")
}

#[test]
fn enum_round_trip() {
    assert_eq!(device_type_to_db(DeviceType::Router), "router");
    assert_eq!(protocol_to_db(Protocol::Tcp), "tcp");
    assert_eq!(service_state_to_db(ServiceState::Open), "open");
    assert_eq!(device_type_from_db("router"), Some(DeviceType::Router));
    assert_eq!(protocol_from_db("udp"), Some(Protocol::Udp));
    assert_eq!(service_state_from_db("filtered"), Some(ServiceState::Filtered));
}

#[test]
fn every_enum_name_reads_back() {
    for t in [
        DeviceType::Router,
        DeviceType::Phone,
        DeviceType::Laptop,
        DeviceType::Desktop,
        DeviceType::Tv,
        DeviceType::Printer,
        DeviceType::Camera,
        DeviceType::Nas,
        DeviceType::Console,
        DeviceType::Iot,
        DeviceType::Tablet,
        DeviceType::Unknown,
    ] {
        assert_eq!(device_type_from_db(device_type_to_db(t)), Some(t));
    }
    for (e, name) in [
        (EventType::DeviceNew, "device_new"),
        (EventType::DeviceOffline, "device_offline"),
        (EventType::DeviceOnline, "device_online"),
        (EventType::DeviceIpChanged, "device_ip_changed"),
        (EventType::PortOpened, "port_opened"),
    ] {
        assert_eq!(event_type_to_db(e), name);
        assert_eq!(event_type_from_db(name), Some(e));
    }
    for s in [Severity::Info, Severity::Warning, Severity::Critical] {
        assert_eq!(severity_from_db(severity_to_db(s)), Some(s));
    }
    assert_eq!(scan_kind_to_db(ScanKind::Ports), "ports");
    assert_eq!(scan_status_from_db("completed"), Some(ScanStatus::Completed));
    assert_eq!(device_type_from_db("Router"), None);
    assert_eq!(protocol_from_db(""), None);
}

#[test]
fn mac_round_trip() {
    let m = mac("aa:bb:cc:dd:ee:ff");
    assert_eq!(mac_to_db(Some(m)), Some("aa:bb:cc:dd:ee:ff".to_string()));
    assert_eq!(mac_from_db(Some("aa:bb:cc:dd:ee:ff")), Ok(Some(m)));
    assert_eq!(mac_from_db(None), Ok(None));
    assert_eq!(mac_from_db(Some("nope")), Err(InvalidMac));
    assert_eq!(mac_to_db(Some(mac("AA:BB:CC:DD:EE:0F"))), Some("aa:bb:cc:dd:ee:0f".to_string()));
}

fn stored(id: &str, m: Option<MacAddr>, a: Option<IpAddr>, now: &str) -> Device {
    let mut d = Device::new(id, "net-1", now);
    d.primary_mac = m;
    d.primary_ip = a;
    d
}

#[test]
fn rescan_keeps_user_fields_and_known_facts() {
    let m = mac("aa:bb:cc:00:00:01");
    let mut existing = stored("dev-1", Some(m), Some(ip("192.168.1.5")), "t0");
    existing.vendor = Some("Synology".to_string());
    existing.device_type = DeviceType::Nas;
    existing.confidence = Confidence::new(80);
    existing.is_trusted = true;
    existing.notes = Some("mi NAS".to_string());
    existing.display_name = Some("nas".to_string());
    let incoming = stored("dev-new", Some(m), None, "t1");
    let merged = merge_for_update(&existing, &incoming);
    assert_eq!(merged.id, "dev-1");
    assert_eq!(merged.primary_ip, Some(ip("192.168.1.5")));
    assert_eq!(merged.vendor.as_deref(), Some("Synology"));
    assert_eq!(merged.device_type, DeviceType::Nas);
    assert_eq!(merged.confidence, Confidence::new(80));
    assert_eq!(merged.primary_mac, Some(m));
    assert!(merged.is_trusted);
    assert_eq!(merged.notes.as_deref(), Some("mi NAS"));
    assert_eq!(merged.display_name.as_deref(), Some("nas"));
    assert_eq!(merged.last_seen_at, "t1");
    assert_eq!(merged.first_seen_at, "t0");
}

#[test]
fn rescan_takes_a_new_display_name_and_keeps_the_stored_one_otherwise() {
    let m = mac("aa:bb:cc:00:00:02");
    let mut existing = stored("dev-1", Some(m), None, "t0");
    existing.display_name = Some("old".to_string());
    let mut incoming = stored("dev-new", Some(m), None, "t1");
    incoming.display_name = Some("new".to_string());
    assert_eq!(merge_for_update(&existing, &incoming).display_name.as_deref(), Some("new"));
    incoming.display_name = None;
    assert_eq!(merge_for_update(&existing, &incoming).display_name.as_deref(), Some("old"));
}

#[test]
fn rescan_raises_classification_and_follows_new_address() {
    let mut existing = stored("dev-1", Some(mac("aa:bb:cc:00:00:02")), Some(ip("192.168.1.5")), "t0");
    existing.device_type = DeviceType::Iot;
    existing.confidence = Confidence::new(40);
    existing.is_online = false;
    let mut incoming = stored("x", None, Some(ip("192.168.1.42")), "t1");
    incoming.device_type = DeviceType::Camera;
    incoming.confidence = Confidence::new(75);
    incoming.hostname = Some("cam.local".to_string());
    let merged = merge_for_update(&existing, &incoming);
    assert_eq!(merged.device_type, DeviceType::Camera);
    assert_eq!(merged.confidence.score(), 75);
    assert_eq!(merged.primary_ip, Some(ip("192.168.1.42")));
    assert_eq!(merged.hostname.as_deref(), Some("cam.local"));
    assert!(merged.is_online);
    let mut weaker = incoming.clone();
    weaker.device_type = DeviceType::Phone;
    weaker.confidence = Confidence::new(10);
    let again = merge_for_update(&merged, &weaker);
    assert_eq!(again.device_type, DeviceType::Camera);
    assert_eq!(again.confidence.score(), 75);
    let mut unknown = incoming.clone();
    unknown.device_type = DeviceType::Unknown;
    unknown.confidence = Confidence::new(99);
    assert_eq!(merge_for_update(&merged, &unknown).device_type, DeviceType::Camera);
}

#[test]
fn router_insert_is_trusted_and_others_keep_their_flag() {
    let mut router = stored("r", None, Some(ip("192.168.1.1")), "t0");
    router.device_type = DeviceType::Router;
    assert!(insert_row(&router).is_trusted);
    let phone = stored("p", None, Some(ip("192.168.1.2")), "t0");
    assert!(!insert_row(&phone).is_trusted);
    let mut trusted_phone = phone.clone();
    trusted_phone.is_trusted = true;
    assert!(insert_row(&trusted_phone).is_trusted);
}

#[test]
fn identity_prefers_mac_then_ip() {
    let m = mac("aa:bb:cc:00:00:03");
    let a = ip("192.168.1.9");
    match identity_lookup(&stored("d", Some(m), Some(a), "t")) {
        IdentityLookup::ByMac { mac, ip } => {
            assert_eq!(mac, m);
            assert_eq!(ip, Some(a));
        }
        other => panic!("unexpected {other:?}"),
    }
    assert!(matches!(
        identity_lookup(&stored("d", Some(mac("00:00:00:00:00:00")), Some(a), "t")),
        IdentityLookup::ByIp(x) if x == a
    ));
    assert!(matches!(identity_lookup(&stored("d", None, None, "t")), IdentityLookup::Nothing));
}

#[test]
fn field_updates_build_partial_statement() {
    let u = field_updates(Some("nuevo nombre"), None, Some("nota"));
    assert_eq!(
        u,
        vec![FieldUpdate::DisplayName("nuevo nombre".to_string()), FieldUpdate::Notes("nota".to_string())]
    );
    assert_eq!(
        update_statement(&u).as_deref(),
        Some("UPDATE devices SET display_name = ?, notes = ? WHERE id = ?")
    );
    let t = field_updates(None, Some(true), None);
    assert_eq!(update_statement(&t).as_deref(), Some("UPDATE devices SET is_trusted = ? WHERE id = ?"));
    assert_eq!(update_statement(&field_updates(None, None, None)), None);
}

fn snap(id: &str, ip_text: Option<&str>, first: &str, online: bool) -> DeviceSnapshot {
    DeviceSnapshot {
        id: id.to_string(),
        primary_ip: ip_text.map(str::to_string),
        first_seen_at: first.to_string(),
        is_online: online,
    }
}

fn svc(device_id: &str, protocol: &str, port: u16, name: Option<&str>) -> ServiceSnapshot {
    ServiceSnapshot {
        device_id: device_id.to_string(),
        protocol: protocol.to_string(),
        port,
        service_name: name.map(str::to_string),
    }
}

fn of_type(events: &[mylan::model::Event], t: EventType) -> Vec<&mylan::model::Event> {
    events.iter().filter(|e| e.event_type == t).collect()
}

#[test]
fn device_new_emitted_for_fresh_device() {
    let before = vec![snap("dev-old", Some("192.168.1.10"), "t0", true)];
    let after = vec![
        snap("dev-old", Some("192.168.1.10"), "t0", true),
        snap("dev-new", Some("192.168.1.99"), "t1", true),
    ];
    let out = diff_events("net-1", "t1", &before, &[], &after, &[], false);
    let news = of_type(&out.events, EventType::DeviceNew);
    assert_eq!(news.len(), 1);
    assert_eq!(news[0].device_id.as_deref(), Some("dev-new"));
}

#[test]
fn device_offline_emitted_and_is_online_zero() {
    let before = vec![snap("dev-a", Some("192.168.1.10"), "t0", true)];
    let out = diff_events("net-1", "t1", &before, &[], &[], &[], false);
    let off = of_type(&out.events, EventType::DeviceOffline);
    assert_eq!(off.len(), 1);
    assert_eq!(off[0].device_id.as_deref(), Some("dev-a"));
    assert_eq!(off[0].severity, Severity::Warning);
    assert_eq!(out.went_offline, vec!["dev-a".to_string()]);
}

#[test]
fn device_online_emitted_and_is_online_one() {
    let before = vec![snap("dev-b", Some("192.168.1.11"), "t0", false)];
    let after = vec![snap("dev-b", Some("192.168.1.11"), "t0", true)];
    let out = diff_events("net-1", "t1", &before, &[], &after, &[], false);
    let on = of_type(&out.events, EventType::DeviceOnline);
    assert_eq!(on.len(), 1);
    assert_eq!(on[0].device_id.as_deref(), Some("dev-b"));
    assert_eq!(out.came_online, vec!["dev-b".to_string()]);
}

#[test]
fn device_ip_changed_emitted_with_old_new_ip() {
    let before = vec![snap("dev-c", Some("192.168.1.20"), "t0", true)];
    let after = vec![snap("dev-c", Some("192.168.1.99"), "t0", true)];
    let out = diff_events("net-1", "t1", &before, &[], &after, &[], false);
    let ch = of_type(&out.events, EventType::DeviceIpChanged);
    assert_eq!(ch.len(), 1);
    assert_eq!(ch[0].device_id.as_deref(), Some("dev-c"));
    let data = ch[0].data_json.as_deref().expect("data_json");
    assert!(data.contains("192.168.1.20"));
    assert!(data.contains("192.168.1.99"));
    assert_eq!(data, "{\"new_ip\":\"192.168.1.99\",\"old_ip\":\"192.168.1.20\"}");
}

#[test]
fn port_opened_emitted_for_new_service() {
    let before = vec![snap("dev-d", Some("192.168.1.30"), "t0", true)];
    let after = vec![snap("dev-d", Some("192.168.1.30"), "t0", true)];
    let after_svcs = vec![svc("dev-d", "tcp", 80, Some("http"))];
    let out = diff_events("net-1", "t1", &before, &[], &after, &after_svcs, false);
    let ports = of_type(&out.events, EventType::PortOpened);
    assert_eq!(ports.len(), 1);
    assert_eq!(ports[0].device_id.as_deref(), Some("dev-d"));
    let data = ports[0].data_json.as_deref().expect("data_json");
    assert!(data.contains("\"port\":80"));
    assert!(data.contains("\"protocol\":\"tcp\""));
    assert!(data.contains("\"service_name\":\"http\""));
}

#[test]
fn cold_start_suppresses_offline_and_online_events() {
    let before = vec![
        snap("dev-a", Some("192.168.1.10"), "t0", true),
        snap("dev-b", Some("192.168.1.11"), "t0", false),
    ];
    let after = vec![
        snap("dev-b", Some("192.168.1.11"), "t0", true),
        snap("dev-c", Some("192.168.1.99"), "t1", true),
    ];
    let out = diff_events("net-1", "t1", &before, &[], &after, &[], true);
    assert_eq!(of_type(&out.events, EventType::DeviceOffline).len(), 0);
    assert_eq!(of_type(&out.events, EventType::DeviceOnline).len(), 0);
    assert_eq!(of_type(&out.events, EventType::DeviceNew).len(), 1);
    assert!(out.went_offline.is_empty());
    assert!(out.came_online.is_empty());
}

#[test]
fn no_events_when_no_changes() {
    let before = vec![snap("dev-a", Some("192.168.1.10"), "t0", true)];
    let after = vec![snap("dev-a", Some("192.168.1.10"), "t0", true)];
    let out = diff_events("net-1", "t1", &before, &[], &after, &[], false);
    assert!(out.events.is_empty(), "got {:?}", out.events);
}

#[test]
fn diff_events_are_stamped_and_escaped() {
    let before = vec![snap("d", None, "t0", true)];
    let after = vec![snap("d", Some("a\"b\\c\n"), "t0", true)];
    let out = diff_events("net-9", "2026-01-01T00:00:00Z", &before, &[], &after, &[], false);
    assert_eq!(out.events.len(), 1);
    let e = &out.events[0];
    assert_eq!(e.network_id, "net-9");
    assert_eq!(e.created_at, "2026-01-01T00:00:00Z");
    assert_eq!(e.id.len(), 36);
    assert_eq!(e.message.as_deref(), Some("Device IP changed"));
    assert_eq!(e.data_json.as_deref(), Some("{\"new_ip\":\"a\\\"b\\\\c\\n\",\"old_ip\":null}"));
}

#[test]
fn like_pattern_escapes_wildcards() {
    assert_eq!(like_pattern("http"), "%http%");
    assert_eq!(like_pattern("50%_off\\"), "%50\\%\\_off\\\\%");
}

#[test]
fn service_query_adds_filters_in_order() {
    let (sql, params) = services_query(&ServiceFilters::default());
    assert!(sql.ends_with("WHERE 1 = 1 ORDER BY d.primary_ip, s.port"));
    assert!(params.is_empty());
    let f = ServiceFilters {
        device_id: Some("dev-1".to_string()),
        port: Some(80),
        protocol: Some("tcp".to_string()),
        service: Some("ht".to_string()),
    };
    let (sql, params) = services_query(&f);
    assert!(sql.ends_with(
        "WHERE 1 = 1 AND s.device_id = ? AND s.port = ? AND s.protocol = ? AND LOWER(s.service_name) LIKE LOWER(?) ESCAPE '\\' ORDER BY d.primary_ip, s.port"
    ));
    assert_eq!(
        params,
        vec![
            SqlParam::Text("dev-1".to_string()),
            SqlParam::Int(80),
            SqlParam::Text("tcp".to_string()),
            SqlParam::Text("%ht%".to_string()),
        ]
    );
}

#[test]
fn migrations_pending_by_version() {
    assert_eq!(latest_schema_version(), 4);
    assert_eq!(pending_migrations(0), vec![1, 2, 3, 4]);
    assert_eq!(pending_migrations(2), vec![3, 4]);
    assert!(pending_migrations(latest_schema_version()).is_empty());
    assert_eq!(stored_version(3), 3);
    assert_eq!(stored_version(-1), 0);
    assert_eq!(stored_version(1 << 40), 0);
    assert_eq!(set_version_sql(4), "PRAGMA user_version = 4;");
}

#[test]
fn default_data_dir_respects_xdg() {
    assert_eq!(
        default_data_dir(Some("/tmp/xdg-test-mylan"), Some("/home/u")),
        Some("/tmp/xdg-test-mylan/mylan".to_string())
    );
}

#[test]
fn default_data_dir_falls_back_to_home() {
    assert_eq!(default_data_dir(Some(""), Some("/home/u")), Some("/home/u/.local/share/mylan".to_string()));
    assert_eq!(default_data_dir(None, Some("/home/u/")), Some("/home/u/.local/share/mylan".to_string()));
    assert_eq!(default_data_dir(None, Some("")), None);
    assert_eq!(default_data_dir(None, None), None);
    assert_eq!(db_path_in("/d/mylan"), "/d/mylan/mylan.db");
    assert_eq!(default_db_path(None, Some("/h")), Some("/h/.local/share/mylan/mylan.db".to_string()));
    assert_eq!(default_db_path(None, None), None);
}

#[test]
fn now_rfc3339_is_utc() {
    let ts = now_rfc3339().expect("now_rfc3339");
    assert!(ts.ends_with('Z'), "esperaba sufijo 'Z' (UTC); obtenido: {ts}");
}

#[test]
fn now_rfc3339_has_rfc3339_separators() {
    let ts = now_rfc3339().expect("now_rfc3339");
    assert!(ts.contains('T'));
    assert!(ts.contains('-'));
    assert!(ts.contains(':'));
}

#[test]
fn now_rfc3339_has_expected_length_and_pattern() {
    let ts = now_rfc3339().expect("now_rfc3339");
    assert!(ts.len() >= 20);
    assert!(ts[..4].chars().all(char::is_numeric));
    assert_eq!(&ts[4..5], "-");
    assert_eq!(&ts[7..8], "-");
    assert_eq!(&ts[10..11], "T");
    assert_eq!(&ts[13..14], ":");
    assert_eq!(&ts[16..17], ":");
}

#[test]
fn now_rfc3339_is_chronologically_consistent() {
    let a = now_rfc3339().expect("now_rfc3339");
    let b = now_rfc3339().expect("now_rfc3339");
    assert!(a <= b, "timestamps no deben ser decrecientes: {a} vs {b}");
}

#[test]
fn new_id_is_valid_uuid_v4() {
    let id = new_id();
    let parsed = uuid::Uuid::parse_str(&id).expect("UUID parseable");
    assert_eq!(parsed.get_version(), Some(uuid::Version::Random));
}

#[test]
fn new_id_is_unique_across_calls() {
    let n = 64;
    let mut seen = std::collections::HashSet::with_capacity(n);
    for _ in 0..n {
        assert!(seen.insert(new_id()), "ID duplicado detectado");
    }
    assert_eq!(seen.len(), n);
}

#[test]
fn new_id_is_36_chars_dashed_format() {
    let id = new_id();
    assert_eq!(id.len(), 36);
    assert_eq!(id.matches('-').count(), 4);
}

#[test]
fn scan_bookkeeping_counts_hosts() {
    let host = Observation::new(Source::ArpCache)
        .with_mac(mac("aa:bb:cc:00:00:10"))
        .with_ip(ip("192.168.1.10"))
        .with_hostname("laptop".to_string());
    let d = device_for_host("dev-1", "net-1", "t1", &host);
    assert_eq!(d.primary_mac, Some(mac("aa:bb:cc:00:00:10")));
    assert_eq!(d.hostname.as_deref(), Some("laptop"));
    assert_eq!(d.first_seen_at, "t1");
    assert!(d.is_online);
    assert_eq!(d.device_type, DeviceType::Unknown);
    assert_eq!(d.confidence.score(), 0);
    assert!(d.manufacturer.is_none() && d.model.is_none() && d.os_family.is_none());
    let mut t = ScanTally::new(2);
    t.record(UpsertOutcome::Inserted);
    t.record(UpsertOutcome::Updated);
    assert_eq!((t.hosts_alive, t.hosts_new), (2, 1));
    assert_eq!(duration_ms_of(1500), 1500);
    assert_eq!(duration_ms_of(u128::MAX), u64::MAX);
}

#[test]
fn timestamp_from_passes_text_and_maps_failure() {
    assert_eq!(
        timestamp_from(Ok("2026-06-27T00:00:00Z".to_string())),
        Ok("2026-06-27T00:00:00Z".to_string())
    );
    assert_eq!(
        timestamp_from(Err(time::error::Format::InvalidComponent("year"))),
        Err(TimestampError)
    );
}
