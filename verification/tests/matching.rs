use mylan::events::events_page_query;
use mylan::iface::{default_or_alternative, interface_by_name, pick_alternative, NetGateway, NetInterface};
use mylan::model::{IpAddr, MacAddr, Observation, Source};
use mylan::rules::{hint_matches, Matcher};
use mylan::services::SqlParam;

fn mac(s: &str) -> MacAddr {
    MacAddr::parse(s).unwrap()
}

fn lan(name: &str, ip: u32) -> NetInterface {
    NetInterface {
        name: name.to_string(),
        ipv4: vec![(ip, 24)],
        mac: Some(mac("02:00:00:00:00:01")),
        gateway: Some(NetGateway { ipv4: vec![0xc0a8_0101], mac: mac("aa:bb:cc:dd:ee:ff") }),
        dns_servers: vec![IpAddr::V4(0x0101_0101)],
    }
}

#[test]
fn chosen_interfaces_carry_gateway_and_dns() {
    let all = vec![lan("docker0", 0xac11_0001), lan("wlan0", 0xc0a8_0103)];
    for l in [
        pick_alternative(all.clone()).unwrap(),
        interface_by_name("wlan0", all.clone()).unwrap(),
        default_or_alternative(Ok(lan("docker0", 0xac11_0001)), all.clone()).unwrap(),
        default_or_alternative(Ok(lan("wlan0", 0xc0a8_0103)), Vec::new()).unwrap(),
    ] {
        assert_eq!(l.name, "wlan0");
        assert_eq!(l.ip, 0xc0a8_0103);
        assert_eq!(l.prefix_len, 24);
        assert_eq!(l.mac, Some(mac("02:00:00:00:00:01")));
        assert_eq!(l.gateway_ip, Some(IpAddr::V4(0xc0a8_0101)));
        assert_eq!(l.gateway_mac, Some(mac("aa:bb:cc:dd:ee:ff")));
        assert_eq!(l.dns_servers, vec![IpAddr::V4(0x0101_0101)]);
        assert_eq!(l.ssid, None);
    }
}

#[test]
fn with_hint_replaces_a_key_and_appends_a_new_one() {
    let o = Observation::new(Source::Mdns)
        .with_hint("mdns.service".to_string(), "_http._tcp".to_string())
        .with_hint("mdns.instance".to_string(), "a".to_string())
        .with_hint("mdns.service".to_string(), "_rtsp._tcp".to_string());
    assert_eq!(
        o.hints,
        vec![
            ("mdns.service".to_string(), "_rtsp._tcp".to_string()),
            ("mdns.instance".to_string(), "a".to_string()),
        ]
    );
}

#[test]
fn matcher_checks_each_signal_against_any_observation() {
    let tcp = Observation::new(Source::TcpPing).with_hint("tcp.ports".to_string(), "554".to_string());
    let md = Observation::new(Source::Mdns)
        .with_hint("mdns.service".to_string(), "_rtsp._tcp".to_string());
    let m = Matcher { port: Some(554), service: Some("rtsp".into()), ..Default::default() };
    assert!(Matcher::default().matches(&[]));
    assert!(!m.matches(&[tcp.clone()]));
    assert!(m.matches(&[tcp, md]));
}

#[test]
fn mdns_and_ssdp_signals_look_at_their_keys_only() {
    let md = Observation::new(Source::Mdns)
        .with_hint("mdns.service".to_string(), "_rtsp._tcp".to_string());
    let sd = Observation::new(Source::Ssdp).with_hint("ssdp.st".to_string(), "_rtsp._tcp".to_string());
    let up = Observation::new(Source::Ssdp)
        .with_hint("ssdp.st".to_string(), "urn:schemas-upnp-org:device:MediaServer:1".to_string());
    let mdns = Matcher { mdns_contains: Some("_RTSP".into()), ..Default::default() };
    assert!(mdns.matches(&[md]));
    assert!(!mdns.matches(&[sd]));
    let upnp = Matcher { upnp_device_type_contains: Some("MediaServer".into()), ..Default::default() };
    assert!(upnp.matches(&[up]));
}

#[test]
fn hint_matches_needs_prefix_and_substring() {
    let p: Vec<char> = "mdns.".chars().collect();
    let n: Vec<char> = "rtsp".chars().collect();
    assert!(hint_matches("mdns.service", "_rtsp._tcp", &p, &n));
    assert!(!hint_matches("ssdp.st", "_rtsp._tcp", &p, &n));
    assert!(!hint_matches("mdns.service", "_http._tcp", &p, &n));
}

#[test]
fn event_pages() {
    assert!(events_page_query(Some("net"), 0, 0).is_none());
    assert!(events_page_query(None, -3, 0).is_none());
    let (sql, params) = events_page_query(Some("net"), 10, 5).unwrap();
    assert!(sql.contains("WHERE network_id = ?1"));
    assert_eq!(
        params,
        vec![SqlParam::Text("net".to_string()), SqlParam::Int(10), SqlParam::Int(5)]
    );
    let (sql, params) = events_page_query(None, 10, 5).unwrap();
    assert!(sql.ends_with("LIMIT ?1 OFFSET ?2"));
    assert_eq!(params, vec![SqlParam::Int(10), SqlParam::Int(5)]);
}
