use mylan::aggregate::aggregate;
use mylan::arp::{arp_entries_to_observations, parse_arp_table, ArpEntry};
use mylan::iface::{
    default_or_alternative, gateway_observations, interface_by_name, is_filtered_name,
    lan_interface_from, pick_alternative, resolve_gateway_mac, LanInterface, NetGateway,
    NetInterface,
};
use mylan::model::{parse_ip, IpAddr, MacAddr, Observation, Source};
use mylan::netutil::enumerate_hosts;
use mylan::sightings::Sightings;
use mylan::ssdp::{parse_header, parse_location_ip, ssdp_observation};
use mylan::sudo::{arp_reply_sighting, build_arp_request, parse_arp_reply};
use mylan::errors::DiscoveryError;

fn ip4(s: &str) -> u32 {
    let c: Vec<char> = s.chars().collect();
    match parse_ip(&c) {
        Some(IpAddr::V4(a)) => a,
        _ => panic!("not an IPv4 address: {s}"),
    }
}

fn ip(s: &str) -> IpAddr {
    IpAddr::V4(ip4(s))
}

fn mac(s: &str) -> MacAddr {
    MacAddr::parse(s).unwrap()
}

const SAMPLE: &str =
    "IP address       HW type     Flags       HW address            Mask     Device\n\
192.168.1.1      0x1         0x2         aa:bb:cc:dd:ee:ff     *        enp37s0\n\
192.168.1.5      0x1         0x2         00:1c:c4:11:22:33     *        enp37s0\n\
192.168.1.9      0x1         0x0         00:00:00:00:00:00     *        enp37s0\n\
10.0.0.2         0x1         0x2         11:22:33:44:55:66     *        docker0\n";

#[test]
fn parses_valid_entries() {
    let entries = parse_arp_table(SAMPLE);
    assert_eq!(entries.len(), 4);
    assert_eq!(entries[0].ip, ip("192.168.1.1"));
    assert_eq!(entries[0].mac, Some(mac("aa:bb:cc:dd:ee:ff")));
    assert_eq!(entries[0].device, "enp37s0");
    assert_eq!(entries[2].mac, None);
    assert_eq!(entries[3].device, "docker0");
}

#[test]
fn skips_header_and_blank_lines() {
    let text =
        "IP address       HW type     Flags       HW address            Mask     Device\n\n\
192.168.1.1      0x1         0x2         aa:bb:cc:dd:ee:ff     *        enp37s0\n";
    let entries = parse_arp_table(text);
    assert_eq!(entries.len(), 1);
    assert_eq!(entries[0].ip, ip("192.168.1.1"));
}

#[test]
fn discards_malformed_lines() {
    let text = "garbage line with no mac\n\
not an ip        0x1         0x2         aa:bb:cc:dd:ee:ff     *        enp37s0\n\
192.168.1.2      0x1         0x2         zz:bb:cc:dd:ee:ff     *        enp37s0\n\
192.168.1.3      0x1         0x2         aa:bb:cc:dd:ee:ff     *        enp37s0\n";
    let entries = parse_arp_table(text);
    assert_eq!(entries.len(), 1);
    assert_eq!(entries[0].ip, ip("192.168.1.3"));
}

#[test]
fn handles_star_mac_field() {
    let text = "192.168.1.50     0x1         0x0         *                    *        enp37s0\n";
    let entries = parse_arp_table(text);
    assert_eq!(entries.len(), 1);
    assert_eq!(entries[0].mac, None);
}

#[test]
fn observations_filter_by_interface() {
    let entries = parse_arp_table(SAMPLE);
    let obs = arp_entries_to_observations(&entries, Some("enp37s0"));
    assert_eq!(obs.len(), 2);
    assert!(obs.iter().all(|o| o.source == Source::ArpCache));
    assert!(!obs.iter().any(|o| o.ip == Some(ip("10.0.0.2"))));
}

#[test]
fn observations_exclude_incomplete_entries() {
    let entries = parse_arp_table(SAMPLE);
    let obs = arp_entries_to_observations(&entries, None);
    assert!(obs.iter().all(|o| o.mac.is_some()));
    assert!(!obs.iter().any(|o| o.ip == Some(ip("192.168.1.9"))));
    assert_eq!(obs.len(), 3);
}

#[test]
fn empty_input_yields_empty() {
    assert!(parse_arp_table("").is_empty());
}

#[test]
fn arp_line_with_colon_in_last_field_is_skipped() {
    let text = "192.168.1.7 0x1 0x2 aa:bb:cc:dd:ee:01\n";
    assert!(parse_arp_table(text).is_empty());
}

#[test]
fn arp_line_with_crlf_endings_parses() {
    let text = "192.168.1.8 0x1 0x2 aa:bb:cc:dd:ee:02 * wlan0\r\n";
    let entries = parse_arp_table(text);
    assert_eq!(entries.len(), 1);
    assert_eq!(entries[0].device, "wlan0");
}

#[test]
fn filters_known_non_lan_names() {
    assert!(is_filtered_name("lo"));
    assert!(is_filtered_name("docker0"));
    assert!(is_filtered_name("tailscale0"));
    assert!(is_filtered_name("docker123"));
    assert!(!is_filtered_name("enp37s0"));
    assert!(!is_filtered_name("eth0"));
    assert!(!is_filtered_name("wlan0"));
}

#[test]
fn filtered_prefixes_cover_tunnels_and_bridges() {
    assert!(is_filtered_name("tun5"));
    assert!(is_filtered_name("wg1"));
    assert!(is_filtered_name("virbr1"));
    assert!(is_filtered_name("br-1234"));
    assert!(is_filtered_name("br0"));
    assert!(!is_filtered_name("br1"));
    assert!(!is_filtered_name("lo1"));
}

fn lan(ip_text: &str, prefix_len: u8) -> LanInterface {
    LanInterface {
        name: "enp37s0".to_string(),
        ip: ip4(ip_text),
        prefix_len,
        mac: None,
        gateway_ip: None,
        gateway_mac: None,
        dns_servers: Vec::new(),
        ssid: None,
    }
}

#[test]
fn cidr_format() {
    let iface = lan("192.168.1.3", 24);
    assert_eq!(iface.cidr(), "192.168.1.3/24");
}

#[test]
fn self_observation_carries_address_and_mac() {
    let mut iface = lan("192.168.1.3", 24);
    iface.mac = Some(mac("aa:bb:cc:dd:ee:ff"));
    let o = iface.self_observation();
    assert_eq!(o.source, Source::ArpCache);
    assert_eq!(o.ip, Some(ip("192.168.1.3")));
    assert_eq!(o.mac, Some(mac("aa:bb:cc:dd:ee:ff")));
}

#[test]
fn resolve_gateway_mac_finds_match() {
    let gw = ip("192.168.1.1");
    let m = mac("aa:bb:cc:dd:ee:ff");
    let arp = vec![ArpEntry { ip: gw, mac: Some(m), device: "enp37s0".into() }];
    assert_eq!(resolve_gateway_mac(Some(gw), &arp), Some(m));
    assert_eq!(resolve_gateway_mac(Some(gw), &[]), None);
    assert_eq!(resolve_gateway_mac(None, &arp), None);
}

#[test]
fn gateway_observations_empty_without_ip() {
    assert!(gateway_observations(None, None).is_empty());
}

#[test]
fn gateway_observations_with_ip_and_mac() {
    let gw = ip("192.168.1.1");
    let m = mac("aa:bb:cc:dd:ee:ff");
    let obs = gateway_observations(Some(gw), Some(m));
    assert_eq!(obs.len(), 1);
    assert_eq!(obs[0].ip, Some(gw));
    assert_eq!(obs[0].mac, Some(m));
}

#[test]
fn gateway_observations_drop_zero_mac() {
    let obs = gateway_observations(Some(ip("192.168.1.1")), Some(mac("00:00:00:00:00:00")));
    assert_eq!(obs.len(), 1);
    assert_eq!(obs[0].mac, None);
}

#[test]
fn gateway_seed_produces_one_observation() {
    let mut iface = lan("192.168.1.3", 24);
    iface.gateway_ip = Some(ip("192.168.1.1"));
    iface.gateway_mac = Some(mac("aa:bb:cc:dd:ee:ff"));
    let seed = gateway_observations(iface.gateway_ip, iface.gateway_mac);
    assert_eq!(seed.len(), 1);
}

fn net_iface(name: &str, ipv4: Vec<(u32, u8)>, gateway: bool) -> NetInterface {
    NetInterface {
        name: name.to_string(),
        ipv4,
        mac: Some(mac("02:00:00:00:00:01")),
        gateway: if gateway {
            Some(NetGateway { ipv4: vec![ip4("192.168.1.1")], mac: mac("aa:bb:cc:dd:ee:ff") })
        } else {
            None
        },
        dns_servers: vec![ip("192.168.1.1")],
    }
}

#[test]
fn interface_conversion_keeps_fields_and_drops_zero_gateway_mac() {
    let mut i = net_iface("enp37s0", vec![(ip4("192.168.1.3"), 24)], true);
    i.gateway.as_mut().unwrap().mac = mac("00:00:00:00:00:00");
    let l = lan_interface_from(i).unwrap();
    assert_eq!(l.name, "enp37s0");
    assert_eq!(l.ip, ip4("192.168.1.3"));
    assert_eq!(l.prefix_len, 24);
    assert_eq!(l.gateway_ip, Some(ip("192.168.1.1")));
    assert_eq!(l.gateway_mac, None);
    assert_eq!(l.ssid, None);
}

#[test]
fn interface_conversion_errors() {
    assert!(matches!(
        lan_interface_from(net_iface("docker0", vec![(1, 24)], false)),
        Err(DiscoveryError::NoDefaultInterface)
    ));
    assert!(matches!(
        lan_interface_from(net_iface("eth0", vec![], false)),
        Err(DiscoveryError::NoIpv4 { .. })
    ));
    assert!(matches!(
        lan_interface_from(net_iface("eth0", vec![(1, 33)], false)),
        Err(DiscoveryError::NoIpv4 { .. })
    ));
}

#[test]
fn alternative_prefers_last_usable_with_gateway() {
    let all = vec![
        net_iface("eth0", vec![(ip4("10.0.0.2"), 8)], true),
        net_iface("eth1", vec![(ip4("10.1.0.2"), 16)], false),
        net_iface("docker0", vec![(ip4("172.17.0.1"), 16)], true),
        net_iface("eth2", vec![], true),
    ];
    let l = pick_alternative(all).unwrap();
    assert_eq!(l.name, "eth0");
    let none = vec![net_iface("lo", vec![(ip4("127.0.0.1"), 8)], false)];
    assert!(matches!(pick_alternative(none), Err(DiscoveryError::NoDefaultInterface)));
    let no_gw = vec![
        net_iface("eth0", vec![(ip4("10.0.0.2"), 8)], false),
        net_iface("eth1", vec![(ip4("10.1.0.2"), 16)], false),
    ];
    assert_eq!(pick_alternative(no_gw).unwrap().name, "eth1");
}

#[test]
fn default_falls_back_when_filtered() {
    let all = vec![net_iface("wlan0", vec![(ip4("192.168.1.3"), 24)], true)];
    let d = net_iface("docker0", vec![(ip4("172.17.0.1"), 16)], false);
    assert_eq!(default_or_alternative(Ok(d), all.clone()).unwrap().name, "wlan0");
    assert!(matches!(
        default_or_alternative(Err("boom".to_string()), all.clone()),
        Err(DiscoveryError::Netdev(m)) if m == "boom"
    ));
    assert!(matches!(
        interface_by_name("eth9", all.clone()),
        Err(DiscoveryError::InterfaceNotFound(n)) if n == "eth9"
    ));
    assert_eq!(interface_by_name("wlan0", all).unwrap().prefix_len, 24);
}

#[test]
fn enumerates_full_24() {
    let hosts = enumerate_hosts(ip4("192.168.1.0"), 24);
    assert_eq!(hosts.len(), 254);
    assert_eq!(hosts.first().copied(), Some(ip4("192.168.1.1")));
    assert_eq!(hosts.last().copied(), Some(ip4("192.168.1.254")));
}

#[test]
fn excludes_network_and_broadcast() {
    let hosts = enumerate_hosts(ip4("10.0.0.0"), 24);
    assert!(!hosts.contains(&ip4("10.0.0.0")));
    assert!(!hosts.contains(&ip4("10.0.0.255")));
}

#[test]
fn empty_for_31_and_32() {
    assert!(enumerate_hosts(ip4("192.168.1.0"), 31).is_empty());
    assert!(enumerate_hosts(ip4("192.168.1.5"), 32).is_empty());
}

#[test]
fn invalid_prefix_returns_empty() {
    assert!(enumerate_hosts(ip4("192.168.1.0"), 40).is_empty());
}

#[test]
fn wide_prefixes_are_capped() {
    let hosts = enumerate_hosts(ip4("240.0.0.1"), 16);
    assert_eq!(hosts.len(), 4096);
    assert_eq!(hosts[0], ip4("240.0.0.1"));
    assert_eq!(enumerate_hosts(0, 0).len(), 4096);
    assert_eq!(
        enumerate_hosts(ip4("192.168.1.77"), 30),
        vec![ip4("192.168.1.77"), ip4("192.168.1.78")]
    );
}

#[test]
fn parses_location_ip_v4() {
    let resp = "HTTP/1.1 200 OK\r\nLOCATION: http://192.168.1.20:1900/desc.xml\r\nST: upnp:rootdevice\r\n\r\n";
    assert_eq!(parse_location_ip(resp), Some(ip("192.168.1.20")));
}

#[test]
fn parses_header_case_insensitive() {
    let resp = "HTTP/1.1 200 OK\r\nserver: Linux/1.0\r\n\r\n";
    assert_eq!(parse_header(resp, "SERVER"), Some("Linux/1.0".to_string()));
    assert_eq!(parse_header(resp, "st"), None);
}

#[test]
fn returns_none_without_location() {
    let resp = "HTTP/1.1 200 OK\r\nST: upnp:rootdevice\r\n\r\n";
    assert_eq!(parse_location_ip(resp), None);
}

#[test]
fn handles_location_without_port() {
    let resp = "LOCATION: http://10.0.0.5/desc.xml\r\n\r\n";
    assert_eq!(parse_location_ip(resp), Some(ip("10.0.0.5")));
}

#[test]
fn ssdp_answer_gives_observation_with_hints() {
    let resp = "HTTP/1.1 200 OK\r\nLOCATION: http://192.168.1.20:1900/desc.xml\r\nST: upnp:rootdevice\r\nSERVER: Linux/1.0 UPnP/1.0\r\n\r\n";
    let o = ssdp_observation(resp).unwrap();
    assert_eq!(o.source, Source::Ssdp);
    assert_eq!(o.ip, Some(ip("192.168.1.20")));
    assert_eq!(
        o.hints,
        vec![
            ("ssdp.st".to_string(), "upnp:rootdevice".to_string()),
            ("ssdp.server".to_string(), "Linux/1.0 UPnP/1.0".to_string()),
        ]
    );
    assert!(ssdp_observation("HTTP/1.1 200 OK\r\n\r\n").is_none());
}

#[test]
fn build_arp_request_has_correct_layout() {
    let src_mac = [0xaa, 0xbb, 0xcc, 0xdd, 0xee, 0xff];
    let frame = build_arp_request(&src_mac, ip4("10.0.0.1"), ip4("10.0.0.2"));
    assert_eq!(frame.len(), 42);
    assert_eq!(&frame[0..6], &[0xff; 6]);
    assert_eq!(&frame[6..12], &src_mac);
    assert_eq!(&frame[12..14], &[0x08, 0x06]);
    assert_eq!(&frame[20..22], &[0x00, 0x01]);
    assert_eq!(&frame[38..42], &[10, 0, 0, 2]);
}

#[test]
fn parse_arp_reply_extracts_sender() {
    let mut frame = vec![0u8; 42];
    frame[12..14].copy_from_slice(&[0x08, 0x06]);
    frame[20..22].copy_from_slice(&[0x00, 0x02]);
    frame[22..28].copy_from_slice(&[0x11, 0x22, 0x33, 0x44, 0x55, 0x66]);
    frame[28..32].copy_from_slice(&[192, 168, 1, 50]);
    let (m, a) = parse_arp_reply(&frame).expect("parses reply");
    assert_eq!(m.octets(), [0x11, 0x22, 0x33, 0x44, 0x55, 0x66]);
    assert_eq!(a, ip4("192.168.1.50"));
}

#[test]
fn parse_arp_reply_rejects_non_arp() {
    let mut frame = vec![0u8; 42];
    frame[12..14].copy_from_slice(&[0x08, 0x00]);
    assert!(parse_arp_reply(&frame).is_none());
}

#[test]
fn parse_arp_reply_rejects_request() {
    let mut frame = vec![0u8; 42];
    frame[12..14].copy_from_slice(&[0x08, 0x06]);
    frame[20..22].copy_from_slice(&[0x00, 0x01]);
    assert!(parse_arp_reply(&frame).is_none());
}

#[test]
fn own_request_is_not_a_reply_and_zero_sender_is_dropped() {
    let frame = build_arp_request(&[1, 2, 3, 4, 5, 6], ip4("10.0.0.1"), ip4("10.0.0.9"));
    assert!(parse_arp_reply(&frame).is_none());
    let mut reply = vec![0u8; 42];
    reply[12..14].copy_from_slice(&[0x08, 0x06]);
    reply[20..22].copy_from_slice(&[0x00, 0x02]);
    assert!(arp_reply_sighting(&reply).is_none());
    reply[22] = 0x02;
    let o = arp_reply_sighting(&reply).unwrap();
    assert_eq!(o.source, Source::ArpSweep);
    assert_eq!(o.ip, Some(IpAddr::V4(0)));
}

#[test]
fn aggregate_dedups_across_techniques() {
    let m = mac("aa:bb:cc:dd:ee:ff");
    let a = ip("192.168.1.5");
    let obs = vec![
        Observation::new(Source::ArpCache).with_mac(m).with_ip(a),
        Observation::new(Source::Mdns).with_mac(m).with_hostname("nas.local".to_string()),
        Observation::new(Source::TcpPing).with_ip(a),
    ];
    let agg = aggregate(&obs);
    assert_eq!(agg.len(), 1);
    let host = &agg[0];
    assert_eq!(host.mac, Some(m));
    assert_eq!(host.ip, Some(a));
    assert_eq!(host.hostname.as_deref(), Some("nas.local"));
}

#[test]
fn aggregate_promotes_ip_only_record_and_drops_anonymous() {
    let m = mac("aa:bb:cc:dd:ee:01");
    let a = ip("192.168.1.6");
    let obs = vec![
        Observation::new(Source::TcpPing).with_ip(a).with_hint("tcp.ports".to_string(), "22".to_string()),
        Observation::new(Source::Ssdp).with_hint("ssdp.st".to_string(), "upnp:rootdevice".to_string()),
        Observation::new(Source::ArpCache).with_ip(a).with_mac(m),
        Observation::new(Source::Mdns).with_mac(mac("aa:bb:cc:dd:ee:02")),
    ];
    let agg = aggregate(&obs);
    assert_eq!(agg.len(), 2);
    assert_eq!(agg[0].source, Source::TcpPing);
    assert_eq!(agg[0].mac, Some(m));
    assert_eq!(agg[0].hints, vec![("tcp.ports".to_string(), "22".to_string())]);
    assert_eq!(agg[1].mac, Some(mac("aa:bb:cc:dd:ee:02")));
}

#[test]
fn sightings_keep_one_observation_per_address() {
    let mut s = Sightings::new();
    assert!(s.offer(Observation::new(Source::Icmp).with_ip(ip("10.0.0.1"))));
    assert!(!s.offer(Observation::new(Source::Icmp).with_ip(ip("10.0.0.1"))));
    assert!(s.offer(Observation::new(Source::Icmp).with_ip(ip("10.0.0.2"))));
    let out = s.into_observations();
    assert_eq!(out.len(), 2);
    assert_eq!(out[1].ip, Some(ip("10.0.0.2")));
}
