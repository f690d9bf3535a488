use mylan::dns::{filter_family, parse_record_type, records_from, trim_trailing_dots, DnsQuery};
use mylan::errors::DiscoveryError;
use mylan::icmp::{build_echo, echo_id, reply_matches, sweep_reply_matches, ECHO_REPLY_V4};
use mylan::iface::LanInterface;
use mylan::mdns::{insert_service_type, push_resolved, wants_more_types, MAX_SERVICE_TYPES};
use mylan::model::{IpAddr, MacAddr, Source};
use mylan::ping::{ping_stats, probe_count, PingMethod};
use mylan::probes::{udp_state, UdpReply};
use mylan::model::ServiceState;
use mylan::tcp_ping::{stream_start, sweep_progress, sweep_total, tcp_observation, DiscoveryEvent};
use mylan::traceroute::{hop_limit, hop_outcome, probe_port, trace_continues, trace_target, HopReply};

#[test]
fn record_types_are_case_and_space_insensitive() {
    assert_eq!(parse_record_type("").unwrap(), DnsQuery::Dual);
    assert_eq!(parse_record_type(" a+aaaa ").unwrap(), DnsQuery::Dual);
    assert_eq!(parse_record_type("any").unwrap(), DnsQuery::Dual);
    assert_eq!(parse_record_type("a").unwrap(), DnsQuery::A);
    assert_eq!(parse_record_type("AAAA").unwrap(), DnsQuery::Aaaa);
    assert_eq!(parse_record_type("mx").unwrap(), DnsQuery::Mx);
    assert_eq!(parse_record_type("Txt").unwrap(), DnsQuery::Txt);
    assert_eq!(parse_record_type("ptr").unwrap(), DnsQuery::Ptr);
}

#[test]
fn unsupported_record_type_is_error() {
    match parse_record_type("srv") {
        Err(DiscoveryError::Dns(m)) => {
            assert!(m.contains("no soportado"), "mensaje: {m}");
            assert_eq!(m, "tipo de registro no soportado: 'SRV' (usar A|AAAA|PTR|MX|TXT)");
        }
        other => panic!("unexpected {other:?}"),
    }
}

#[test]
fn family_filter_and_ptr_names() {
    let ips = vec![IpAddr::V4(0x7f000001), IpAddr::V6(1), IpAddr::V4(1)];
    assert_eq!(filter_family(&ips, true, false), vec![IpAddr::V4(0x7f000001), IpAddr::V4(1)]);
    assert_eq!(filter_family(&ips, false, true), vec![IpAddr::V6(1)]);
    assert_eq!(filter_family(&ips, true, true), ips);
    assert_eq!(trim_trailing_dots("localhost."), "localhost");
    assert_eq!(trim_trailing_dots("a.b.."), "a.b");
    assert_eq!(trim_trailing_dots("..."), "");
}

#[test]
fn records_keep_answers_with_values() {
    let r = records_from(
        "localhost",
        "A",
        vec![(Some("127.0.0.1".to_string()), 30), (None, 5), (Some("127.0.0.2".to_string()), 7)],
    );
    assert_eq!(r.len(), 2);
    assert_eq!(r[0].name, "localhost");
    assert_eq!(r[0].record_type, "A");
    assert_eq!(r[1].value, "127.0.0.2");
    assert_eq!(r[1].ttl, 7);
}

#[test]
fn traceroute_decisions() {
    assert!(matches!(trace_target(IpAddr::V6(1)), Err(DiscoveryError::Dns(m)) if m.contains("IPv6")));
    assert_eq!(trace_target(IpAddr::V4(0x7f000001)).unwrap(), 0x7f000001);
    assert_eq!(hop_limit(0), 1);
    assert_eq!(hop_limit(30), 30);
    assert_eq!(probe_port(1), 33435);
    let (ip, lat, state, reached) = hop_outcome(HopReply::Got(IpAddr::V4(1), 3, 3), 12);
    assert_eq!((ip, lat, state.as_str(), reached), (Some(IpAddr::V4(1)), Some(12), "reached", true));
    assert_eq!(hop_outcome(HopReply::Got(IpAddr::V4(1), 11, 0), 5).2, "time-exceeded");
    assert_eq!(hop_outcome(HopReply::Got(IpAddr::V4(1), 3, 1), 5).2, "icmp 3/1");
    let (ip, lat, state, reached) = hop_outcome(HopReply::Timeout, 1000);
    assert_eq!((ip, lat, state.as_str(), reached), (None, None, "*", false));
    assert_eq!(hop_outcome(HopReply::Error, 1).2, "error");
    assert!(trace_continues(1, 8, false));
    assert!(!trace_continues(1, 8, true));
    assert!(!trace_continues(8, 8, false));
}

#[test]
fn ping_stats_summarise_probes() {
    let s = ping_stats(IpAddr::V4(1), 4, 2, &[10, 21], PingMethod::Icmp);
    assert!(s.reachable);
    assert_eq!(s.latency_ms, Some(15));
    assert_eq!((s.packets_sent, s.packets_received), (4, 2));
    let none = ping_stats(IpAddr::V4(1), 2, 0, &[], PingMethod::TcpConnect);
    assert!(!none.reachable);
    assert_eq!(none.latency_ms, None);
    assert_eq!(probe_count(0), 1);
    assert_eq!(probe_count(4), 4);
}

#[test]
fn echo_replies_are_matched_by_id_and_sequence() {
    let reply = build_echo(ECHO_REPLY_V4, 0x1234, 7);
    assert!(sweep_reply_matches(&reply, 0x1234));
    assert!(!sweep_reply_matches(&reply, 0x1235));
    assert!(reply_matches(&reply, ECHO_REPLY_V4, 0x1234, 7));
    assert!(!reply_matches(&reply, ECHO_REPLY_V4, 0x1234, 8));
    assert!(!reply_matches(&reply[..7], ECHO_REPLY_V4, 0x1234, 7));
    assert_eq!(echo_id(0), 1);
    assert_eq!(echo_id(65535), 0);
    assert_eq!(echo_id(70000), ((70000u32 % 65536) + 1) as u16);
}

#[test]
fn mdns_resolved_service_gives_one_observation_per_address() {
    let mut out = Vec::new();
    push_resolved(&mut out, "_http._tcp.local.", "nas._http._tcp.local.", "nas.local.", &[IpAddr::V4(1), IpAddr::V6(2)]);
    push_resolved(&mut out, "_ipp._tcp.local.", "p._ipp._tcp.local.", "", &[IpAddr::V4(3)]);
    assert_eq!(out.len(), 3);
    assert_eq!(out[0].source, Source::Mdns);
    assert_eq!(out[1].ip, Some(IpAddr::V6(2)));
    assert_eq!(out[0].hostname.as_deref(), Some("nas.local."));
    assert_eq!(out[2].hostname, None);
    assert_eq!(
        out[2].hints,
        vec![
            ("mdns.service".to_string(), "_ipp._tcp.local.".to_string()),
            ("mdns.instance".to_string(), "p._ipp._tcp.local.".to_string()),
        ]
    );
}

#[test]
fn mdns_service_types_are_a_bounded_set() {
    let mut types: Vec<String> = Vec::new();
    assert!(insert_service_type(&mut types, "_http._tcp.local.".to_string()));
    assert!(!insert_service_type(&mut types, "_http._tcp.local.".to_string()));
    assert_eq!(types.len(), 1);
    assert!(wants_more_types(&types));
    for i in 0..MAX_SERVICE_TYPES {
        insert_service_type(&mut types, format!("_t{i}._tcp.local."));
    }
    assert!(!wants_more_types(&types));
}

#[test]
fn tcp_sweep_observation_and_progress() {
    let o = tcp_observation(0x0a000001, 443);
    assert_eq!(o.source, Source::TcpPing);
    assert_eq!(o.ip, Some(IpAddr::V4(0x0a000001)));
    assert_eq!(o.hints, vec![("tcp.ports".to_string(), "443".to_string())]);
    assert!(matches!(sweep_progress(8, 254), Some(DiscoveryEvent::Progress { swept: 8, total: 254 })));
    assert!(sweep_progress(9, 254).is_none());
    assert!(sweep_progress(254, 254).is_some());
}

#[test]
fn stream_opens_with_progress_and_gateway() {
    let iface = LanInterface {
        name: "enp37s0".to_string(),
        ip: 0xc0a80103,
        prefix_len: 24,
        mac: None,
        gateway_ip: Some(IpAddr::V4(0xc0a80101)),
        gateway_mac: Some(MacAddr::parse("aa:bb:cc:dd:ee:ff").unwrap()),
        dns_servers: Vec::new(),
        ssid: None,
    };
    assert_eq!(sweep_total(&iface), 254);
    let ev = stream_start(&iface);
    assert_eq!(ev.len(), 2);
    assert!(matches!(ev[0], DiscoveryEvent::Progress { swept: 0, total: 254 }));
    match &ev[1] {
        DiscoveryEvent::Host(o) => assert_eq!(o.ip, Some(IpAddr::V4(0xc0a80101))),
        other => panic!("unexpected {other:?}"),
    }
}

#[test]
fn udp_replies_map_to_states() {
    assert_eq!(udp_state(UdpReply::Answered), ServiceState::Open);
    assert_eq!(udp_state(UdpReply::Refused), ServiceState::Closed);
    assert_eq!(udp_state(UdpReply::Silent), ServiceState::Filtered);
}
