use mylan::probes::{
    parse_banner, parse_header, parse_status, parse_title, probe_kind, split_product_version,
    to_service_with_probe, to_udp_service, trim_banner, PortHit, ProbeKind, ProbeResult,
};
use mylan::model::{Protocol, ServiceState};

#[test]
fn parse_title_is_case_insensitive() {
    let body = "<html><TITLE>  Hello World  </TITLE></html>";
    assert_eq!(parse_title(body).as_deref(), Some("Hello World"));
}

#[test]
fn parse_header_is_case_insensitive() {
    let body = "HTTP/1.0 200 OK\r\nserver: nginx\r\n\r\n";
    assert_eq!(parse_header(body, "Server").as_deref(), Some("nginx"));
}

#[test]
fn parse_status_handles_http_and_rtsp() {
    let (code, line) = parse_status("HTTP/1.1 301 Moved Permanently\r\nServer: x");
    assert_eq!(code.as_deref(), Some("301"));
    assert_eq!(line.as_deref(), Some("HTTP/1.1 301 Moved Permanently"));
    let (code, _) = parse_status("RTSP/1.0 200 OK\r\n");
    assert_eq!(code.as_deref(), Some("200"));
}

#[test]
fn parse_status_of_other_first_line_keeps_line_only() {
    assert_eq!(parse_status("SSH-2.0-x\r\n"), (None, Some("SSH-2.0-x".to_string())));
    assert_eq!(parse_status(""), (None, None));
}

#[test]
fn parse_title_absent_or_blank_is_none() {
    assert_eq!(parse_title("<html><body>x</body></html>"), None);
    assert_eq!(parse_title("<title>   </title>"), None);
    assert_eq!(parse_title("<title lang=\"en\">Router</title>").as_deref(), Some("Router"));
}

#[test]
fn parse_banner_ssh_splits_product_version() {
    let pr = parse_banner(22, "SSH-2.0-OpenSSH_8.9");
    assert_eq!(pr.product.as_deref(), Some("OpenSSH"));
    assert_eq!(pr.version.as_deref(), Some("8.9"));
}

#[test]
fn parse_banner_ftp_keeps_raw_banner() {
    let pr = parse_banner(21, "220 (vsFTPd 3.0.5)");
    assert_eq!(pr.product, None);
    assert_eq!(pr.version, None);
    assert_eq!(pr.banner.as_deref(), Some("220 (vsFTPd 3.0.5)"));
}

#[test]
fn split_product_version_falls_back_to_space_then_whole() {
    assert_eq!(
        split_product_version("dropbear 2022.83"),
        (Some("dropbear".to_string()), Some("2022.83".to_string()))
    );
    assert_eq!(split_product_version("lighttpd"), (Some("lighttpd".to_string()), None));
}

#[test]
fn trim_handles_nul_and_whitespace() {
    assert_eq!(trim_banner(b"HTTP/1.1 200 OK\r\n"), Some("HTTP/1.1 200 OK".into()));
    assert_eq!(trim_banner(b"banner\x00garbage"), Some("banner".into()));
    assert_eq!(trim_banner(b"   \r\n\t  "), None);
    assert_eq!(trim_banner(b""), None);
    assert_eq!(trim_banner(b"\x00"), None);
    assert_eq!(trim_banner(&[0xFF, 0xFE, b'x']), None);
}

#[test]
fn probe_hit_enriches_service() {
    let svc = to_service_with_probe(PortHit {
        port: 80,
        banner: Some("pasivo".into()),
        probe: Some(ProbeResult {
            product: Some("nginx".into()),
            version: Some("1.2.3".into()),
            banner: Some("MyPage".into()),
        }),
    });
    assert_eq!(svc.product.as_deref(), Some("nginx"));
    assert_eq!(svc.version.as_deref(), Some("1.2.3"));
    assert_eq!(svc.banner.as_deref(), Some("MyPage"));
    assert_eq!(svc.state, ServiceState::Open);
}

#[test]
fn probe_hit_without_probe_falls_back_to_banner() {
    let svc = to_service_with_probe(PortHit {
        port: 22,
        banner: Some("SSH-2.0-x".into()),
        probe: None,
    });
    assert_eq!(svc.product, None);
    assert_eq!(svc.version, None);
    assert_eq!(svc.banner.as_deref(), Some("SSH-2.0-x"));
    assert_eq!(svc.service_name.as_deref(), Some("ssh"));
}

#[test]
fn udp_service_carries_state_and_name() {
    let svc = to_udp_service(53, ServiceState::Filtered);
    assert_eq!(svc.protocol, Protocol::Udp);
    assert_eq!(svc.state, ServiceState::Filtered);
    assert_eq!(svc.service_name.as_deref(), Some("domain"));
    assert!(svc.id.is_empty());
}

#[test]
fn ports_without_probe_return_none() {
    assert_eq!(probe_kind(3389), ProbeKind::Nothing);
    assert_eq!(probe_kind(8443), ProbeKind::Http);
    assert_eq!(probe_kind(554), ProbeKind::Rtsp);
    assert_eq!(probe_kind(143), ProbeKind::Banner);
}
