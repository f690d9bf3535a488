use mylan::codec::{ip_from_db, InvalidIp};
use mylan::model::{DeviceType, EventType, IpAddr, Protocol, ScanKind, ScanProfile, ScanStatus, ServiceState, Severity};
use mylan::rows::{
    decode_device, decode_event, decode_scan_names, decode_service, decode_service_export,
    DecodeError, DeviceColumns, EventColumns, ServiceColumns, ServiceExportColumns,
};

fn device_row() -> DeviceColumns {
    DeviceColumns {
        id: "dev-1".to_string(),
        network_id: "net-1".to_string(),
        primary_mac: Some("aa:bb:cc:dd:ee:ff".to_string()),
        primary_ip: Some("192.168.1.10".to_string()),
        hostname: Some("cam".to_string()),
        display_name: None,
        vendor: Some("Acme".to_string()),
        manufacturer: None,
        model: None,
        device_type: "camera".to_string(),
        os_family: None,
        confidence: 75,
        first_seen_at: "2026-01-01T00:00:00Z".to_string(),
        last_seen_at: "2026-01-02T00:00:00Z".to_string(),
        is_trusted: 1,
        is_hidden: 0,
        notes: Some("n".to_string()),
        is_online: 2,
    }
}

#[test]
fn decode_device_reads_every_column() {
    let d = decode_device(device_row()).unwrap();
    assert_eq!(d.id, "dev-1");
    assert_eq!(d.primary_mac.unwrap().octets(), [0xaa, 0xbb, 0xcc, 0xdd, 0xee, 0xff]);
    assert_eq!(d.primary_ip, Some(IpAddr::V4(0xc0a8_010a)));
    assert_eq!(d.device_type, DeviceType::Camera);
    assert_eq!(d.confidence.score(), 75);
    assert!(d.is_trusted);
    assert!(!d.is_hidden);
    assert!(d.is_online);
    assert_eq!(d.notes.as_deref(), Some("n"));
}

#[test]
fn decode_device_errors_in_column_order() {
    let mut row = device_row();
    row.primary_mac = Some("zz".to_string());
    row.primary_ip = Some("nope".to_string());
    assert_eq!(decode_device(row).unwrap_err(), DecodeError::InvalidMac);

    let mut row = device_row();
    row.primary_ip = Some("nope".to_string());
    row.device_type = "robot".to_string();
    assert_eq!(decode_device(row).unwrap_err(), DecodeError::InvalidIp);

    let mut row = device_row();
    row.device_type = "robot".to_string();
    assert_eq!(decode_device(row).unwrap_err(), DecodeError::UnknownName);
}

#[test]
fn decode_device_out_of_range_confidence_reads_zero() {
    let mut row = device_row();
    row.confidence = 300;
    row.primary_mac = None;
    row.primary_ip = Some("fe80::1".to_string());
    let d = decode_device(row).unwrap();
    assert_eq!(d.confidence.score(), 0);
    assert_eq!(d.primary_mac, None);
    assert_eq!(d.primary_ip, Some(IpAddr::V6(0xfe80_0000_0000_0000_0000_0000_0000_0001)));
}

#[test]
fn decode_service_and_export() {
    let row = ServiceColumns {
        id: "s".to_string(),
        device_id: "d".to_string(),
        protocol: "udp".to_string(),
        port: 70000,
        service_name: None,
        product: None,
        version: None,
        banner: None,
        state: "filtered".to_string(),
        first_seen_at: "a".to_string(),
        last_seen_at: "b".to_string(),
    };
    let s = decode_service(row.clone()).unwrap();
    assert_eq!(s.protocol, Protocol::Udp);
    assert_eq!(s.port, 0);
    assert_eq!(s.state, ServiceState::Filtered);
    let mut bad = row;
    bad.state = "half-open".to_string();
    assert_eq!(decode_service(bad).unwrap_err(), DecodeError::UnknownName);

    let export = ServiceExportColumns {
        device_id: "d".to_string(),
        device_ip: Some("10.0.0.2".to_string()),
        display_name: None,
        protocol: "tcp".to_string(),
        port: 443,
        service_name: Some("https".to_string()),
        product: None,
        version: None,
        banner: None,
        state: "open".to_string(),
        first_seen_at: "a".to_string(),
        last_seen_at: "b".to_string(),
    };
    let x = decode_service_export(export.clone()).unwrap();
    assert_eq!(x.device_ip, Some(IpAddr::V4(0x0a00_0002)));
    assert_eq!(x.port, 443);
    let mut bad_ip = export;
    bad_ip.device_ip = Some("10.0.0".to_string());
    bad_ip.protocol = "sctp".to_string();
    assert_eq!(decode_service_export(bad_ip).unwrap_err(), DecodeError::InvalidIp);
}

#[test]
fn decode_event_and_scan_names() {
    let row = EventColumns {
        id: "e".to_string(),
        network_id: "n".to_string(),
        device_id: None,
        event_type: "device_ip_changed".to_string(),
        severity: "warning".to_string(),
        message: None,
        data_json: None,
        created_at: "t".to_string(),
    };
    let e = decode_event(row.clone()).unwrap();
    assert_eq!(e.event_type, EventType::DeviceIpChanged);
    assert_eq!(e.severity, Severity::Warning);
    let mut bad = row;
    bad.severity = "fatal".to_string();
    assert_eq!(decode_event(bad).unwrap_err(), DecodeError::UnknownName);

    assert_eq!(
        decode_scan_names("ports", "deep", "completed"),
        Ok((ScanKind::Ports, ScanProfile::Deep, ScanStatus::Completed))
    );
    assert_eq!(decode_scan_names("ports", "turbo", "completed"), Err(DecodeError::UnknownName));
}

#[test]
fn ip_column_round_trip() {
    assert_eq!(ip_from_db(Some("192.168.1.5")), Ok(Some(IpAddr::V4(0xc0a8_0105))));
    assert_eq!(ip_from_db(None), Ok(None));
    assert_eq!(ip_from_db(Some("nope")), Err(InvalidIp));
}
