use mylan::icmp::{build_echo, build_echo_request, checksum, id_for, seq_for, ECHO_REQUEST_V4, ECHO_REQUEST_V6};

#[test]
fn echo_request_has_correct_type_and_id() {
    let pkt = build_echo_request(0x1234, 1);
    assert_eq!(pkt.len(), 8);
    assert_eq!(pkt[0], 8);
    assert_eq!(pkt[1], 0);
    assert_eq!(u16::from_be_bytes([pkt[4], pkt[5]]), 0x1234);
    assert_eq!(u16::from_be_bytes([pkt[6], pkt[7]]), 1);
}

#[test]
fn checksum_is_not_zero_for_nonzero_data() {
    let pkt = build_echo_request(1, 1);
    let cksum = u16::from_be_bytes([pkt[2], pkt[3]]);
    assert_ne!(cksum, 0);
    let verify = checksum(&pkt);
    assert_eq!(verify, 0);
}

#[test]
fn id_for_extracts_identifier() {
    let pkt = build_echo_request(0xabcd, 5);
    assert_eq!(id_for(&pkt), Some(0xabcd));
    assert_eq!(id_for(&[0, 1, 2, 3]), None);
}

#[test]
fn echo_request_v4_has_correct_type_and_id() {
    let pkt = build_echo(ECHO_REQUEST_V4, 0x1234, 1);
    assert_eq!(pkt.len(), 8);
    assert_eq!(pkt[0], ECHO_REQUEST_V4);
    assert_eq!(u16::from_be_bytes([pkt[4], pkt[5]]), 0x1234);
    assert_eq!(u16::from_be_bytes([pkt[6], pkt[7]]), 1);
}

#[test]
fn echo_request_v6_uses_type_128() {
    let pkt = build_echo(ECHO_REQUEST_V6, 1, 9);
    assert_eq!(pkt[0], ECHO_REQUEST_V6);
    assert_eq!(seq_for(&pkt), Some(9));
}

#[test]
fn checksum_round_trips_to_zero() {
    let pkt = build_echo(ECHO_REQUEST_V4, 1, 1);
    assert_eq!(checksum(&pkt), 0);
}

#[test]
fn checksum_known_values() {
    // Type 8, id 1, seq 1: words 0x0800 + 0x0001 + 0x0001 = 0x0802 -> !0x0802.
    let pkt = build_echo(8, 1, 1);
    assert_eq!(u16::from_be_bytes([pkt[2], pkt[3]]), 0xf7fd);
    // An odd trailing byte is the high byte of a word; carries fold back.
    assert_eq!(checksum(&[0xff, 0xff, 0x00, 0x01]), 0xfffe);
    assert_eq!(checksum(&[0x01]), 0xfeff);
    assert_eq!(checksum(&[]), 0xffff);
}

#[test]
fn every_echo_packet_verifies() {
    for (t, id, seq) in [(8u8, 0u16, 0u16), (128, 0xffff, 0xffff), (0, 0x8000, 7)] {
        let pkt = build_echo(t, id, seq);
        assert_eq!(checksum(&pkt), 0);
        assert_eq!(id_for(&pkt), Some(id));
        assert_eq!(seq_for(&pkt), Some(seq));
    }
}
