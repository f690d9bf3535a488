use mylan::arp::parse_arp_table;
use mylan::model::{parse_ip, IpAddr};

fn lib_ip(text: &str) -> Option<IpAddr> {
    let chars: Vec<char> = text.chars().collect();
    parse_ip(&chars)
}

#[test]
fn parse_ip_reads_ipv6_forms() {
    assert_eq!(lib_ip("::"), Some(IpAddr::V6(0)));
    assert_eq!(lib_ip("::1"), Some(IpAddr::V6(1)));
    assert_eq!(
        lib_ip("fe80::1"),
        Some(IpAddr::V6(0xfe80_0000_0000_0000_0000_0000_0000_0001))
    );
    assert_eq!(
        lib_ip("::ffff:192.168.1.1"),
        Some(IpAddr::V6(0x0000_0000_0000_0000_0000_ffff_c0a8_0101))
    );
    assert_eq!(
        lib_ip("1:2:3:4:5:6:7:8"),
        Some(IpAddr::V6(0x0001_0002_0003_0004_0005_0006_0007_0008))
    );
    assert_eq!(lib_ip("192.168.1.5"), Some(IpAddr::V4(0xc0a8_0105)));
}

#[test]
fn parse_ip_rejects_malformed_ipv6() {
    for bad in [
        "1::2::3",
        "12345::",
        "1:2:3:4:5:6:7:8:9",
        "1.2.3.4::",
        ":::1",
        "::1:2:3:4:5:6:7:8",
        "1:2:3:4:5:6:7::8",
        "1:2:3:4:5:6:7",
        ":1::",
        "::g",
        "::1.2.3",
        "::1.2.3.4:5",
        "",
    ] {
        assert_eq!(lib_ip(bad), None, "{bad}");
    }
}

#[test]
fn parse_ip_ipv6_expected_values() {
    let cases: [(&str, Option<u128>); 14] = [
        ("1::", Some(0x0001_0000_0000_0000_0000_0000_0000_0000)),
        ("FE80::ABCD", Some(0xfe80_0000_0000_0000_0000_0000_0000_abcd)),
        ("::ffff:10.0.0.1", Some(0x0000_0000_0000_0000_0000_ffff_0a00_0001)),
        ("1:2:3:4:5:6:1.2.3.4", Some(0x0001_0002_0003_0004_0005_0006_0102_0304)),
        ("1:2:3:4:5:6:7::", Some(0x0001_0002_0003_0004_0005_0006_0007_0000)),
        ("::1:2:3:4:5:6:7", Some(0x0000_0001_0002_0003_0004_0005_0006_0007)),
        ("0001:0002::", Some(0x0001_0002_0000_0000_0000_0000_0000_0000)),
        ("::1.2.3.4", Some(0x0000_0000_0000_0000_0000_0000_0102_0304)),
        ("1:2:3:4:5::1.2.3.4", Some(0x0001_0002_0003_0004_0005_0000_0102_0304)),
        ("a:b:c:d:e:f:0:1", Some(0x000a_000b_000c_000d_000e_000f_0000_0001)),
        ("2001:db8::8a2e:370:7334", Some(0x2001_0db8_0000_0000_0000_8a2e_0370_7334)),
        ("1::2:3:4:5:6:7", Some(0x0001_0000_0002_0003_0004_0005_0006_0007)),
        ("1:2:3:4:5:6::1.2.3.4", None),
        ("1::2:3:4:5:6:7:8", None),
    ];
    for (text, expected) in cases {
        assert_eq!(lib_ip(text), expected.map(IpAddr::V6), "{text}");
    }
    for bad in ["00001::", "::01.2.3.4", "::1.2.3.256", ":::", "::1:", ":1", "1:", "::ffff:1.2.3.4x"] {
        assert_eq!(lib_ip(bad), None, "{bad}");
    }
    for (text, expected) in [
        ("10.0.0.1", Some(0x0a00_0001u32)),
        ("255.255.255.255", Some(0xffff_ffff)),
        ("010.0.0.1", None),
        ("10.0.0", None),
        ("256.1.1.1", None),
    ] {
        assert_eq!(lib_ip(text), expected.map(IpAddr::V4), "{text}");
    }
}

#[test]
fn arp_table_keeps_ipv6_neighbours() {
    let text = "IP address       HW type     Flags       HW address            Mask     Device\n\
                fe80::1          0x1         0x2         aa:bb:cc:dd:ee:ff     *        enp37s0\n";
    let entries = parse_arp_table(text);
    assert_eq!(entries.len(), 1);
    assert_eq!(entries[0].ip, IpAddr::V6(0xfe80_0000_0000_0000_0000_0000_0000_0001));
}
