//! Ranked catalogue of common TCP ports and the port → IANA service name map.
//!
//! [`select_ports`] returns the first `top` ports of [`COMMON_PORTS`], bounded
//! by the catalogue; [`port_to_service_name`] gives the canonical IANA name of a
//! well-known port, or `None` for ports it does not list.

use vstd::prelude::*;

verus! {

/// Ranked catalogue of the 101 most common TCP ports on home networks (ranked
/// by observed frequency, not by number). The first 32 form the quick profile.
pub const COMMON_PORTS: [u16; 101] = [
    80, 23, 443, 21, 22, 25, 3389, 110, 139, 143, 445, 53, 135, 3306, 8080, 1723, 111, 995, 993,
    5900, 1025, 587, 8888, 199, 1720, 465, 548, 113, 81, 554, 631, 873,
    5060, 5061, 2049, 515, 636, 989, 990, 5357, 49152, 49153, 49154, 49155, 49156, 1900, 2195, 5223,
    2196, 5353, 49157, 49158, 5800, 5901, 5902, 6000, 6001, 10243, 10244, 10245, 10246, 10247,
    10248, 10249, 10250, 17500, 3000, 3001, 3390, 3391, 5000, 5001, 5002, 5003, 5222, 5269, 5280,
    5298, 5355, 6379, 6443, 6667, 7000, 7001, 7777, 8000, 8001, 8008, 8081, 8082, 8443, 9000, 9090,
    9091, 9100, 9999, 10000, 27017, 27018, 27019, 32400,
];

/// The IANA service name of a well-known port, as a character sequence.
pub open spec fn service_name_of(port: u16) -> Option<Seq<char>> {
    if port == 20 { Some("ftp-data"@) }
    else if port == 21 { Some("ftp"@) }
    else if port == 22 { Some("ssh"@) }
    else if port == 23 { Some("telnet"@) }
    else if port == 25 { Some("smtp"@) }
    else if port == 53 { Some("domain"@) }
    else if port == 80 { Some("http"@) }
    else if port == 110 { Some("pop3"@) }
    else if port == 111 { Some("rpcbind"@) }
    else if port == 113 { Some("ident"@) }
    else if port == 135 { Some("msrpc"@) }
    else if port == 139 { Some("netbios-ssn"@) }
    else if port == 143 { Some("imap"@) }
    else if port == 443 { Some("https"@) }
    else if port == 445 { Some("microsoft-ds"@) }
    else if port == 465 { Some("submissions"@) }
    else if port == 515 { Some("printer"@) }
    else if port == 548 { Some("afp"@) }
    else if port == 554 { Some("rtsp"@) }
    else if port == 587 { Some("submission"@) }
    else if port == 631 { Some("ipp"@) }
    else if port == 636 { Some("ldaps"@) }
    else if port == 873 { Some("rsync"@) }
    else if port == 990 { Some("ftps"@) }
    else if port == 993 { Some("imaps"@) }
    else if port == 995 { Some("pop3s"@) }
    else if port == 1720 { Some("h323hostcall"@) }
    else if port == 1723 { Some("pptp"@) }
    else if port == 199 { Some("smux"@) }
    else if port == 2049 { Some("nfs"@) }
    else if port == 3000 || port == 3001 { Some("http-alt"@) }
    else if port == 3306 { Some("mysql"@) }
    else if 3389 <= port <= 3391 { Some("ms-wbt-server"@) }
    else if 5000 <= port <= 5003 { Some("upnp"@) }
    else if port == 5060 { Some("sip"@) }
    else if port == 5061 { Some("sips"@) }
    else if port == 5222 { Some("xmpp-client"@) }
    else if port == 5269 { Some("xmpp-server"@) }
    else if port == 5353 { Some("mdns"@) }
    else if port == 5355 { Some("llmnr"@) }
    else if port == 5357 { Some("wsdapi"@) }
    else if port == 5800 { Some("vnc-http"@) }
    else if 5900 <= port <= 5902 { Some("vnc"@) }
    else if port == 6000 || port == 6001 { Some("x11"@) }
    else if port == 6379 { Some("redis"@) }
    else if port == 6443 { Some("kubernetes"@) }
    else if port == 6667 { Some("irc"@) }
    else if port == 7000 || port == 7001 { Some("afs3-fileserver"@) }
    else if port == 7777 { Some("http-alt"@) }
    else if port == 8000 || port == 8001 || port == 8008 || port == 8080 || port == 8081
        || port == 8082 || port == 8888 { Some("http-alt"@) }
    else if port == 8443 { Some("https-alt"@) }
    else if port == 9000 || port == 9090 || port == 9091 { Some("http-alt"@) }
    else if port == 9100 { Some("jetdirect"@) }
    else if port == 9999 { Some("http-alt"@) }
    else if port == 10000 { Some("snet-sensor"@) }
    else if port == 17500 { Some("db4o"@) }
    else if port == 1900 { Some("ssdp"@) }
    else if port == 2195 || port == 2196 { Some("apns"@) }
    else if 27017 <= port <= 27019 { Some("mongodb"@) }
    else if port == 32400 { Some("plex"@) }
    else if 49152 <= port <= 49158 { Some("unknown"@) }
    else { None }
}

/// IANA service name of a well-known port, if it has one.
///
/// It is only an initial label, which fingerprinting may refine from the banner.
/// Ports outside the map give `None` (which says nothing of open or closed).
pub fn port_to_service_name(port: u16) -> (r: Option<&'static str>)
    ensures
        match r {
            Some(name) => service_name_of(port) == Some(name@),
            None => service_name_of(port) is None,
        },
{
    match port {
        20 => Some("ftp-data"),
        21 => Some("ftp"),
        22 => Some("ssh"),
        23 => Some("telnet"),
        25 => Some("smtp"),
        53 => Some("domain"),
        80 => Some("http"),
        110 => Some("pop3"),
        111 => Some("rpcbind"),
        113 => Some("ident"),
        135 => Some("msrpc"),
        139 => Some("netbios-ssn"),
        143 => Some("imap"),
        443 => Some("https"),
        445 => Some("microsoft-ds"),
        465 => Some("submissions"),
        515 => Some("printer"),
        548 => Some("afp"),
        554 => Some("rtsp"),
        587 => Some("submission"),
        631 => Some("ipp"),
        636 => Some("ldaps"),
        873 => Some("rsync"),
        990 => Some("ftps"),
        993 => Some("imaps"),
        995 => Some("pop3s"),
        1720 => Some("h323hostcall"),
        1723 => Some("pptp"),
        199 => Some("smux"),
        2049 => Some("nfs"),
        3000 | 3001 => Some("http-alt"),
        3306 => Some("mysql"),
        3389..=3391 => Some("ms-wbt-server"),
        5000..=5003 => Some("upnp"),
        5060 => Some("sip"),
        5061 => Some("sips"),
        5222 => Some("xmpp-client"),
        5269 => Some("xmpp-server"),
        5353 => Some("mdns"),
        5355 => Some("llmnr"),
        5357 => Some("wsdapi"),
        5800 => Some("vnc-http"),
        5900..=5902 => Some("vnc"),
        6000 | 6001 => Some("x11"),
        6379 => Some("redis"),
        6443 => Some("kubernetes"),
        6667 => Some("irc"),
        7000 | 7001 => Some("afs3-fileserver"),
        7777 => Some("http-alt"),
        8000 | 8001 | 8008 | 8080 | 8081 | 8082 | 8888 => Some("http-alt"),
        8443 => Some("https-alt"),
        9000 | 9090 | 9091 => Some("http-alt"),
        9100 => Some("jetdirect"),
        9999 => Some("http-alt"),
        10000 => Some("snet-sensor"),
        17500 => Some("db4o"),
        1900 => Some("ssdp"),
        2195 | 2196 => Some("apns"),
        27017..=27019 => Some("mongodb"),
        32400 => Some("plex"),
        49152..=49158 => Some("unknown"),
        _ => None,
    }
}

/// How many catalogue ports a request for the top `top` ports selects.
pub open spec fn selection_len(top: u16) -> nat {
    if (top as nat) < 101 {
        top as nat
    } else {
        101
    }
}

/// The ports that [`select_ports`] returns for `top`.
pub open spec fn selected_ports(top: u16) -> Seq<u16> {
    COMMON_PORTS@.take(selection_len(top) as int)
}

/// The first `top` ports of [`COMMON_PORTS`], in ranking order.
///
/// `top` is bounded by the catalogue size; `top == 0` gives an empty list.
pub fn select_ports(top: u16) -> (r: Vec<u16>)
    ensures
        r@ == selected_ports(top),
        r@.len() == selection_len(top),
{
    let max: usize = if (top as usize) < COMMON_PORTS.len() {
        top as usize
    } else {
        COMMON_PORTS.len()
    };
    let mut r: Vec<u16> = Vec::new();
    let mut i: usize = 0;
    while i < max
        invariant
            max == selection_len(top),
            max <= 101,
            i <= max,
            r@ == COMMON_PORTS@.take(i as int),
        decreases max - i,
    {
        r.push(COMMON_PORTS[i]);
        i = i + 1;
        assert(r@ =~= COMMON_PORTS@.take(i as int));
    }
    r
}

/// No port appears twice in the catalogue, so a selection never probes a
/// port twice.
pub proof fn lemma_common_ports_unique()
    ensures
        forall|i: int, j: int|
            0 <= i < j < 101 ==> COMMON_PORTS@[i] != COMMON_PORTS@[j],
{
}

/// Asking for more ports never drops one: a smaller selection is a prefix of
/// a larger one.
pub proof fn lemma_selection_prefix(a: u16, b: u16)
    requires
        a <= b,
    ensures
        selected_ports(b).take(selection_len(a) as int) == selected_ports(a),
{
    assert(selected_ports(b).take(selection_len(a) as int) =~= selected_ports(a));
}

} // verus!
