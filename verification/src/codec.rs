//! Column encodings of the inventory: each enumeration is stored as its
//! `snake_case` name, hardware addresses in canonical `aa:bb:..` text and IP
//! addresses in their usual text form.

use vstd::prelude::*;

use crate::model::{
    ip_from_text, mac_from_text, mac_text, parse_ip, DeviceType, EventType, IpAddr, MacAddr,
    Protocol, ScanKind, ScanProfile, ScanStatus, ServiceState, Severity,
};
use crate::text::{chars_eq, chars_of};

verus! {

/// Whether the characters `s` spell the text `lit`.
pub fn is_text(s: &[char], lit: &str) -> (r: bool)
    ensures
        r == (s@ == lit@),
{
    let l = chars_of(lit);
    chars_eq(s, &l)
}

/// The stored name of a kind of device value.
pub open spec fn device_type_name(t: DeviceType) -> Seq<char> {
    match t {
        DeviceType::Router => "router"@,
        DeviceType::Phone => "phone"@,
        DeviceType::Laptop => "laptop"@,
        DeviceType::Desktop => "desktop"@,
        DeviceType::Tv => "tv"@,
        DeviceType::Printer => "printer"@,
        DeviceType::Camera => "camera"@,
        DeviceType::Nas => "nas"@,
        DeviceType::Console => "console"@,
        DeviceType::Iot => "iot"@,
        DeviceType::Tablet => "tablet"@,
        DeviceType::Unknown => "unknown"@,
    }
}

/// The kind of device value stored under name `s`, if any.
pub open spec fn device_type_named(s: Seq<char>) -> Option<DeviceType> {
    if s == "router"@ {
        Some(DeviceType::Router)
    } else if s == "phone"@ {
        Some(DeviceType::Phone)
    } else if s == "laptop"@ {
        Some(DeviceType::Laptop)
    } else if s == "desktop"@ {
        Some(DeviceType::Desktop)
    } else if s == "tv"@ {
        Some(DeviceType::Tv)
    } else if s == "printer"@ {
        Some(DeviceType::Printer)
    } else if s == "camera"@ {
        Some(DeviceType::Camera)
    } else if s == "nas"@ {
        Some(DeviceType::Nas)
    } else if s == "console"@ {
        Some(DeviceType::Console)
    } else if s == "iot"@ {
        Some(DeviceType::Iot)
    } else if s == "tablet"@ {
        Some(DeviceType::Tablet)
    } else if s == "unknown"@ {
        Some(DeviceType::Unknown)
    } else {
        None
    }
}

/// The stored name of a kind of device value.
pub fn device_type_to_db(t: DeviceType) -> (r: &'static str)
    ensures
        r@ == device_type_name(t),
{
    match t {
        DeviceType::Router => "router",
        DeviceType::Phone => "phone",
        DeviceType::Laptop => "laptop",
        DeviceType::Desktop => "desktop",
        DeviceType::Tv => "tv",
        DeviceType::Printer => "printer",
        DeviceType::Camera => "camera",
        DeviceType::Nas => "nas",
        DeviceType::Console => "console",
        DeviceType::Iot => "iot",
        DeviceType::Tablet => "tablet",
        DeviceType::Unknown => "unknown",
    }
}

/// Reads a stored kind of device name back; `None` for an unknown name.
pub fn device_type_from_db(s: &str) -> (r: Option<DeviceType>)
    ensures
        r == device_type_named(s@),
{
    let c = chars_of(s);
    if is_text(&c, "router") {
        return Some(DeviceType::Router);
    }
    if is_text(&c, "phone") {
        return Some(DeviceType::Phone);
    }
    if is_text(&c, "laptop") {
        return Some(DeviceType::Laptop);
    }
    if is_text(&c, "desktop") {
        return Some(DeviceType::Desktop);
    }
    if is_text(&c, "tv") {
        return Some(DeviceType::Tv);
    }
    if is_text(&c, "printer") {
        return Some(DeviceType::Printer);
    }
    if is_text(&c, "camera") {
        return Some(DeviceType::Camera);
    }
    if is_text(&c, "nas") {
        return Some(DeviceType::Nas);
    }
    if is_text(&c, "console") {
        return Some(DeviceType::Console);
    }
    if is_text(&c, "iot") {
        return Some(DeviceType::Iot);
    }
    if is_text(&c, "tablet") {
        return Some(DeviceType::Tablet);
    }
    if is_text(&c, "unknown") {
        return Some(DeviceType::Unknown);
    }
    None
}

/// Reading back the stored name of a kind of device value gives the value.
pub proof fn lemma_device_type_round_trip(t: DeviceType)
    ensures
        device_type_named(device_type_name(t)) == Some(t),
{
    reveal_strlit("router");
    reveal_strlit("phone");
    reveal_strlit("laptop");
    reveal_strlit("desktop");
    reveal_strlit("tv");
    reveal_strlit("printer");
    reveal_strlit("camera");
    reveal_strlit("nas");
    reveal_strlit("console");
    reveal_strlit("iot");
    reveal_strlit("tablet");
    reveal_strlit("unknown");
    match t {
        DeviceType::Router => {
        },
        DeviceType::Phone => {
            assert("phone"@.len() != "router"@.len());
        },
        DeviceType::Laptop => {
            assert("laptop"@[0] != "router"@[0]);
            assert("laptop"@.len() != "phone"@.len());
        },
        DeviceType::Desktop => {
            assert("desktop"@.len() != "router"@.len());
            assert("desktop"@.len() != "phone"@.len());
            assert("desktop"@.len() != "laptop"@.len());
        },
        DeviceType::Tv => {
            assert("tv"@.len() != "router"@.len());
            assert("tv"@.len() != "phone"@.len());
            assert("tv"@.len() != "laptop"@.len());
            assert("tv"@.len() != "desktop"@.len());
        },
        DeviceType::Printer => {
            assert("printer"@.len() != "router"@.len());
            assert("printer"@.len() != "phone"@.len());
            assert("printer"@.len() != "laptop"@.len());
            assert("printer"@[0] != "desktop"@[0]);
            assert("printer"@.len() != "tv"@.len());
        },
        DeviceType::Camera => {
            assert("camera"@[0] != "router"@[0]);
            assert("camera"@.len() != "phone"@.len());
            assert("camera"@[0] != "laptop"@[0]);
            assert("camera"@.len() != "desktop"@.len());
            assert("camera"@.len() != "tv"@.len());
            assert("camera"@.len() != "printer"@.len());
        },
        DeviceType::Nas => {
            assert("nas"@.len() != "router"@.len());
            assert("nas"@.len() != "phone"@.len());
            assert("nas"@.len() != "laptop"@.len());
            assert("nas"@.len() != "desktop"@.len());
            assert("nas"@.len() != "tv"@.len());
            assert("nas"@.len() != "printer"@.len());
            assert("nas"@.len() != "camera"@.len());
        },
        DeviceType::Console => {
            assert("console"@.len() != "router"@.len());
            assert("console"@.len() != "phone"@.len());
            assert("console"@.len() != "laptop"@.len());
            assert("console"@[0] != "desktop"@[0]);
            assert("console"@.len() != "tv"@.len());
            assert("console"@[0] != "printer"@[0]);
            assert("console"@.len() != "camera"@.len());
            assert("console"@.len() != "nas"@.len());
        },
        DeviceType::Iot => {
            assert("iot"@.len() != "router"@.len());
            assert("iot"@.len() != "phone"@.len());
            assert("iot"@.len() != "laptop"@.len());
            assert("iot"@.len() != "desktop"@.len());
            assert("iot"@.len() != "tv"@.len());
            assert("iot"@.len() != "printer"@.len());
            assert("iot"@.len() != "camera"@.len());
            assert("iot"@[0] != "nas"@[0]);
            assert("iot"@.len() != "console"@.len());
        },
        DeviceType::Tablet => {
            assert("tablet"@[0] != "router"@[0]);
            assert("tablet"@.len() != "phone"@.len());
            assert("tablet"@[0] != "laptop"@[0]);
            assert("tablet"@.len() != "desktop"@.len());
            assert("tablet"@.len() != "tv"@.len());
            assert("tablet"@.len() != "printer"@.len());
            assert("tablet"@[0] != "camera"@[0]);
            assert("tablet"@.len() != "nas"@.len());
            assert("tablet"@.len() != "console"@.len());
            assert("tablet"@.len() != "iot"@.len());
        },
        DeviceType::Unknown => {
            assert("unknown"@.len() != "router"@.len());
            assert("unknown"@.len() != "phone"@.len());
            assert("unknown"@.len() != "laptop"@.len());
            assert("unknown"@[0] != "desktop"@[0]);
            assert("unknown"@.len() != "tv"@.len());
            assert("unknown"@[0] != "printer"@[0]);
            assert("unknown"@.len() != "camera"@.len());
            assert("unknown"@.len() != "nas"@.len());
            assert("unknown"@[0] != "console"@[0]);
            assert("unknown"@.len() != "iot"@.len());
            assert("unknown"@.len() != "tablet"@.len());
        },
    }
}

/// The stored name of a transport protocol value.
pub open spec fn protocol_name(t: Protocol) -> Seq<char> {
    match t {
        Protocol::Tcp => "tcp"@,
        Protocol::Udp => "udp"@,
    }
}

/// The transport protocol value stored under name `s`, if any.
pub open spec fn protocol_named(s: Seq<char>) -> Option<Protocol> {
    if s == "tcp"@ {
        Some(Protocol::Tcp)
    } else if s == "udp"@ {
        Some(Protocol::Udp)
    } else {
        None
    }
}

/// The stored name of a transport protocol value.
pub fn protocol_to_db(t: Protocol) -> (r: &'static str)
    ensures
        r@ == protocol_name(t),
{
    match t {
        Protocol::Tcp => "tcp",
        Protocol::Udp => "udp",
    }
}

/// Reads a stored transport protocol name back; `None` for an unknown name.
pub fn protocol_from_db(s: &str) -> (r: Option<Protocol>)
    ensures
        r == protocol_named(s@),
{
    let c = chars_of(s);
    if is_text(&c, "tcp") {
        return Some(Protocol::Tcp);
    }
    if is_text(&c, "udp") {
        return Some(Protocol::Udp);
    }
    None
}

/// Reading back the stored name of a transport protocol value gives the value.
pub proof fn lemma_protocol_round_trip(t: Protocol)
    ensures
        protocol_named(protocol_name(t)) == Some(t),
{
    reveal_strlit("tcp");
    reveal_strlit("udp");
    match t {
        Protocol::Tcp => {
        },
        Protocol::Udp => {
            assert("udp"@[0] != "tcp"@[0]);
        },
    }
}

/// The stored name of a port state value.
pub open spec fn service_state_name(t: ServiceState) -> Seq<char> {
    match t {
        ServiceState::Open => "open"@,
        ServiceState::Closed => "closed"@,
        ServiceState::Filtered => "filtered"@,
    }
}

/// The port state value stored under name `s`, if any.
pub open spec fn service_state_named(s: Seq<char>) -> Option<ServiceState> {
    if s == "open"@ {
        Some(ServiceState::Open)
    } else if s == "closed"@ {
        Some(ServiceState::Closed)
    } else if s == "filtered"@ {
        Some(ServiceState::Filtered)
    } else {
        None
    }
}

/// The stored name of a port state value.
pub fn service_state_to_db(t: ServiceState) -> (r: &'static str)
    ensures
        r@ == service_state_name(t),
{
    match t {
        ServiceState::Open => "open",
        ServiceState::Closed => "closed",
        ServiceState::Filtered => "filtered",
    }
}

/// Reads a stored port state name back; `None` for an unknown name.
pub fn service_state_from_db(s: &str) -> (r: Option<ServiceState>)
    ensures
        r == service_state_named(s@),
{
    let c = chars_of(s);
    if is_text(&c, "open") {
        return Some(ServiceState::Open);
    }
    if is_text(&c, "closed") {
        return Some(ServiceState::Closed);
    }
    if is_text(&c, "filtered") {
        return Some(ServiceState::Filtered);
    }
    None
}

/// Reading back the stored name of a port state value gives the value.
pub proof fn lemma_service_state_round_trip(t: ServiceState)
    ensures
        service_state_named(service_state_name(t)) == Some(t),
{
    reveal_strlit("open");
    reveal_strlit("closed");
    reveal_strlit("filtered");
    match t {
        ServiceState::Open => {
        },
        ServiceState::Closed => {
            assert("closed"@.len() != "open"@.len());
        },
        ServiceState::Filtered => {
            assert("filtered"@.len() != "open"@.len());
            assert("filtered"@.len() != "closed"@.len());
        },
    }
}

/// The stored name of a scan profile value.
pub open spec fn scan_profile_name(t: ScanProfile) -> Seq<char> {
    match t {
        ScanProfile::Quick => "quick"@,
        ScanProfile::Normal => "normal"@,
        ScanProfile::Deep => "deep"@,
        ScanProfile::Iot => "iot"@,
        ScanProfile::Router => "router"@,
    }
}

/// The scan profile value stored under name `s`, if any.
pub open spec fn scan_profile_named(s: Seq<char>) -> Option<ScanProfile> {
    if s == "quick"@ {
        Some(ScanProfile::Quick)
    } else if s == "normal"@ {
        Some(ScanProfile::Normal)
    } else if s == "deep"@ {
        Some(ScanProfile::Deep)
    } else if s == "iot"@ {
        Some(ScanProfile::Iot)
    } else if s == "router"@ {
        Some(ScanProfile::Router)
    } else {
        None
    }
}

/// The stored name of a scan profile value.
pub fn scan_profile_to_db(t: ScanProfile) -> (r: &'static str)
    ensures
        r@ == scan_profile_name(t),
{
    match t {
        ScanProfile::Quick => "quick",
        ScanProfile::Normal => "normal",
        ScanProfile::Deep => "deep",
        ScanProfile::Iot => "iot",
        ScanProfile::Router => "router",
    }
}

/// Reads a stored scan profile name back; `None` for an unknown name.
pub fn scan_profile_from_db(s: &str) -> (r: Option<ScanProfile>)
    ensures
        r == scan_profile_named(s@),
{
    let c = chars_of(s);
    if is_text(&c, "quick") {
        return Some(ScanProfile::Quick);
    }
    if is_text(&c, "normal") {
        return Some(ScanProfile::Normal);
    }
    if is_text(&c, "deep") {
        return Some(ScanProfile::Deep);
    }
    if is_text(&c, "iot") {
        return Some(ScanProfile::Iot);
    }
    if is_text(&c, "router") {
        return Some(ScanProfile::Router);
    }
    None
}

/// Reading back the stored name of a scan profile value gives the value.
pub proof fn lemma_scan_profile_round_trip(t: ScanProfile)
    ensures
        scan_profile_named(scan_profile_name(t)) == Some(t),
{
    reveal_strlit("quick");
    reveal_strlit("normal");
    reveal_strlit("deep");
    reveal_strlit("iot");
    reveal_strlit("router");
    match t {
        ScanProfile::Quick => {
        },
        ScanProfile::Normal => {
            assert("normal"@.len() != "quick"@.len());
        },
        ScanProfile::Deep => {
            assert("deep"@.len() != "quick"@.len());
            assert("deep"@.len() != "normal"@.len());
        },
        ScanProfile::Iot => {
            assert("iot"@.len() != "quick"@.len());
            assert("iot"@.len() != "normal"@.len());
            assert("iot"@.len() != "deep"@.len());
        },
        ScanProfile::Router => {
            assert("router"@.len() != "quick"@.len());
            assert("router"@[0] != "normal"@[0]);
            assert("router"@.len() != "deep"@.len());
            assert("router"@.len() != "iot"@.len());
        },
    }
}

/// The stored name of an event type value.
pub open spec fn event_type_name(t: EventType) -> Seq<char> {
    match t {
        EventType::DeviceNew => "device_new"@,
        EventType::DeviceOffline => "device_offline"@,
        EventType::DeviceOnline => "device_online"@,
        EventType::DeviceIpChanged => "device_ip_changed"@,
        EventType::PortOpened => "port_opened"@,
    }
}

/// The event type value stored under name `s`, if any.
pub open spec fn event_type_named(s: Seq<char>) -> Option<EventType> {
    if s == "device_new"@ {
        Some(EventType::DeviceNew)
    } else if s == "device_offline"@ {
        Some(EventType::DeviceOffline)
    } else if s == "device_online"@ {
        Some(EventType::DeviceOnline)
    } else if s == "device_ip_changed"@ {
        Some(EventType::DeviceIpChanged)
    } else if s == "port_opened"@ {
        Some(EventType::PortOpened)
    } else {
        None
    }
}

/// The stored name of an event type value.
pub fn event_type_to_db(t: EventType) -> (r: &'static str)
    ensures
        r@ == event_type_name(t),
{
    match t {
        EventType::DeviceNew => "device_new",
        EventType::DeviceOffline => "device_offline",
        EventType::DeviceOnline => "device_online",
        EventType::DeviceIpChanged => "device_ip_changed",
        EventType::PortOpened => "port_opened",
    }
}

/// Reads a stored event type name back; `None` for an unknown name.
pub fn event_type_from_db(s: &str) -> (r: Option<EventType>)
    ensures
        r == event_type_named(s@),
{
    let c = chars_of(s);
    if is_text(&c, "device_new") {
        return Some(EventType::DeviceNew);
    }
    if is_text(&c, "device_offline") {
        return Some(EventType::DeviceOffline);
    }
    if is_text(&c, "device_online") {
        return Some(EventType::DeviceOnline);
    }
    if is_text(&c, "device_ip_changed") {
        return Some(EventType::DeviceIpChanged);
    }
    if is_text(&c, "port_opened") {
        return Some(EventType::PortOpened);
    }
    None
}

/// Reading back the stored name of an event type value gives the value.
pub proof fn lemma_event_type_round_trip(t: EventType)
    ensures
        event_type_named(event_type_name(t)) == Some(t),
{
    reveal_strlit("device_new");
    reveal_strlit("device_offline");
    reveal_strlit("device_online");
    reveal_strlit("device_ip_changed");
    reveal_strlit("port_opened");
    match t {
        EventType::DeviceNew => {
        },
        EventType::DeviceOffline => {
            assert("device_offline"@.len() != "device_new"@.len());
        },
        EventType::DeviceOnline => {
            assert("device_online"@.len() != "device_new"@.len());
            assert("device_online"@.len() != "device_offline"@.len());
        },
        EventType::DeviceIpChanged => {
            assert("device_ip_changed"@.len() != "device_new"@.len());
            assert("device_ip_changed"@.len() != "device_offline"@.len());
            assert("device_ip_changed"@.len() != "device_online"@.len());
        },
        EventType::PortOpened => {
            assert("port_opened"@.len() != "device_new"@.len());
            assert("port_opened"@.len() != "device_offline"@.len());
            assert("port_opened"@.len() != "device_online"@.len());
            assert("port_opened"@.len() != "device_ip_changed"@.len());
        },
    }
}

/// The stored name of an event severity value.
pub open spec fn severity_name(t: Severity) -> Seq<char> {
    match t {
        Severity::Info => "info"@,
        Severity::Warning => "warning"@,
        Severity::Critical => "critical"@,
    }
}

/// The event severity value stored under name `s`, if any.
pub open spec fn severity_named(s: Seq<char>) -> Option<Severity> {
    if s == "info"@ {
        Some(Severity::Info)
    } else if s == "warning"@ {
        Some(Severity::Warning)
    } else if s == "critical"@ {
        Some(Severity::Critical)
    } else {
        None
    }
}

/// The stored name of an event severity value.
pub fn severity_to_db(t: Severity) -> (r: &'static str)
    ensures
        r@ == severity_name(t),
{
    match t {
        Severity::Info => "info",
        Severity::Warning => "warning",
        Severity::Critical => "critical",
    }
}

/// Reads a stored event severity name back; `None` for an unknown name.
pub fn severity_from_db(s: &str) -> (r: Option<Severity>)
    ensures
        r == severity_named(s@),
{
    let c = chars_of(s);
    if is_text(&c, "info") {
        return Some(Severity::Info);
    }
    if is_text(&c, "warning") {
        return Some(Severity::Warning);
    }
    if is_text(&c, "critical") {
        return Some(Severity::Critical);
    }
    None
}

/// Reading back the stored name of an event severity value gives the value.
pub proof fn lemma_severity_round_trip(t: Severity)
    ensures
        severity_named(severity_name(t)) == Some(t),
{
    reveal_strlit("info");
    reveal_strlit("warning");
    reveal_strlit("critical");
    match t {
        Severity::Info => {
        },
        Severity::Warning => {
            assert("warning"@.len() != "info"@.len());
        },
        Severity::Critical => {
            assert("critical"@.len() != "info"@.len());
            assert("critical"@.len() != "warning"@.len());
        },
    }
}

/// The stored name of a scan kind value.
pub open spec fn scan_kind_name(t: ScanKind) -> Seq<char> {
    match t {
        ScanKind::Discovery => "discovery"@,
        ScanKind::Ports => "ports"@,
    }
}

/// The scan kind value stored under name `s`, if any.
pub open spec fn scan_kind_named(s: Seq<char>) -> Option<ScanKind> {
    if s == "discovery"@ {
        Some(ScanKind::Discovery)
    } else if s == "ports"@ {
        Some(ScanKind::Ports)
    } else {
        None
    }
}

/// The stored name of a scan kind value.
pub fn scan_kind_to_db(t: ScanKind) -> (r: &'static str)
    ensures
        r@ == scan_kind_name(t),
{
    match t {
        ScanKind::Discovery => "discovery",
        ScanKind::Ports => "ports",
    }
}

/// Reads a stored scan kind name back; `None` for an unknown name.
pub fn scan_kind_from_db(s: &str) -> (r: Option<ScanKind>)
    ensures
        r == scan_kind_named(s@),
{
    let c = chars_of(s);
    if is_text(&c, "discovery") {
        return Some(ScanKind::Discovery);
    }
    if is_text(&c, "ports") {
        return Some(ScanKind::Ports);
    }
    None
}

/// Reading back the stored name of a scan kind value gives the value.
pub proof fn lemma_scan_kind_round_trip(t: ScanKind)
    ensures
        scan_kind_named(scan_kind_name(t)) == Some(t),
{
    reveal_strlit("discovery");
    reveal_strlit("ports");
    match t {
        ScanKind::Discovery => {
        },
        ScanKind::Ports => {
            assert("ports"@.len() != "discovery"@.len());
        },
    }
}

/// The stored name of a scan status value.
pub open spec fn scan_status_name(t: ScanStatus) -> Seq<char> {
    match t {
        ScanStatus::Running => "running"@,
        ScanStatus::Completed => "completed"@,
    }
}

/// The scan status value stored under name `s`, if any.
pub open spec fn scan_status_named(s: Seq<char>) -> Option<ScanStatus> {
    if s == "running"@ {
        Some(ScanStatus::Running)
    } else if s == "completed"@ {
        Some(ScanStatus::Completed)
    } else {
        None
    }
}

/// The stored name of a scan status value.
pub fn scan_status_to_db(t: ScanStatus) -> (r: &'static str)
    ensures
        r@ == scan_status_name(t),
{
    match t {
        ScanStatus::Running => "running",
        ScanStatus::Completed => "completed",
    }
}

/// Reads a stored scan status name back; `None` for an unknown name.
pub fn scan_status_from_db(s: &str) -> (r: Option<ScanStatus>)
    ensures
        r == scan_status_named(s@),
{
    let c = chars_of(s);
    if is_text(&c, "running") {
        return Some(ScanStatus::Running);
    }
    if is_text(&c, "completed") {
        return Some(ScanStatus::Completed);
    }
    None
}

/// Reading back the stored name of a scan status value gives the value.
pub proof fn lemma_scan_status_round_trip(t: ScanStatus)
    ensures
        scan_status_named(scan_status_name(t)) == Some(t),
{
    reveal_strlit("running");
    reveal_strlit("completed");
    match t {
        ScanStatus::Running => {
        },
        ScanStatus::Completed => {
            assert("completed"@.len() != "running"@.len());
        },
    }
}

/// The column text of an optional MAC address: its canonical text, or NULL.
pub fn mac_to_db(mac: Option<MacAddr>) -> (r: Option<String>)
    ensures
        match mac {
            Some(m) => r matches Some(s) && s@ == mac_text(m.bytes()),
            None => r is None,
        },
{
    match mac {
        Some(m) => Some(m.to_text()),
        None => None,
    }
}

/// A stored MAC address column that is not a MAC address.
#[derive(Clone, Copy, Debug, PartialEq, Eq)]
pub struct InvalidMac;

/// Reads a MAC address column back: NULL is none; text that is not a MAC
/// address is an error.
pub fn mac_from_db(raw: Option<&str>) -> (r: Result<Option<MacAddr>, InvalidMac>)
    ensures
        match raw {
            None => r == Ok::<Option<MacAddr>, InvalidMac>(None),
            Some(s) => match mac_from_text(s@) {
                Some(b) => r matches Ok(Some(m)) && m.bytes() == b,
                None => r == Err::<Option<MacAddr>, InvalidMac>(InvalidMac),
            },
        },
{
    match raw {
        None => Ok(None),
        Some(s) => match MacAddr::parse(s) {
            Some(m) => Ok(Some(m)),
            None => Err(InvalidMac),
        },
    }
}

/// A stored IP address column that is not an IP address.
#[derive(Clone, Copy, Debug, PartialEq, Eq)]
pub struct InvalidIp;

/// Reads an IP address column back: NULL is none; text that is not an IP
/// address (IPv4 or IPv6) is an error.
pub fn ip_from_db(raw: Option<&str>) -> (r: Result<Option<IpAddr>, InvalidIp>)
    ensures
        match raw {
            None => r == Ok::<Option<IpAddr>, InvalidIp>(None),
            Some(s) => match ip_from_text(s@) {
                Some(ip) => r == Ok::<Option<IpAddr>, InvalidIp>(Some(ip)),
                None => r == Err::<Option<IpAddr>, InvalidIp>(InvalidIp),
            },
        },
{
    match raw {
        None => Ok(None),
        Some(s) => {
            let c = chars_of(s);
            match parse_ip(&c) {
                Some(ip) => Ok(Some(ip)),
                None => Err(InvalidIp),
            }
        },
    }
}

} // verus!
