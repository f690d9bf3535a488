//! Rows of the store read back into the model. Each column is decoded with
//! the storage codecs, in column order; the first column that does not
//! decode gives the error.

use vstd::prelude::*;

use crate::codec::{
    device_type_from_db, device_type_named, event_type_from_db, event_type_named, ip_from_db,
    mac_from_db, protocol_from_db, protocol_named, scan_kind_from_db, scan_kind_named,
    scan_profile_from_db, scan_profile_named, scan_status_from_db, scan_status_named,
    service_state_from_db, service_state_named, severity_from_db, severity_named,
};
use crate::model::{
    ip_from_text, mac_from_text, Confidence, Device, Event, IpAddr, MacAddr, Protocol, ScanKind,
    ScanProfile, ScanStatus, Service, ServiceState,
};

verus! {

/// A stored value that does not decode.
#[derive(Clone, Copy, Debug, PartialEq, Eq, Structural)]
pub enum DecodeError {
    /// A MAC address column that is not a MAC address.
    InvalidMac,
    /// An IP address column that is not an IP address.
    InvalidIp,
    /// An enumeration column holding an unknown name.
    UnknownName,
}

/// A MAC address column decodes: NULL, or a MAC address.
pub open spec fn mac_column_ok(raw: Option<String>) -> bool {
    match raw {
        None => true,
        Some(s) => mac_from_text(s@) is Some,
    }
}

/// `m` is what MAC address column `raw` holds.
pub open spec fn mac_column_is(raw: Option<String>, m: Option<MacAddr>) -> bool {
    match raw {
        None => m is None,
        Some(s) => m matches Some(x) && mac_from_text(s@) == Some(x.bytes()),
    }
}

/// What IP address column `raw` holds; `None` when it does not decode.
pub open spec fn ip_column(raw: Option<String>) -> Option<Option<IpAddr>> {
    match raw {
        None => Some(None),
        Some(s) => match ip_from_text(s@) {
            Some(ip) => Some(Some(ip)),
            None => None,
        },
    }
}

/// A stored integer as a port: `0` when out of range.
pub open spec fn port_column(v: i64) -> u16 {
    if 0 <= v <= 65535 {
        v as u16
    } else {
        0
    }
}

/// A stored integer as a confidence score: `0` when out of range.
pub open spec fn score_column(v: i64) -> u8 {
    if 0 <= v <= 255 {
        v as u8
    } else {
        0
    }
}

/// The MAC address column `raw` decoded.
fn mac_of(raw: &Option<String>) -> (r: Result<Option<MacAddr>, DecodeError>)
    ensures
        r is Ok <==> mac_column_ok(*raw),
        r matches Ok(m) ==> mac_column_is(*raw, m),
        r matches Err(e) ==> e == DecodeError::InvalidMac,
{
    let res = match raw {
        Some(s) => mac_from_db(Some(s.as_str())),
        None => mac_from_db(None),
    };
    match res {
        Ok(m) => Ok(m),
        Err(_) => Err(DecodeError::InvalidMac),
    }
}

/// The IP address column `raw` decoded.
fn ip_of(raw: &Option<String>) -> (r: Result<Option<IpAddr>, DecodeError>)
    ensures
        match ip_column(*raw) {
            Some(ip) => r == Ok::<Option<IpAddr>, DecodeError>(ip),
            None => r == Err::<Option<IpAddr>, DecodeError>(DecodeError::InvalidIp),
        },
{
    let res = match raw {
        Some(s) => ip_from_db(Some(s.as_str())),
        None => ip_from_db(None),
    };
    match res {
        Ok(ip) => Ok(ip),
        Err(_) => Err(DecodeError::InvalidIp),
    }
}

/// A stored integer as a port: `0` when out of range.
pub fn port_of(v: i64) -> (p: u16)
    ensures
        p == port_column(v),
{
    if 0 <= v && v <= 65535 {
        v as u16
    } else {
        0
    }
}

/// A stored integer as a confidence score: `0` when out of range.
pub fn score_of(v: i64) -> (s: u8)
    ensures
        s == score_column(v),
{
    if 0 <= v && v <= 255 {
        v as u8
    } else {
        0
    }
}

// ---------------------------------------------------------------------------
// Devices.
// ---------------------------------------------------------------------------

/// The columns of a device row, as read.
#[derive(Clone, Debug, PartialEq, Eq)]
pub struct DeviceColumns {
    pub id: String,
    pub network_id: String,
    pub primary_mac: Option<String>,
    pub primary_ip: Option<String>,
    pub hostname: Option<String>,
    pub display_name: Option<String>,
    pub vendor: Option<String>,
    pub manufacturer: Option<String>,
    pub model: Option<String>,
    pub device_type: String,
    pub os_family: Option<String>,
    pub confidence: i64,
    pub first_seen_at: String,
    pub last_seen_at: String,
    pub is_trusted: i64,
    pub is_hidden: i64,
    pub notes: Option<String>,
    pub is_online: i64,
}

/// The device a row holds: its MAC address, then its IP address, then its
/// kind must decode; the flags are true when non-zero and an out-of-range
/// confidence reads as 0.
pub fn decode_device(row: DeviceColumns) -> (r: Result<Device, DecodeError>)
    ensures
        !mac_column_ok(row.primary_mac) ==> r == Err::<Device, DecodeError>(DecodeError::InvalidMac),
        mac_column_ok(row.primary_mac) && ip_column(row.primary_ip) is None ==> r == Err::<
            Device,
            DecodeError,
        >(DecodeError::InvalidIp),
        mac_column_ok(row.primary_mac) && ip_column(row.primary_ip) is Some && device_type_named(
            row.device_type@,
        ) is None ==> r == Err::<Device, DecodeError>(DecodeError::UnknownName),
        mac_column_ok(row.primary_mac) && ip_column(row.primary_ip) is Some && device_type_named(
            row.device_type@,
        ) is Some ==> r is Ok,
        r matches Ok(d) ==> {
            &&& d.id == row.id
            &&& d.network_id == row.network_id
            &&& mac_column_is(row.primary_mac, d.primary_mac)
            &&& ip_column(row.primary_ip) == Some(d.primary_ip)
            &&& d.hostname == row.hostname
            &&& d.display_name == row.display_name
            &&& d.vendor == row.vendor
            &&& d.manufacturer == row.manufacturer
            &&& d.model == row.model
            &&& device_type_named(row.device_type@) == Some(d.device_type)
            &&& d.os_family == row.os_family
            &&& d.confidence.value == score_column(row.confidence)
            &&& d.first_seen_at == row.first_seen_at
            &&& d.last_seen_at == row.last_seen_at
            &&& d.is_trusted == (row.is_trusted != 0)
            &&& d.is_hidden == (row.is_hidden != 0)
            &&& d.notes == row.notes
            &&& d.is_online == (row.is_online != 0)
        },
{
    let primary_mac = match mac_of(&row.primary_mac) {
        Ok(m) => m,
        Err(e) => return Err(e),
    };
    let primary_ip = match ip_of(&row.primary_ip) {
        Ok(ip) => ip,
        Err(e) => return Err(e),
    };
    let device_type = match device_type_from_db(row.device_type.as_str()) {
        Some(t) => t,
        None => return Err(DecodeError::UnknownName),
    };
    let confidence = Confidence::new(score_of(row.confidence));
    Ok(
        Device {
            id: row.id,
            network_id: row.network_id,
            primary_mac,
            primary_ip,
            hostname: row.hostname,
            display_name: row.display_name,
            vendor: row.vendor,
            manufacturer: row.manufacturer,
            model: row.model,
            device_type,
            os_family: row.os_family,
            confidence,
            first_seen_at: row.first_seen_at,
            last_seen_at: row.last_seen_at,
            is_trusted: row.is_trusted != 0,
            is_hidden: row.is_hidden != 0,
            notes: row.notes,
            is_online: row.is_online != 0,
        },
    )
}

// ---------------------------------------------------------------------------
// Services.
// ---------------------------------------------------------------------------

/// The columns of a service row, as read.
#[derive(Clone, Debug, PartialEq, Eq)]
pub struct ServiceColumns {
    pub id: String,
    pub device_id: String,
    pub protocol: String,
    pub port: i64,
    pub service_name: Option<String>,
    pub product: Option<String>,
    pub version: Option<String>,
    pub banner: Option<String>,
    pub state: String,
    pub first_seen_at: String,
    pub last_seen_at: String,
}

/// The service a row holds: its protocol, then its state must be known
/// names; an out-of-range port reads as 0.
pub fn decode_service(row: ServiceColumns) -> (r: Result<Service, DecodeError>)
    ensures
        r is Err <==> protocol_named(row.protocol@) is None || service_state_named(row.state@) is None,
        r matches Err(e) ==> e == DecodeError::UnknownName,
        r matches Ok(s) ==> {
            &&& s.id == row.id
            &&& s.device_id == row.device_id
            &&& protocol_named(row.protocol@) == Some(s.protocol)
            &&& s.port == port_column(row.port)
            &&& s.service_name == row.service_name
            &&& s.product == row.product
            &&& s.version == row.version
            &&& s.banner == row.banner
            &&& service_state_named(row.state@) == Some(s.state)
            &&& s.first_seen_at == row.first_seen_at
            &&& s.last_seen_at == row.last_seen_at
        },
{
    let protocol = match protocol_from_db(row.protocol.as_str()) {
        Some(p) => p,
        None => return Err(DecodeError::UnknownName),
    };
    let port = port_of(row.port);
    let state = match service_state_from_db(row.state.as_str()) {
        Some(s) => s,
        None => return Err(DecodeError::UnknownName),
    };
    Ok(
        Service {
            id: row.id,
            device_id: row.device_id,
            protocol,
            port,
            service_name: row.service_name,
            product: row.product,
            version: row.version,
            banner: row.banner,
            state,
            first_seen_at: row.first_seen_at,
            last_seen_at: row.last_seen_at,
        },
    )
}

/// The columns of a service joined with its device, as read.
#[derive(Clone, Debug, PartialEq, Eq)]
pub struct ServiceExportColumns {
    pub device_id: String,
    pub device_ip: Option<String>,
    pub display_name: Option<String>,
    pub protocol: String,
    pub port: i64,
    pub service_name: Option<String>,
    pub product: Option<String>,
    pub version: Option<String>,
    pub banner: Option<String>,
    pub state: String,
    pub first_seen_at: String,
    pub last_seen_at: String,
}

/// A service joined with its device, decoded.
#[derive(Clone, Debug, PartialEq, Eq)]
pub struct ServiceExport {
    pub device_id: String,
    pub device_ip: Option<IpAddr>,
    pub display_name: Option<String>,
    pub protocol: Protocol,
    pub port: u16,
    pub service_name: Option<String>,
    pub product: Option<String>,
    pub version: Option<String>,
    pub banner: Option<String>,
    pub state: ServiceState,
    pub first_seen_at: String,
    pub last_seen_at: String,
}

/// The joined row decoded: the device's address, then the protocol, then
/// the state must decode; an out-of-range port reads as 0.
pub fn decode_service_export(row: ServiceExportColumns) -> (r: Result<ServiceExport, DecodeError>)
    ensures
        ip_column(row.device_ip) is None ==> r == Err::<ServiceExport, DecodeError>(
            DecodeError::InvalidIp,
        ),
        ip_column(row.device_ip) is Some ==> (r is Err <==> protocol_named(row.protocol@) is None
            || service_state_named(row.state@) is None),
        ip_column(row.device_ip) is Some ==> (r matches Err(e) ==> e == DecodeError::UnknownName),
        r matches Ok(x) ==> {
            &&& x.device_id == row.device_id
            &&& ip_column(row.device_ip) == Some(x.device_ip)
            &&& x.display_name == row.display_name
            &&& protocol_named(row.protocol@) == Some(x.protocol)
            &&& x.port == port_column(row.port)
            &&& x.service_name == row.service_name
            &&& x.product == row.product
            &&& x.version == row.version
            &&& x.banner == row.banner
            &&& service_state_named(row.state@) == Some(x.state)
            &&& x.first_seen_at == row.first_seen_at
            &&& x.last_seen_at == row.last_seen_at
        },
{
    let device_ip = match ip_of(&row.device_ip) {
        Ok(ip) => ip,
        Err(e) => return Err(e),
    };
    let protocol = match protocol_from_db(row.protocol.as_str()) {
        Some(p) => p,
        None => return Err(DecodeError::UnknownName),
    };
    let port = port_of(row.port);
    let state = match service_state_from_db(row.state.as_str()) {
        Some(s) => s,
        None => return Err(DecodeError::UnknownName),
    };
    Ok(
        ServiceExport {
            device_id: row.device_id,
            device_ip,
            display_name: row.display_name,
            protocol,
            port,
            service_name: row.service_name,
            product: row.product,
            version: row.version,
            banner: row.banner,
            state,
            first_seen_at: row.first_seen_at,
            last_seen_at: row.last_seen_at,
        },
    )
}

// ---------------------------------------------------------------------------
// Events and scans.
// ---------------------------------------------------------------------------

/// The columns of an event row, as read.
#[derive(Clone, Debug, PartialEq, Eq)]
pub struct EventColumns {
    pub id: String,
    pub network_id: String,
    pub device_id: Option<String>,
    pub event_type: String,
    pub severity: String,
    pub message: Option<String>,
    pub data_json: Option<String>,
    pub created_at: String,
}

/// The event a row holds: its type, then its severity must be known names.
pub fn decode_event(row: EventColumns) -> (r: Result<Event, DecodeError>)
    ensures
        r is Err <==> event_type_named(row.event_type@) is None || severity_named(row.severity@) is None,
        r matches Err(e) ==> e == DecodeError::UnknownName,
        r matches Ok(ev) ==> {
            &&& ev.id == row.id
            &&& ev.network_id == row.network_id
            &&& ev.device_id == row.device_id
            &&& event_type_named(row.event_type@) == Some(ev.event_type)
            &&& severity_named(row.severity@) == Some(ev.severity)
            &&& ev.message == row.message
            &&& ev.data_json == row.data_json
            &&& ev.created_at == row.created_at
        },
{
    let event_type = match event_type_from_db(row.event_type.as_str()) {
        Some(t) => t,
        None => return Err(DecodeError::UnknownName),
    };
    let severity = match severity_from_db(row.severity.as_str()) {
        Some(s) => s,
        None => return Err(DecodeError::UnknownName),
    };
    Ok(
        Event {
            id: row.id,
            network_id: row.network_id,
            device_id: row.device_id,
            event_type,
            severity,
            message: row.message,
            data_json: row.data_json,
            created_at: row.created_at,
        },
    )
}

/// The kind, profile and status columns of a scan row: each must be a known
/// name, in that order.
pub fn decode_scan_names(kind: &str, profile: &str, status: &str) -> (r: Result<
    (ScanKind, ScanProfile, ScanStatus),
    DecodeError,
>)
    ensures
        match (scan_kind_named(kind@), scan_profile_named(profile@), scan_status_named(status@)) {
            (Some(k), Some(p), Some(s)) => r == Ok::<(ScanKind, ScanProfile, ScanStatus), DecodeError>(
                (k, p, s),
            ),
            _ => r == Err::<(ScanKind, ScanProfile, ScanStatus), DecodeError>(
                DecodeError::UnknownName,
            ),
        },
{
    let k = match scan_kind_from_db(kind) {
        Some(k) => k,
        None => return Err(DecodeError::UnknownName),
    };
    let p = match scan_profile_from_db(profile) {
        Some(p) => p,
        None => return Err(DecodeError::UnknownName),
    };
    let s = match scan_status_from_db(status) {
        Some(s) => s,
        None => return Err(DecodeError::UnknownName),
    };
    Ok((k, p, s))
}

} // verus!
