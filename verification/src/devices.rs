//! How the inventory stores a device: which stored row a sighting is, how a
//! rescan folds onto the stored row without losing what was known, what a
//! first insertion stores, and which user-editable columns an edit changes.

use vstd::prelude::*;

use crate::model::{classify, Confidence, Device, DeviceType, IpAddr, MacAddr};
use crate::text::clone_opt;

verus! {

/// `a` when it holds a value, else `b`.
pub open spec fn first_some<T>(a: Option<T>, b: Option<T>) -> Option<T> {
    match a {
        Some(x) => Some(x),
        None => b,
    }
}

/// The row stored after folding this scan's `incoming` device onto the stored
/// `existing` one:
/// - the MAC address is the stable anchor: kept, and only filled in when
///   missing;
/// - the IP address follows the latest sighting (DHCP) when it has one;
/// - host name, display name, vendor, manufacturer, model and OS family take
///   the rescan's value, and keep their stored value when the rescan brings
///   none;
/// - type and confidence follow [`classify`]: the confidence never goes down;
/// - identity, first sighting, trust, hidden flag and notes are the stored
///   ones (the user's);
/// - the last sighting is this scan's; online when either says so.
pub open spec fn merged(existing: Device, incoming: Device) -> Device {
    let (t, c) = classify(
        existing.device_type,
        existing.confidence,
        incoming.device_type,
        incoming.confidence,
    );
    Device {
        id: existing.id,
        network_id: existing.network_id,
        primary_mac: first_some(existing.primary_mac, incoming.primary_mac),
        primary_ip: first_some(incoming.primary_ip, existing.primary_ip),
        hostname: first_some(incoming.hostname, existing.hostname),
        display_name: first_some(incoming.display_name, existing.display_name),
        vendor: first_some(incoming.vendor, existing.vendor),
        manufacturer: first_some(incoming.manufacturer, existing.manufacturer),
        model: first_some(incoming.model, existing.model),
        device_type: t,
        os_family: first_some(incoming.os_family, existing.os_family),
        confidence: c,
        first_seen_at: existing.first_seen_at,
        last_seen_at: incoming.last_seen_at,
        is_trusted: existing.is_trusted,
        is_hidden: existing.is_hidden,
        notes: existing.notes,
        is_online: incoming.is_online || existing.is_online,
    }
}

/// Folds this scan's `incoming` device onto the stored `existing` row (see
/// [`merged`]).
pub fn merge_for_update(existing: &Device, incoming: &Device) -> (r: Device)
    ensures
        r == merged(*existing, *incoming),
        incoming.primary_ip is Some ==> r.primary_ip == incoming.primary_ip,
        incoming.primary_ip is None ==> r.primary_ip == existing.primary_ip,
        incoming.hostname is Some ==> r.hostname == incoming.hostname,
        incoming.hostname is None ==> r.hostname == existing.hostname,
        incoming.display_name is Some ==> r.display_name == incoming.display_name,
        incoming.display_name is None ==> r.display_name == existing.display_name,
        incoming.vendor is Some ==> r.vendor == incoming.vendor,
        incoming.vendor is None ==> r.vendor == existing.vendor,
        incoming.manufacturer is Some ==> r.manufacturer == incoming.manufacturer,
        incoming.manufacturer is None ==> r.manufacturer == existing.manufacturer,
        incoming.model is Some ==> r.model == incoming.model,
        incoming.model is None ==> r.model == existing.model,
        incoming.os_family is Some ==> r.os_family == incoming.os_family,
        incoming.os_family is None ==> r.os_family == existing.os_family,
        existing.primary_mac is Some ==> r.primary_mac == existing.primary_mac,
        existing.primary_mac is None ==> r.primary_mac == incoming.primary_mac,
{
    let (device_type, confidence) = if incoming.confidence.value >= existing.confidence.value
        && incoming.device_type != DeviceType::Unknown {
        (incoming.device_type, incoming.confidence)
    } else {
        (existing.device_type, existing.confidence)
    };
    let primary_mac = match existing.primary_mac {
        Some(m) => Some(m),
        None => incoming.primary_mac,
    };
    let primary_ip = match incoming.primary_ip {
        Some(ip) => Some(ip),
        None => existing.primary_ip,
    };
    Device {
        id: existing.id.clone(),
        network_id: existing.network_id.clone(),
        primary_mac,
        primary_ip,
        hostname: prefer(&incoming.hostname, &existing.hostname),
        display_name: prefer(&incoming.display_name, &existing.display_name),
        vendor: prefer(&incoming.vendor, &existing.vendor),
        manufacturer: prefer(&incoming.manufacturer, &existing.manufacturer),
        model: prefer(&incoming.model, &existing.model),
        device_type,
        os_family: prefer(&incoming.os_family, &existing.os_family),
        confidence,
        first_seen_at: existing.first_seen_at.clone(),
        last_seen_at: incoming.last_seen_at.clone(),
        is_trusted: existing.is_trusted,
        is_hidden: existing.is_hidden,
        notes: clone_opt(&existing.notes),
        is_online: incoming.is_online || existing.is_online,
    }
}

/// A copy of `a` when it holds a value, else of `b`.
fn prefer(a: &Option<String>, b: &Option<String>) -> (r: Option<String>)
    ensures
        r == first_some(*a, *b),
{
    match a {
        Some(s) => Some(s.clone()),
        None => clone_opt(b),
    }
}

/// A rescan never loses what the stored row knew: the confidence does not go
/// down, a known MAC address stays, known optional facts (display name
/// included) stay known, and trust, hidden flag, notes, identity and first
/// sighting are untouched.
pub proof fn lemma_merge_keeps_knowledge(existing: Device, incoming: Device)
    ensures
        merged(existing, incoming).confidence.value >= existing.confidence.value,
        existing.primary_mac is Some ==> merged(existing, incoming).primary_mac
            == existing.primary_mac,
        existing.primary_ip is Some ==> merged(existing, incoming).primary_ip is Some,
        existing.hostname is Some ==> merged(existing, incoming).hostname is Some,
        existing.vendor is Some ==> merged(existing, incoming).vendor is Some,
        existing.manufacturer is Some ==> merged(existing, incoming).manufacturer is Some,
        existing.model is Some ==> merged(existing, incoming).model is Some,
        existing.os_family is Some ==> merged(existing, incoming).os_family is Some,
        existing.device_type != DeviceType::Unknown ==> merged(existing, incoming).device_type
            != DeviceType::Unknown,
        merged(existing, incoming).id == existing.id,
        merged(existing, incoming).network_id == existing.network_id,
        merged(existing, incoming).first_seen_at == existing.first_seen_at,
        existing.display_name is Some ==> merged(existing, incoming).display_name is Some,
        merged(existing, incoming).is_trusted == existing.is_trusted,
        merged(existing, incoming).is_hidden == existing.is_hidden,
        merged(existing, incoming).notes == existing.notes,
{
}

/// The rescan wins: host name, display name, vendor, manufacturer, model, OS
/// family and IP address are the rescan's whenever it brings one, and the
/// stored ones only when it brings none; the stored MAC address stays, and
/// the rescan's only fills a missing one.
pub proof fn lemma_merge_prefers_rescan(existing: Device, incoming: Device)
    ensures
        incoming.primary_ip is Some ==> merged(existing, incoming).primary_ip == incoming.primary_ip,
        incoming.primary_ip is None ==> merged(existing, incoming).primary_ip == existing.primary_ip,
        incoming.hostname is Some ==> merged(existing, incoming).hostname == incoming.hostname,
        incoming.hostname is None ==> merged(existing, incoming).hostname == existing.hostname,
        incoming.display_name is Some ==> merged(existing, incoming).display_name == incoming.display_name,
        incoming.display_name is None ==> merged(existing, incoming).display_name == existing.display_name,
        incoming.vendor is Some ==> merged(existing, incoming).vendor == incoming.vendor,
        incoming.vendor is None ==> merged(existing, incoming).vendor == existing.vendor,
        incoming.manufacturer is Some ==> merged(existing, incoming).manufacturer == incoming.manufacturer,
        incoming.manufacturer is None ==> merged(existing, incoming).manufacturer == existing.manufacturer,
        incoming.model is Some ==> merged(existing, incoming).model == incoming.model,
        incoming.model is None ==> merged(existing, incoming).model == existing.model,
        incoming.os_family is Some ==> merged(existing, incoming).os_family == incoming.os_family,
        incoming.os_family is None ==> merged(existing, incoming).os_family == existing.os_family,
        existing.primary_mac is Some ==> merged(existing, incoming).primary_mac == existing.primary_mac,
        existing.primary_mac is None ==> merged(existing, incoming).primary_mac == incoming.primary_mac,
{
}

/// Folding the same sighting twice gives the same row as folding it once.
pub proof fn lemma_merge_idempotent(existing: Device, incoming: Device)
    ensures
        merged(merged(existing, incoming), incoming) == merged(existing, incoming),
{
}

/// What a first insertion stores: the device as given, trusted when it is a
/// router (the gateway is trusted from the start).
pub open spec fn inserted(d: Device) -> Device {
    Device { is_trusted: d.is_trusted || d.device_type == DeviceType::Router, ..d }
}

/// The row a first insertion stores (see [`inserted`]).
pub fn insert_row(device: &Device) -> (r: Device)
    ensures
        r == inserted(*device),
{
    Device {
        id: device.id.clone(),
        network_id: device.network_id.clone(),
        primary_mac: device.primary_mac,
        primary_ip: device.primary_ip,
        hostname: clone_opt(&device.hostname),
        display_name: clone_opt(&device.display_name),
        vendor: clone_opt(&device.vendor),
        manufacturer: clone_opt(&device.manufacturer),
        model: clone_opt(&device.model),
        device_type: device.device_type,
        os_family: clone_opt(&device.os_family),
        confidence: device.confidence,
        first_seen_at: device.first_seen_at.clone(),
        last_seen_at: device.last_seen_at.clone(),
        is_trusted: device.is_trusted || device.device_type == DeviceType::Router,
        is_hidden: device.is_hidden,
        notes: clone_opt(&device.notes),
        is_online: device.is_online,
    }
}

/// How the stored row of a device is looked up, within its network.
#[derive(Clone, Copy, Debug)]
pub enum IdentityLookup {
    /// By MAC address; without such a row, promote a row of the same IP
    /// address that has no MAC address yet (when the device has an IP).
    ByMac { mac: MacAddr, ip: Option<IpAddr> },
    /// By IP address (the device has no usable MAC address).
    ByIp(IpAddr),
    /// The device has neither: it matches no stored row.
    Nothing,
}

/// The lookup for a device's identity: a MAC address that is not all zeros
/// wins over the IP address.
pub open spec fn identity_of(d: Device) -> IdentityLookup {
    match d.primary_mac {
        Some(m) => if !m.spec_is_zero() {
            IdentityLookup::ByMac { mac: m, ip: d.primary_ip }
        } else {
            match d.primary_ip {
                Some(ip) => IdentityLookup::ByIp(ip),
                None => IdentityLookup::Nothing,
            }
        },
        None => match d.primary_ip {
            Some(ip) => IdentityLookup::ByIp(ip),
            None => IdentityLookup::Nothing,
        },
    }
}

/// Chooses how to find the stored row of `device` (see [`identity_of`]).
pub fn identity_lookup(device: &Device) -> (r: IdentityLookup)
    ensures
        r == identity_of(*device),
{
    let mac_ok = match device.primary_mac {
        Some(m) => !m.is_zero(),
        None => false,
    };
    if mac_ok {
        match device.primary_mac {
            Some(m) => IdentityLookup::ByMac { mac: m, ip: device.primary_ip },
            None => IdentityLookup::Nothing,
        }
    } else {
        match device.primary_ip {
            Some(ip) => IdentityLookup::ByIp(ip),
            None => IdentityLookup::Nothing,
        }
    }
}

/// One user-editable column set by an edit.
#[derive(Clone, Debug, PartialEq, Eq)]
pub enum FieldUpdate {
    DisplayName(String),
    IsTrusted(bool),
    Notes(String),
}

/// The SQL of a partial device edit: `UPDATE devices SET <col> = ?, ... WHERE
/// id = ?`, one `<col> = ?` per column set, in the order display name, trust,
/// notes.
pub open spec fn update_sql(updates: Seq<FieldUpdate>) -> Seq<char> {
    "UPDATE devices SET "@ + set_list(updates) + " WHERE id = ?"@
}

/// `<col> = ?` for each update, joined by `, `.
pub open spec fn set_list(updates: Seq<FieldUpdate>) -> Seq<char>
    decreases updates.len(),
{
    if updates.len() == 0 {
        seq![]
    } else if updates.len() == 1 {
        set_fragment(updates[0])
    } else {
        set_list(updates.drop_last()) + ", "@ + set_fragment(updates.last())
    }
}

/// The `SET` fragment of one column.
pub open spec fn set_fragment(u: FieldUpdate) -> Seq<char> {
    match u {
        FieldUpdate::DisplayName(_) => "display_name = ?"@,
        FieldUpdate::IsTrusted(_) => "is_trusted = ?"@,
        FieldUpdate::Notes(_) => "notes = ?"@,
    }
}

/// The columns an edit sets: display name, trust and notes, each only when
/// given, in that order.
pub fn field_updates(display_name: Option<&str>, is_trusted: Option<bool>, notes: Option<&str>) -> (r:
    Vec<FieldUpdate>)
    ensures
        r@.len() == (if display_name is Some { 1int } else { 0int }) + (if is_trusted is Some {
            1int
        } else {
            0int
        }) + (if notes is Some { 1int } else { 0int }),
        display_name matches Some(n) ==> r@[0] matches FieldUpdate::DisplayName(s) && s@ == n@,
        is_trusted matches Some(b) ==> r@[(if display_name is Some { 1int } else { 0int })]
            == FieldUpdate::IsTrusted(b),
        notes matches Some(n) ==> r@[r@.len() - 1] matches FieldUpdate::Notes(s) && s@ == n@,
{
    let mut r: Vec<FieldUpdate> = Vec::new();
    match display_name {
        Some(n) => r.push(FieldUpdate::DisplayName(n.to_string())),
        None => {},
    }
    match is_trusted {
        Some(b) => r.push(FieldUpdate::IsTrusted(b)),
        None => {},
    }
    match notes {
        Some(n) => r.push(FieldUpdate::Notes(n.to_string())),
        None => {},
    }
    r
}

/// The SQL of an edit (see [`update_sql`]); `None` when it sets nothing, so
/// that nothing is run.
pub fn update_statement(updates: &[FieldUpdate]) -> (r: Option<String>)
    ensures
        updates@.len() == 0 <==> r is None,
        r matches Some(s) ==> s@ == update_sql(updates@),
{
    if updates.len() == 0 {
        return None;
    }
    let mut sql: Vec<char> = Vec::new();
    crate::text::extend_chars(&mut sql, &crate::text::chars_of("UPDATE devices SET "));
    let mut i: usize = 0;
    while i < updates.len()
        invariant
            i <= updates@.len(),
            sql@ == "UPDATE devices SET "@ + set_list(updates@.subrange(0, i as int)),
        decreases updates@.len() - i,
    {
        let ghost before = sql@;
        if i > 0 {
            crate::text::extend_chars(&mut sql, &crate::text::chars_of(", "));
        }
        let frag = match &updates[i] {
            FieldUpdate::DisplayName(_) => crate::text::chars_of("display_name = ?"),
            FieldUpdate::IsTrusted(_) => crate::text::chars_of("is_trusted = ?"),
            FieldUpdate::Notes(_) => crate::text::chars_of("notes = ?"),
        };
        crate::text::extend_chars(&mut sql, &frag);
        proof {
            let s = updates@.subrange(0, i + 1);
            assert(s.drop_last() =~= updates@.subrange(0, i as int));
            assert(s.last() == updates@[i as int]);
            if i == 0 {
                assert(set_list(s) == set_fragment(updates@[0]));
                assert(set_list(updates@.subrange(0, 0)) =~= Seq::<char>::empty());
            }
            assert(sql@ =~= "UPDATE devices SET "@ + set_list(s));
        }
        i = i + 1;
    }
    crate::text::extend_chars(&mut sql, &crate::text::chars_of(" WHERE id = ?"));
    assert(updates@.subrange(0, updates@.len() as int) =~= updates@);
    Some(crate::text::string_of(&sql))
}

} // verus!
