//! The timeline of changes between two scans: comparing the devices and
//! services of a network before and after a scan gives `device_new`,
//! `device_offline`, `device_online`, `device_ip_changed` and `port_opened`
//! events, and the devices whose online flag changes.

use vstd::prelude::*;

use crate::fingerprint::opt_view;
use crate::json::{
    json_object, json_object_text, json_string, json_value_text, keys_ascending, member_texts,
    text_less, JsonValue,
};
use crate::model::{Event, EventType, Severity};
use crate::text::decimal;
use crate::util::{is_uuid_v4_text, new_id};

verus! {

/// A device as the diff sees it.
#[derive(Clone, Debug, PartialEq, Eq)]
pub struct DeviceSnapshot {
    pub id: String,
    pub primary_ip: Option<String>,
    pub first_seen_at: String,
    pub is_online: bool,
}

/// A service as the diff sees it: a port of a device.
#[derive(Clone, Debug, PartialEq, Eq)]
pub struct ServiceSnapshot {
    pub device_id: String,
    pub protocol: String,
    pub port: u16,
    pub service_name: Option<String>,
}

/// What a diff yields: the events, in order, and the devices to store as
/// offline and as online.
#[derive(Clone, Debug)]
pub struct DiffOutcome {
    pub events: Vec<Event>,
    pub went_offline: Vec<String>,
    pub came_online: Vec<String>,
}

/// An event as plain values: (device, type, severity, message, data).
pub type EventView = (Option<Seq<char>>, EventType, Severity, Option<Seq<char>>, Option<Seq<char>>);

/// The plain values of an event.
pub open spec fn event_view(e: Event) -> EventView {
    (opt_view(e.device_id), e.event_type, e.severity, opt_view(e.message), opt_view(e.data_json))
}

/// The plain values of a list of events.
pub open spec fn event_views(v: Seq<Event>) -> Seq<EventView> {
    v.map_values(|e: Event| event_view(e))
}

/// The ids of a list of strings.
pub open spec fn texts(v: Seq<String>) -> Seq<Seq<char>> {
    v.map_values(|s: String| s@)
}

/// Some device of `v` has id `id`.
pub open spec fn has_device(v: Seq<DeviceSnapshot>, id: Seq<char>) -> bool {
    exists|i: int| 0 <= i < v.len() && (#[trigger] v[i]).id@ == id
}

/// Index of the last device of `v[..n]` with id `id`.
pub open spec fn last_device(v: Seq<DeviceSnapshot>, id: Seq<char>, n: int) -> Option<int>
    decreases n,
{
    if n <= 0 {
        None
    } else if v[n - 1].id@ == id {
        Some(n - 1)
    } else {
        last_device(v, id, n - 1)
    }
}

/// JSON text of an optional string: `null` or a string literal.
pub open spec fn opt_json(s: Option<Seq<char>>) -> Seq<char> {
    match s {
        Some(t) => json_string(t),
        None => "null"@,
    }
}

/// The data of an address change: `{"new_ip":..,"old_ip":..}`.
pub open spec fn ip_change_data(old_ip: Option<Seq<char>>, new_ip: Option<Seq<char>>) -> Seq<char> {
    json_object(seq![("new_ip"@, opt_json(new_ip)), ("old_ip"@, opt_json(old_ip))])
}

/// The data of a new open port: `{"port":..,"protocol":..,"service_name":..}`.
pub open spec fn port_data(s: ServiceSnapshot) -> Seq<char> {
    json_object(
        seq![
            ("port"@, decimal(s.port as nat)),
            ("protocol"@, json_string(s.protocol@)),
            ("service_name"@, opt_json(opt_view(s.service_name))),
        ],
    )
}

/// The event of one device.
pub open spec fn device_event(id: Seq<char>, t: EventType, sev: Severity, msg: Seq<char>, data: Option<
    Seq<char>,
>) -> EventView {
    (Some(id), t, sev, Some(msg), data)
}

/// `device_new` for each device seen this scan for the first time
/// (`first_seen_at` is this scan's time).
pub open spec fn new_views(after: Seq<DeviceSnapshot>, now: Seq<char>) -> Seq<EventView>
    decreases after.len(),
{
    if after.len() == 0 {
        seq![]
    } else {
        let before = new_views(after.drop_last(), now);
        let a = after.last();
        if a.first_seen_at@ == now {
            before.push(
                device_event(a.id@, EventType::DeviceNew, Severity::Info, "New device discovered"@, None),
            )
        } else {
            before
        }
    }
}

/// The devices online before and not seen this scan, in order.
pub open spec fn offline_ids(before: Seq<DeviceSnapshot>, after: Seq<DeviceSnapshot>) -> Seq<Seq<char>>
    decreases before.len(),
{
    if before.len() == 0 {
        seq![]
    } else {
        let prev = offline_ids(before.drop_last(), after);
        let b = before.last();
        if b.is_online && !has_device(after, b.id@) {
            prev.push(b.id@)
        } else {
            prev
        }
    }
}

/// The devices offline before and seen this scan, in order.
pub open spec fn online_ids(before: Seq<DeviceSnapshot>, after: Seq<DeviceSnapshot>) -> Seq<Seq<char>>
    decreases before.len(),
{
    if before.len() == 0 {
        seq![]
    } else {
        let prev = online_ids(before.drop_last(), after);
        let b = before.last();
        if !b.is_online && has_device(after, b.id@) {
            prev.push(b.id@)
        } else {
            prev
        }
    }
}

/// `device_offline` (a warning) for each device of `ids`.
pub open spec fn offline_views(ids: Seq<Seq<char>>) -> Seq<EventView> {
    ids.map_values(
        |id: Seq<char>|
            device_event(id, EventType::DeviceOffline, Severity::Warning, "Device offline"@, None),
    )
}

/// `device_online` for each device of `ids`.
pub open spec fn online_views(ids: Seq<Seq<char>>) -> Seq<EventView> {
    ids.map_values(
        |id: Seq<char>|
            device_event(id, EventType::DeviceOnline, Severity::Info, "Device back online"@, None),
    )
}

/// `device_ip_changed` for each device seen this scan whose address differs
/// from the one it had before (the last snapshot of it before counts).
pub open spec fn ip_views(after: Seq<DeviceSnapshot>, before: Seq<DeviceSnapshot>) -> Seq<EventView>
    decreases after.len(),
{
    if after.len() == 0 {
        seq![]
    } else {
        let prev = ip_views(after.drop_last(), before);
        let a = after.last();
        match last_device(before, a.id@, before.len() as int) {
            Some(k) => if opt_view(before[k].primary_ip) != opt_view(a.primary_ip) {
                prev.push(
                    device_event(
                        a.id@,
                        EventType::DeviceIpChanged,
                        Severity::Info,
                        "Device IP changed"@,
                        Some(ip_change_data(opt_view(before[k].primary_ip), opt_view(a.primary_ip))),
                    ),
                )
            } else {
                prev
            },
            None => prev,
        }
    }
}

/// Some service of `v` is port `port`/`protocol` of device `device`.
pub open spec fn has_service(v: Seq<ServiceSnapshot>, device: Seq<char>, protocol: Seq<char>, port: u16) -> bool {
    exists|i: int|
        0 <= i < v.len() && (#[trigger] v[i]).device_id@ == device && v[i].protocol@ == protocol
            && v[i].port == port
}

/// `port_opened` for each service of `svcs` of device `device` that was not
/// there before, in order.
pub open spec fn device_port_views(
    device: Seq<char>,
    svcs: Seq<ServiceSnapshot>,
    before: Seq<ServiceSnapshot>,
) -> Seq<EventView>
    decreases svcs.len(),
{
    if svcs.len() == 0 {
        seq![]
    } else {
        let prev = device_port_views(device, svcs.drop_last(), before);
        let s = svcs.last();
        if s.device_id@ == device && !has_service(before, device, s.protocol@, s.port) {
            prev.push(
                device_event(
                    device,
                    EventType::PortOpened,
                    Severity::Info,
                    "New port open"@,
                    Some(port_data(s)),
                ),
            )
        } else {
            prev
        }
    }
}

/// `port_opened` for the new services of each device seen this scan, device
/// by device.
pub open spec fn port_views(
    after: Seq<DeviceSnapshot>,
    after_svcs: Seq<ServiceSnapshot>,
    before_svcs: Seq<ServiceSnapshot>,
) -> Seq<EventView>
    decreases after.len(),
{
    if after.len() == 0 {
        seq![]
    } else {
        port_views(after.drop_last(), after_svcs, before_svcs) + device_port_views(
            after.last().id@,
            after_svcs,
            before_svcs,
        )
    }
}

/// All the events of a diff, in order: new devices, then (except on a cold
/// start) devices gone offline and devices back online, then address changes,
/// then new ports.
pub open spec fn diff_views(
    before: Seq<DeviceSnapshot>,
    before_svcs: Seq<ServiceSnapshot>,
    after: Seq<DeviceSnapshot>,
    after_svcs: Seq<ServiceSnapshot>,
    now: Seq<char>,
    cold_start: bool,
) -> Seq<EventView> {
    new_views(after, now) + (if cold_start {
        seq![]
    } else {
        offline_views(offline_ids(before, after))
    }) + (if cold_start {
        seq![]
    } else {
        online_views(online_ids(before, after))
    }) + ip_views(after, before) + port_views(after, after_svcs, before_svcs)
}

/// A new event with a fresh id, of `network_id`, created at `now`.
fn make_event(
    network_id: &str,
    device_id: &String,
    event_type: EventType,
    severity: Severity,
    message: &str,
    data_json: Option<String>,
    now: &str,
) -> (e: Event)
    ensures
        event_view(e) == device_event(device_id@, event_type, severity, message@, opt_view(data_json)),
        e.network_id@ == network_id@,
        e.created_at@ == now@,
        is_uuid_v4_text(e.id@),
{
    Event {
        id: new_id(),
        network_id: network_id.to_string(),
        device_id: Some(device_id.clone()),
        event_type,
        severity,
        message: Some(message.to_string()),
        data_json,
        created_at: now.to_string(),
    }
}

/// The events of a timeline, all of network `network_id` at time `now`, with
/// fresh ids.
pub open spec fn stamped(v: Seq<Event>, network_id: Seq<char>, now: Seq<char>) -> bool {
    forall|i: int|
        0 <= i < v.len() ==> (#[trigger] v[i]).network_id@ == network_id && v[i].created_at@ == now
            && is_uuid_v4_text(v[i].id@)
}

/// Whether some device of `v` has id `id`.
fn find_device(v: &[DeviceSnapshot], id: &String) -> (r: bool)
    ensures
        r == has_device(v@, id@),
{
    let mut i: usize = 0;
    while i < v.len()
        invariant
            i <= v@.len(),
            forall|k: int| 0 <= k < i ==> v@[k].id@ != id@,
        decreases v@.len() - i,
    {
        if v[i].id == *id {
            assert(v@[i as int].id@ == id@);
            return true;
        }
        i = i + 1;
    }
    false
}

/// Index of the last device of `v` with id `id`.
fn find_last_device(v: &[DeviceSnapshot], id: &String) -> (r: Option<usize>)
    ensures
        match r {
            Some(k) => last_device(v@, id@, v@.len() as int) == Some(k as int) && k < v@.len(),
            None => last_device(v@, id@, v@.len() as int) is None,
        },
{
    let mut n = v.len();
    while n > 0
        invariant
            n <= v@.len(),
            last_device(v@, id@, v@.len() as int) == last_device(v@, id@, n as int),
        decreases n,
    {
        if v[n - 1].id == *id {
            return Some(n - 1);
        }
        n = n - 1;
    }
    None
}

/// Whether some service of `v` is `port`/`protocol` of device `device`.
fn find_service(v: &[ServiceSnapshot], device: &String, protocol: &String, port: u16) -> (r: bool)
    ensures
        r == has_service(v@, device@, protocol@, port),
{
    let mut i: usize = 0;
    while i < v.len()
        invariant
            i <= v@.len(),
            forall|k: int|
                0 <= k < i ==> !(v@[k].device_id@ == device@ && v@[k].protocol@ == protocol@
                    && v@[k].port == port),
        decreases v@.len() - i,
    {
        if v[i].device_id == *device && v[i].protocol == *protocol && v[i].port == port {
            assert(v@[i as int].device_id@ == device@);
            return true;
        }
        i = i + 1;
    }
    false
}

/// The JSON text of an optional string.
fn opt_json_value(s: &Option<String>) -> (r: JsonValue)
    ensures
        json_value_text(r) == opt_json(opt_view(*s)),
{
    match s {
        Some(t) => JsonValue::Str(t.clone()),
        None => JsonValue::Null,
    }
}

/// The data of an address change.
fn ip_change_json(old_ip: &Option<String>, new_ip: &Option<String>) -> (r: String)
    ensures
        r@ == ip_change_data(opt_view(*old_ip), opt_view(*new_ip)),
{
    let mut fields: Vec<(String, JsonValue)> = Vec::new();
    fields.push(("new_ip".to_string(), opt_json_value(new_ip)));
    fields.push(("old_ip".to_string(), opt_json_value(old_ip)));
    proof {
        reveal_strlit("new_ip");
        reveal_strlit("old_ip");
        let m = member_texts(fields@);
        assert(m[0].0 == "new_ip"@);
        assert(m[1].0 == "old_ip"@);
        assert(text_less("new_ip"@, "old_ip"@)) by {
            assert("new_ip"@.subrange(0, 0) =~= "old_ip"@.subrange(0, 0));
        }
        assert(keys_ascending(m));
        assert(m =~= seq![("new_ip"@, opt_json(opt_view(*new_ip))), ("old_ip"@, opt_json(opt_view(*old_ip)))]);
    }
    json_object_text(fields)
}

/// The data of a new open port.
fn port_json(s: &ServiceSnapshot) -> (r: String)
    ensures
        r@ == port_data(*s),
{
    let mut fields: Vec<(String, JsonValue)> = Vec::new();
    fields.push(("port".to_string(), JsonValue::Num(s.port as u64)));
    fields.push(("protocol".to_string(), JsonValue::Str(s.protocol.clone())));
    fields.push(("service_name".to_string(), opt_json_value(&s.service_name)));
    proof {
        reveal_strlit("port");
        reveal_strlit("protocol");
        reveal_strlit("service_name");
        let m = member_texts(fields@);
        assert(text_less("port"@, "protocol"@)) by {
            assert("port"@.subrange(0, 1) =~= "protocol"@.subrange(0, 1));
        }
        assert(text_less("port"@, "service_name"@)) by {
            assert("port"@.subrange(0, 0) =~= "service_name"@.subrange(0, 0));
        }
        assert(text_less("protocol"@, "service_name"@)) by {
            assert("protocol"@.subrange(0, 0) =~= "service_name"@.subrange(0, 0));
        }
        assert(keys_ascending(m));
        assert(m =~= seq![
            ("port"@, decimal(s.port as nat)),
            ("protocol"@, json_string(s.protocol@)),
            ("service_name"@, opt_json(opt_view(s.service_name))),
        ]);
    }
    json_object_text(fields)
}

/// Whether two optional strings are equal.
fn opt_text_eq(a: &Option<String>, b: &Option<String>) -> (r: bool)
    ensures
        r == (opt_view(*a) == opt_view(*b)),
{
    match (a, b) {
        (Some(x), Some(y)) => *x == *y,
        (None, None) => true,
        _ => false,
    }
}

/// Appending an event appends its plain values.
proof fn lemma_views_push(v: Seq<Event>, e: Event)
    ensures
        event_views(v.push(e)) == event_views(v).push(event_view(e)),
{
    assert(event_views(v.push(e)) =~= event_views(v).push(event_view(e)));
}

/// Appends the `device_new` events.
fn push_new_events(events: &mut Vec<Event>, network_id: &str, now: &str, after: &[DeviceSnapshot])
    requires
        stamped(old(events)@, network_id@, now@),
    ensures
        event_views(final(events)@) == event_views(old(events)@) + new_views(after@, now@),
        stamped(final(events)@, network_id@, now@),
{
    let now_s = now.to_string();
    let ghost start = events@;
    let mut i: usize = 0;
    while i < after.len()
        invariant
            i <= after@.len(),
            now_s@ == now@,
            stamped(events@, network_id@, now@),
            event_views(events@) == event_views(start) + new_views(after@.subrange(0, i as int), now@),
        decreases after@.len() - i,
    {
        let ghost sub = after@.subrange(0, i + 1);
        assert(sub.drop_last() =~= after@.subrange(0, i as int));
        assert(sub.last() == after@[i as int]);
        if after[i].first_seen_at == now_s {
            let e = make_event(
                network_id,
                &after[i].id,
                EventType::DeviceNew,
                Severity::Info,
                "New device discovered",
                None,
                now,
            );
            let ghost prev = events@;
            events.push(e);
            proof {
                lemma_views_push(prev, e);
                assert(event_views(events@) =~= event_views(start) + new_views(sub, now@));
            }
        }
        i = i + 1;
    }
    assert(after@.subrange(0, after@.len() as int) =~= after@);
}

/// Appends the `device_offline` events and returns the devices gone offline.
fn push_offline_events(
    events: &mut Vec<Event>,
    network_id: &str,
    now: &str,
    before: &[DeviceSnapshot],
    after: &[DeviceSnapshot],
) -> (ids: Vec<String>)
    requires
        stamped(old(events)@, network_id@, now@),
    ensures
        texts(ids@) == offline_ids(before@, after@),
        event_views(final(events)@) == event_views(old(events)@) + offline_views(offline_ids(before@, after@)),
        stamped(final(events)@, network_id@, now@),
{
    let ghost start = events@;
    let mut ids: Vec<String> = Vec::new();
    let mut i: usize = 0;
    while i < before.len()
        invariant
            i <= before@.len(),
            stamped(events@, network_id@, now@),
            texts(ids@) == offline_ids(before@.subrange(0, i as int), after@),
            event_views(events@) == event_views(start) + offline_views(
                offline_ids(before@.subrange(0, i as int), after@),
            ),
        decreases before@.len() - i,
    {
        let ghost sub = before@.subrange(0, i + 1);
        assert(sub.drop_last() =~= before@.subrange(0, i as int));
        assert(sub.last() == before@[i as int]);
        if before[i].is_online && !find_device(after, &before[i].id) {
            let e = make_event(
                network_id,
                &before[i].id,
                EventType::DeviceOffline,
                Severity::Warning,
                "Device offline",
                None,
                now,
            );
            let ghost prev = events@;
            let ghost prev_ids = ids@;
            events.push(e);
            ids.push(before[i].id.clone());
            proof {
                lemma_views_push(prev, e);
                assert(texts(ids@) =~= texts(prev_ids).push(before@[i as int].id@));
                assert(offline_views(offline_ids(sub, after@)) =~= offline_views(
                    offline_ids(before@.subrange(0, i as int), after@),
                ).push(event_view(e)));
                assert(event_views(events@) =~= event_views(start) + offline_views(
                    offline_ids(sub, after@),
                ));
            }
        }
        i = i + 1;
    }
    assert(before@.subrange(0, before@.len() as int) =~= before@);
    ids
}

/// Appends the `device_online` events and returns the devices back online.
fn push_online_events(
    events: &mut Vec<Event>,
    network_id: &str,
    now: &str,
    before: &[DeviceSnapshot],
    after: &[DeviceSnapshot],
) -> (ids: Vec<String>)
    requires
        stamped(old(events)@, network_id@, now@),
    ensures
        texts(ids@) == online_ids(before@, after@),
        event_views(final(events)@) == event_views(old(events)@) + online_views(online_ids(before@, after@)),
        stamped(final(events)@, network_id@, now@),
{
    let ghost start = events@;
    let mut ids: Vec<String> = Vec::new();
    let mut i: usize = 0;
    while i < before.len()
        invariant
            i <= before@.len(),
            stamped(events@, network_id@, now@),
            texts(ids@) == online_ids(before@.subrange(0, i as int), after@),
            event_views(events@) == event_views(start) + online_views(
                online_ids(before@.subrange(0, i as int), after@),
            ),
        decreases before@.len() - i,
    {
        let ghost sub = before@.subrange(0, i + 1);
        assert(sub.drop_last() =~= before@.subrange(0, i as int));
        assert(sub.last() == before@[i as int]);
        if !before[i].is_online && find_device(after, &before[i].id) {
            let e = make_event(
                network_id,
                &before[i].id,
                EventType::DeviceOnline,
                Severity::Info,
                "Device back online",
                None,
                now,
            );
            let ghost prev = events@;
            let ghost prev_ids = ids@;
            events.push(e);
            ids.push(before[i].id.clone());
            proof {
                lemma_views_push(prev, e);
                assert(texts(ids@) =~= texts(prev_ids).push(before@[i as int].id@));
                assert(online_views(online_ids(sub, after@)) =~= online_views(
                    online_ids(before@.subrange(0, i as int), after@),
                ).push(event_view(e)));
                assert(event_views(events@) =~= event_views(start) + online_views(
                    online_ids(sub, after@),
                ));
            }
        }
        i = i + 1;
    }
    assert(before@.subrange(0, before@.len() as int) =~= before@);
    ids
}

/// Appends the `device_ip_changed` events.
fn push_ip_events(
    events: &mut Vec<Event>,
    network_id: &str,
    now: &str,
    after: &[DeviceSnapshot],
    before: &[DeviceSnapshot],
)
    requires
        stamped(old(events)@, network_id@, now@),
    ensures
        event_views(final(events)@) == event_views(old(events)@) + ip_views(after@, before@),
        stamped(final(events)@, network_id@, now@),
{
    let ghost start = events@;
    let mut i: usize = 0;
    while i < after.len()
        invariant
            i <= after@.len(),
            stamped(events@, network_id@, now@),
            event_views(events@) == event_views(start) + ip_views(after@.subrange(0, i as int), before@),
        decreases after@.len() - i,
    {
        let ghost sub = after@.subrange(0, i + 1);
        assert(sub.drop_last() =~= after@.subrange(0, i as int));
        assert(sub.last() == after@[i as int]);
        match find_last_device(before, &after[i].id) {
            Some(k) => {
                if !opt_text_eq(&before[k].primary_ip, &after[i].primary_ip) {
                    let data = ip_change_json(&before[k].primary_ip, &after[i].primary_ip);
                    let e = make_event(
                        network_id,
                        &after[i].id,
                        EventType::DeviceIpChanged,
                        Severity::Info,
                        "Device IP changed",
                        Some(data),
                        now,
                    );
                    let ghost prev = events@;
                    events.push(e);
                    proof {
                        lemma_views_push(prev, e);
                        assert(event_views(events@) =~= event_views(start) + ip_views(sub, before@));
                    }
                }
            },
            None => {},
        }
        i = i + 1;
    }
    assert(after@.subrange(0, after@.len() as int) =~= after@);
}

/// Appends the `port_opened` events of one device.
fn push_device_port_events(
    events: &mut Vec<Event>,
    network_id: &str,
    now: &str,
    device: &String,
    after_svcs: &[ServiceSnapshot],
    before_svcs: &[ServiceSnapshot],
)
    requires
        stamped(old(events)@, network_id@, now@),
    ensures
        event_views(final(events)@) == event_views(old(events)@) + device_port_views(
            device@,
            after_svcs@,
            before_svcs@,
        ),
        stamped(final(events)@, network_id@, now@),
{
    let ghost start = events@;
    let mut j: usize = 0;
    while j < after_svcs.len()
        invariant
            j <= after_svcs@.len(),
            stamped(events@, network_id@, now@),
            event_views(events@) == event_views(start) + device_port_views(
                device@,
                after_svcs@.subrange(0, j as int),
                before_svcs@,
            ),
        decreases after_svcs@.len() - j,
    {
        let ghost sub = after_svcs@.subrange(0, j + 1);
        assert(sub.drop_last() =~= after_svcs@.subrange(0, j as int));
        assert(sub.last() == after_svcs@[j as int]);
        let s = &after_svcs[j];
        if s.device_id == *device && !find_service(before_svcs, device, &s.protocol, s.port) {
            let data = port_json(s);
            let e = make_event(
                network_id,
                device,
                EventType::PortOpened,
                Severity::Info,
                "New port open",
                Some(data),
                now,
            );
            let ghost prev = events@;
            events.push(e);
            proof {
                lemma_views_push(prev, e);
                assert(event_views(events@) =~= event_views(start) + device_port_views(
                    device@,
                    sub,
                    before_svcs@,
                ));
            }
        }
        j = j + 1;
    }
    assert(after_svcs@.subrange(0, after_svcs@.len() as int) =~= after_svcs@);
}

/// Appends the `port_opened` events of every device seen this scan.
fn push_port_events(
    events: &mut Vec<Event>,
    network_id: &str,
    now: &str,
    after: &[DeviceSnapshot],
    after_svcs: &[ServiceSnapshot],
    before_svcs: &[ServiceSnapshot],
)
    requires
        stamped(old(events)@, network_id@, now@),
    ensures
        event_views(final(events)@) == event_views(old(events)@) + port_views(
            after@,
            after_svcs@,
            before_svcs@,
        ),
        stamped(final(events)@, network_id@, now@),
{
    let ghost start = events@;
    let mut i: usize = 0;
    while i < after.len()
        invariant
            i <= after@.len(),
            stamped(events@, network_id@, now@),
            event_views(events@) == event_views(start) + port_views(
                after@.subrange(0, i as int),
                after_svcs@,
                before_svcs@,
            ),
        decreases after@.len() - i,
    {
        let ghost sub = after@.subrange(0, i + 1);
        assert(sub.drop_last() =~= after@.subrange(0, i as int));
        assert(sub.last() == after@[i as int]);
        let ghost mid = event_views(events@);
        push_device_port_events(events, network_id, now, &after[i].id, after_svcs, before_svcs);
        assert(event_views(events@) =~= event_views(start) + port_views(sub, after_svcs@, before_svcs@));
        i = i + 1;
    }
    assert(after@.subrange(0, after@.len() as int) =~= after@);
}

/// Compares the devices and services of a network before and after a scan
/// at time `scan_now` (see [`diff_views`]). Every event is of `network_id`,
/// created at `scan_now`, with a fresh id. On a cold start nothing goes
/// offline or comes back online.
pub fn diff_events(
    network_id: &str,
    scan_now: &str,
    before: &[DeviceSnapshot],
    before_services: &[ServiceSnapshot],
    after: &[DeviceSnapshot],
    after_services: &[ServiceSnapshot],
    cold_start: bool,
) -> (r: DiffOutcome)
    ensures
        event_views(r.events@) == diff_views(
            before@,
            before_services@,
            after@,
            after_services@,
            scan_now@,
            cold_start,
        ),
        stamped(r.events@, network_id@, scan_now@),
        texts(r.went_offline@) == (if cold_start {
            Seq::<Seq<char>>::empty()
        } else {
            offline_ids(before@, after@)
        }),
        texts(r.came_online@) == (if cold_start {
            Seq::<Seq<char>>::empty()
        } else {
            online_ids(before@, after@)
        }),
        !cold_start ==> texts(r.came_online@) == before@.filter_map(
            (|b: DeviceSnapshot|
                if !b.is_online && exists|j: int| 0 <= j < after@.len() && (#[trigger] after@[j]).id@ == b.id@ {
                    Some(b.id@)
                } else {
                    None
                }),
        ),
        forall|i: int, j: int|
            #![trigger before@[i], after@[j]]
            !cold_start && 0 <= i < before@.len() && !before@[i].is_online && 0 <= j < after@.len()
                && after@[j].id@ == before@[i].id@ ==> event_views(r.events@).contains(
                device_event(before@[i].id@, EventType::DeviceOnline, Severity::Info, "Device back online"@, None),
            ),
{
    let mut events: Vec<Event> = Vec::new();
    assert(event_views(events@) =~= Seq::<EventView>::empty());
    push_new_events(&mut events, network_id, scan_now, after);
    let ghost v1 = event_views(events@);
    let (went_offline, came_online) = if cold_start {
        let a: Vec<String> = Vec::new();
        let b: Vec<String> = Vec::new();
        assert(texts(a@) =~= Seq::<Seq<char>>::empty());
        (a, b)
    } else {
        let off = push_offline_events(&mut events, network_id, scan_now, before, after);
        let on = push_online_events(&mut events, network_id, scan_now, before, after);
        (off, on)
    };
    let ghost v2 = event_views(events@);
    push_ip_events(&mut events, network_id, scan_now, after, before);
    push_port_events(&mut events, network_id, scan_now, after, after_services, before_services);
    proof {
        let nv = new_views(after@, scan_now@);
        assert(v1 == nv);
        if cold_start {
            assert(v2 == nv);
        }
        assert(event_views(events@) =~= diff_views(
            before@,
            before_services@,
            after@,
            after_services@,
            scan_now@,
            cold_start,
        ));
        lemma_online_ids_are_returning_devices(before@, after@);
        assert forall|i: int, j: int|
            #![trigger before@[i], after@[j]]
            !cold_start && 0 <= i < before@.len() && !before@[i].is_online && 0 <= j < after@.len()
                && after@[j].id@ == before@[i].id@ implies event_views(events@).contains(
                device_event(before@[i].id@, EventType::DeviceOnline, Severity::Info, "Device back online"@, None),
            ) by {
            lemma_returning_device_reported(before@, before_services@, after@, after_services@, scan_now@, i, j);
        }
    }
    DiffOutcome { events, went_offline, came_online }
}

// ---------------------------------------------------------------------------
// Laws of the diff.
// ---------------------------------------------------------------------------

/// Every event of `v` has type `t`.
pub open spec fn all_of_type(v: Seq<EventView>, t: EventType) -> bool {
    forall|i: int| 0 <= i < v.len() ==> (#[trigger] v[i]).1 == t
}

proof fn lemma_new_views_type(after: Seq<DeviceSnapshot>, now: Seq<char>)
    ensures
        all_of_type(new_views(after, now), EventType::DeviceNew),
    decreases after.len(),
{
    if after.len() > 0 {
        lemma_new_views_type(after.drop_last(), now);
    }
}

proof fn lemma_ip_views_type(after: Seq<DeviceSnapshot>, before: Seq<DeviceSnapshot>)
    ensures
        all_of_type(ip_views(after, before), EventType::DeviceIpChanged),
    decreases after.len(),
{
    if after.len() > 0 {
        lemma_ip_views_type(after.drop_last(), before);
    }
}

proof fn lemma_device_port_views_type(d: Seq<char>, svcs: Seq<ServiceSnapshot>, before: Seq<ServiceSnapshot>)
    ensures
        all_of_type(device_port_views(d, svcs, before), EventType::PortOpened),
    decreases svcs.len(),
{
    if svcs.len() > 0 {
        lemma_device_port_views_type(d, svcs.drop_last(), before);
    }
}

proof fn lemma_port_views_type(
    after: Seq<DeviceSnapshot>,
    after_svcs: Seq<ServiceSnapshot>,
    before_svcs: Seq<ServiceSnapshot>,
)
    ensures
        all_of_type(port_views(after, after_svcs, before_svcs), EventType::PortOpened),
    decreases after.len(),
{
    if after.len() > 0 {
        lemma_port_views_type(after.drop_last(), after_svcs, before_svcs);
        lemma_device_port_views_type(after.last().id@, after_svcs, before_svcs);
        let a = port_views(after.drop_last(), after_svcs, before_svcs);
        let b = device_port_views(after.last().id@, after_svcs, before_svcs);
        assert forall|i: int| 0 <= i < (a + b).len() implies (#[trigger] (a + b)[i]).1
            == EventType::PortOpened by {
            if i < a.len() {
                assert((a + b)[i] == a[i]);
            } else {
                assert((a + b)[i] == b[i - a.len()]);
            }
        }
    }
}

/// On a cold start (the first scan after a restart) no device is reported
/// offline or back online, whatever the snapshots.
pub proof fn lemma_cold_start_is_quiet(
    before: Seq<DeviceSnapshot>,
    before_svcs: Seq<ServiceSnapshot>,
    after: Seq<DeviceSnapshot>,
    after_svcs: Seq<ServiceSnapshot>,
    now: Seq<char>,
)
    ensures
        forall|i: int|
            0 <= i < diff_views(before, before_svcs, after, after_svcs, now, true).len() ==> {
                let t = (#[trigger] diff_views(before, before_svcs, after, after_svcs, now, true)[i]).1;
                t != EventType::DeviceOffline && t != EventType::DeviceOnline
            },
{
    lemma_new_views_type(after, now);
    lemma_ip_views_type(after, before);
    lemma_port_views_type(after, after_svcs, before_svcs);
    let a = new_views(after, now);
    let b = ip_views(after, before);
    let c = port_views(after, after_svcs, before_svcs);
    let e = Seq::<EventView>::empty();
    assert(diff_views(before, before_svcs, after, after_svcs, now, true) =~= a + e + e + b + c);
    assert(a + e + e + b + c =~= a + (b + c));
    assert forall|i: int| 0 <= i < (a + (b + c)).len() implies {
        let t = (#[trigger] (a + (b + c))[i]).1;
        t != EventType::DeviceOffline && t != EventType::DeviceOnline
    } by {
        if i < a.len() {
            assert((a + (b + c))[i] == a[i]);
        } else if i < a.len() + b.len() {
            assert((a + (b + c))[i] == b[i - a.len()]);
        } else {
            assert((a + (b + c))[i] == c[i - a.len() - b.len()]);
        }
    }
}

/// A rescan that changes nothing, whatever the order of the snapshots: every
/// device seen before was online and is seen again, no device seen now is
/// first seen now, every device seen now has the address every earlier
/// snapshot of it had, and every service seen now (device, protocol, port)
/// was there before.
pub open spec fn unchanged_rescan(
    before: Seq<DeviceSnapshot>,
    before_svcs: Seq<ServiceSnapshot>,
    after: Seq<DeviceSnapshot>,
    after_svcs: Seq<ServiceSnapshot>,
    now: Seq<char>,
) -> bool {
    &&& forall|i: int|
        0 <= i < before.len() ==> (#[trigger] before[i]).is_online && has_device(after, before[i].id@)
    &&& forall|j: int| 0 <= j < after.len() ==> (#[trigger] after[j]).first_seen_at@ != now
    &&& forall|i: int, j: int|
        0 <= i < before.len() && 0 <= j < after.len() && (#[trigger] before[i]).id@ == (
        #[trigger] after[j]).id@ ==> opt_view(before[i].primary_ip) == opt_view(after[j].primary_ip)
    &&& forall|k: int|
        0 <= k < after_svcs.len() ==> has_service(
            before_svcs,
            (#[trigger] after_svcs[k]).device_id@,
            after_svcs[k].protocol@,
            after_svcs[k].port,
        )
}

proof fn lemma_last_device(v: Seq<DeviceSnapshot>, id: Seq<char>, n: int)
    requires
        0 <= n <= v.len(),
    ensures
        last_device(v, id, n) matches Some(k) ==> 0 <= k < n && v[k].id@ == id,
        last_device(v, id, n) is None ==> forall|k: int| 0 <= k < n ==> v[k].id@ != id,
    decreases n,
{
    if n > 0 {
        lemma_last_device(v, id, n - 1);
    }
}

proof fn lemma_unchanged_new(after: Seq<DeviceSnapshot>, now: Seq<char>)
    requires
        forall|i: int| 0 <= i < after.len() ==> (#[trigger] after[i]).first_seen_at@ != now,
    ensures
        new_views(after, now).len() == 0,
    decreases after.len(),
{
    if after.len() > 0 {
        assert(after.last() == after[after.len() - 1]);
        lemma_unchanged_new(after.drop_last(), now);
    }
}

proof fn lemma_unchanged_offline_online(before: Seq<DeviceSnapshot>, after: Seq<DeviceSnapshot>, n: int)
    requires
        0 <= n <= before.len(),
        forall|i: int|
            0 <= i < before.len() ==> (#[trigger] before[i]).is_online && has_device(
                after,
                before[i].id@,
            ),
    ensures
        offline_ids(before.subrange(0, n), after).len() == 0,
        online_ids(before.subrange(0, n), after).len() == 0,
    decreases n,
{
    if n > 0 {
        let s = before.subrange(0, n);
        assert(s.drop_last() =~= before.subrange(0, n - 1));
        assert(s.last() == before[n - 1]);
        lemma_unchanged_offline_online(before, after, n - 1);
    }
}

proof fn lemma_unchanged_ip(before: Seq<DeviceSnapshot>, after: Seq<DeviceSnapshot>, n: int)
    requires
        0 <= n <= after.len(),
        forall|i: int, j: int|
            0 <= i < before.len() && 0 <= j < after.len() && (#[trigger] before[i]).id@ == (
            #[trigger] after[j]).id@ ==> opt_view(before[i].primary_ip) == opt_view(
                after[j].primary_ip,
            ),
    ensures
        ip_views(after.subrange(0, n), before).len() == 0,
    decreases n,
{
    if n > 0 {
        let s = after.subrange(0, n);
        assert(s.drop_last() =~= after.subrange(0, n - 1));
        assert(s.last() == after[n - 1]);
        let id = after[n - 1].id@;
        lemma_last_device(before, id, before.len() as int);
        match last_device(before, id, before.len() as int) {
            Some(k) => {
                assert(before[k].id@ == after[n - 1].id@);
            },
            None => {},
        }
        lemma_unchanged_ip(before, after, n - 1);
    }
}

proof fn lemma_unchanged_device_ports(d: Seq<char>, svcs: Seq<ServiceSnapshot>, all: Seq<ServiceSnapshot>)
    requires
        forall|k: int|
            0 <= k < svcs.len() ==> has_service(
                all,
                (#[trigger] svcs[k]).device_id@,
                svcs[k].protocol@,
                svcs[k].port,
            ),
    ensures
        device_port_views(d, svcs, all).len() == 0,
    decreases svcs.len(),
{
    if svcs.len() > 0 {
        assert(svcs.last() == svcs[svcs.len() - 1]);
        assert forall|k: int| 0 <= k < svcs.drop_last().len() implies has_service(
            all,
            (#[trigger] svcs.drop_last()[k]).device_id@,
            svcs.drop_last()[k].protocol@,
            svcs.drop_last()[k].port,
        ) by {
            assert(svcs.drop_last()[k] == svcs[k]);
        }
        lemma_unchanged_device_ports(d, svcs.drop_last(), all);
    }
}

proof fn lemma_unchanged_ports(
    after: Seq<DeviceSnapshot>,
    after_svcs: Seq<ServiceSnapshot>,
    before_svcs: Seq<ServiceSnapshot>,
)
    requires
        forall|k: int|
            0 <= k < after_svcs.len() ==> has_service(
                before_svcs,
                (#[trigger] after_svcs[k]).device_id@,
                after_svcs[k].protocol@,
                after_svcs[k].port,
            ),
    ensures
        port_views(after, after_svcs, before_svcs).len() == 0,
    decreases after.len(),
{
    if after.len() > 0 {
        lemma_unchanged_device_ports(after.last().id@, after_svcs, before_svcs);
        lemma_unchanged_ports(after.drop_last(), after_svcs, before_svcs);
    }
}

/// A rescan that changes nothing gives no event.
pub proof fn lemma_no_change_no_events(
    before: Seq<DeviceSnapshot>,
    before_svcs: Seq<ServiceSnapshot>,
    after: Seq<DeviceSnapshot>,
    after_svcs: Seq<ServiceSnapshot>,
    now: Seq<char>,
    cold_start: bool,
)
    requires
        unchanged_rescan(before, before_svcs, after, after_svcs, now),
    ensures
        diff_views(before, before_svcs, after, after_svcs, now, cold_start).len() == 0,
{
    lemma_unchanged_new(after, now);
    lemma_unchanged_offline_online(before, after, before.len() as int);
    assert(before.subrange(0, before.len() as int) =~= before);
    lemma_unchanged_ip(before, after, after.len() as int);
    assert(after.subrange(0, after.len() as int) =~= after);
    lemma_unchanged_ports(after, after_svcs, before_svcs);
}

/// The devices that come back online are exactly the devices of `before`
/// that were offline and are seen again in `after` (by id, whatever their
/// address now), in the order of `before`.
pub proof fn lemma_online_ids_are_returning_devices(before: Seq<DeviceSnapshot>, after: Seq<DeviceSnapshot>)
    ensures
        online_ids(before, after) == before.filter_map(
            (|b: DeviceSnapshot|
                if !b.is_online && exists|j: int| 0 <= j < after.len() && (#[trigger] after[j]).id@ == b.id@ {
                    Some(b.id@)
                } else {
                    None
                }),
        ),
    decreases before.len(),
{
    if before.len() > 0 {
        lemma_online_ids_are_returning_devices(before.drop_last(), after);
        let prev = online_ids(before.drop_last(), after);
        let b = before.last();
        assert(prev.push(b.id@) =~= prev + seq![b.id@]);
    }
}

/// Outside a cold start, a device that was offline and is seen again (by
/// id, whatever its address now) is reported back online: its id is among
/// the devices back online and the diff holds its `device_online` event.
pub proof fn lemma_returning_device_reported(
    before: Seq<DeviceSnapshot>,
    before_svcs: Seq<ServiceSnapshot>,
    after: Seq<DeviceSnapshot>,
    after_svcs: Seq<ServiceSnapshot>,
    now: Seq<char>,
    i: int,
    j: int,
)
    requires
        0 <= i < before.len(),
        !before[i].is_online,
        0 <= j < after.len(),
        after[j].id@ == before[i].id@,
    ensures
        online_ids(before, after).contains(before[i].id@),
        diff_views(before, before_svcs, after, after_svcs, now, false).contains(
            device_event(before[i].id@, EventType::DeviceOnline, Severity::Info, "Device back online"@, None),
        ),
{
    lemma_online_ids_contains(before, after, i, j);
    let ids = online_ids(before, after);
    let k = choose|k: int| 0 <= k < ids.len() && ids[k] == before[i].id@;
    let ev = device_event(before[i].id@, EventType::DeviceOnline, Severity::Info, "Device back online"@, None);
    let a = new_views(after, now) + offline_views(offline_ids(before, after));
    let b = online_views(ids);
    let c = ip_views(after, before) + port_views(after, after_svcs, before_svcs);
    assert(b[k] == ev);
    assert(diff_views(before, before_svcs, after, after_svcs, now, false) =~= a + b + c);
    assert((a + b + c)[a.len() + k] == ev);
}

proof fn lemma_online_ids_contains(before: Seq<DeviceSnapshot>, after: Seq<DeviceSnapshot>, i: int, j: int)
    requires
        0 <= i < before.len(),
        !before[i].is_online,
        0 <= j < after.len(),
        after[j].id@ == before[i].id@,
    ensures
        online_ids(before, after).contains(before[i].id@),
    decreases before.len(),
{
    let prev = online_ids(before.drop_last(), after);
    assert(has_device(after, before[i].id@));
    if i == before.len() - 1 {
        assert(online_ids(before, after) == prev.push(before[i].id@));
        assert(prev.push(before[i].id@)[prev.len() as int] == before[i].id@);
    } else {
        assert(before.drop_last()[i] == before[i]);
        lemma_online_ids_contains(before.drop_last(), after, i, j);
        let k = choose|k: int| 0 <= k < prev.len() && prev[k] == before[i].id@;
        let b = before.last();
        if !b.is_online && has_device(after, b.id@) {
            assert(prev.push(b.id@)[k] == before[i].id@);
        }
    }
}

} // verus!
