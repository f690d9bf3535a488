//! The TCP-connect liveness sweep: the observation of a host that accepted a
//! connection, and the progress events of the sweep.

use vstd::prelude::*;

use crate::iface::{gateway_observations, LanInterface};
use crate::model::{hint_index, hint_pairs, hint_value, sighting, IpAddr, Observation, Source};
use crate::netutil::{enumerate_hosts, host_count, lemma_host_count_bound};
use crate::scan::{progress_due, progress_due_spec};
use crate::text::{decimal, decimal_chars, string_of};

verus! {

/// An event of a streaming discovery: a host seen by some technique, or the
/// progress of the TCP sweep (`swept` of `total` addresses probed).
#[derive(Clone, Debug)]
pub enum DiscoveryEvent {
    Host(Observation),
    Progress { swept: u32, total: u32 },
}

/// The [`Source::TcpPing`] observation of `host`, which accepted a connection
/// on `port`: its address and the hint `tcp.ports` holding the port number.
pub fn tcp_observation(host: u32, port: u16) -> (o: Observation)
    ensures
        o.source == Source::TcpPing,
        o.ip == Some(IpAddr::V4(host)),
        o.mac is None,
        o.hostname is None,
        hint_value(o, "tcp.ports"@) == Some(decimal(port as nat)),
        forall|k: Seq<char>| k != "tcp.ports"@ ==> hint_value(o, k) is None,
{
    let base = Observation::new(Source::TcpPing).with_ip(IpAddr::V4(host));
    assert forall|k: Seq<char>| hint_value(base, k) is None by {
        assert(hint_pairs(base).len() == 0);
        assert(hint_index(hint_pairs(base), k) is None);
    }
    let digits = decimal_chars(port as u64);
    base.with_hint("tcp.ports".to_string(), string_of(&digits))
}

/// Number of addresses the sweep of `iface` probes, as a count.
pub fn sweep_total(iface: &LanInterface) -> (t: u32)
    ensures
        t == host_count(iface.ip, iface.prefix_len),
{
    let hosts = enumerate_hosts(iface.ip, iface.prefix_len);
    proof {
        lemma_host_count_bound(iface.ip, iface.prefix_len);
    }
    hosts.len() as u32
}

/// The progress event due after the `n`-th probed address of `total`: every
/// 8 addresses and at the last one.
pub fn sweep_progress(n: u32, total: u32) -> (r: Option<DiscoveryEvent>)
    ensures
        progress_due_spec(n as nat, total as nat) <==> r is Some,
        r matches Some(e) ==> e == (DiscoveryEvent::Progress { swept: n, total }),
{
    if progress_due(n as u64, total as u64) {
        Some(DiscoveryEvent::Progress { swept: n, total })
    } else {
        None
    }
}

/// The events a streaming discovery of `iface` opens with: zero progress over
/// the whole sweep, then the sightings of the gateway.
pub fn stream_start(iface: &LanInterface) -> (r: Vec<DiscoveryEvent>)
    ensures
        r@.len() >= 1,
        r@[0] == (DiscoveryEvent::Progress { swept: 0, total: host_count(iface.ip, iface.prefix_len) as u32 }),
        iface.gateway_ip is None ==> r@.len() == 1,
        iface.gateway_ip is Some ==> r@.len() == 2,
        r@.len() == 2 ==> match r@[1] {
            DiscoveryEvent::Host(o) => sighting(
                o,
                Source::ArpCache,
                iface.gateway_ip,
                match iface.gateway_mac {
                    Some(m) => if m.spec_is_zero() {
                        None
                    } else {
                        Some(m)
                    },
                    None => None,
                },
            ),
            _ => false,
        },
{
    let total = sweep_total(iface);
    let mut r: Vec<DiscoveryEvent> = Vec::new();
    r.push(DiscoveryEvent::Progress { swept: 0, total });
    let mut gw = gateway_observations(iface.gateway_ip, iface.gateway_mac);
    match gw.pop() {
        Some(o) => r.push(DiscoveryEvent::Host(o)),
        None => {},
    }
    r
}

} // verus!
