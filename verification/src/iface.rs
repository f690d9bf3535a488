//! Choosing the LAN interface to sweep, and the observations of the host and
//! of its gateway.

use vstd::prelude::*;

use crate::arp::ArpEntry;
use crate::errors::DiscoveryError;
use crate::model::{dotted, push_dotted, sighting, IpAddr, MacAddr, Observation, Source};
use crate::text::{chars_eq, chars_of, decimal, push_decimal, starts_with, starts_with_chars, string_of};

verus! {

/// A resolved LAN interface, ready to sweep.
#[derive(Clone, Debug, PartialEq, Eq)]
pub struct LanInterface {
    /// Interface name (`enp37s0`).
    pub name: String,
    /// The host's IPv4 address on it.
    pub ip: u32,
    /// Prefix length of its network (`24`).
    pub prefix_len: u8,
    /// The host's hardware address, when known.
    pub mac: Option<MacAddr>,
    /// The gateway's address, when detected.
    pub gateway_ip: Option<IpAddr>,
    /// The gateway's hardware address, when detected and not all zeros.
    pub gateway_mac: Option<MacAddr>,
    /// DNS servers announced for the interface.
    pub dns_servers: Vec<IpAddr>,
    /// SSID of the Wi-Fi network it is connected to, when wireless.
    pub ssid: Option<String>,
}

/// The gateway of an interface as the system reports it.
#[derive(Clone, Debug, PartialEq, Eq)]
pub struct NetGateway {
    /// Its IPv4 addresses.
    pub ipv4: Vec<u32>,
    /// Its hardware address (all zeros when unknown).
    pub mac: MacAddr,
}

/// A network interface as the system reports it.
#[derive(Clone, Debug, PartialEq, Eq)]
pub struct NetInterface {
    /// Interface name.
    pub name: String,
    /// Its IPv4 networks, as (address, prefix length).
    pub ipv4: Vec<(u32, u8)>,
    /// Its hardware address.
    pub mac: Option<MacAddr>,
    /// Its gateway, when it has one.
    pub gateway: Option<NetGateway>,
    /// DNS servers announced for it.
    pub dns_servers: Vec<IpAddr>,
}

impl LanInterface {
    /// The network in CIDR notation, `a.b.c.d/p`.
    pub fn cidr(&self) -> (r: String)
        ensures
            r@ == dotted(self.ip) + seq!['/'] + decimal(self.prefix_len as nat),
    {
        let mut v: Vec<char> = Vec::new();
        push_dotted(&mut v, self.ip);
        v.push('/');
        push_decimal(&mut v, self.prefix_len as u64);
        assert(v@ =~= dotted(self.ip) + seq!['/'] + decimal(self.prefix_len as nat));
        string_of(&v)
    }

    /// A sighting of the host itself: its address and, when known, its
    /// hardware address.
    pub fn self_observation(&self) -> (o: Observation)
        ensures
            sighting(o, Source::ArpCache, Some(IpAddr::V4(self.ip)), self.mac),
    {
        let o = Observation::new(Source::ArpCache).with_ip(IpAddr::V4(self.ip));
        match self.mac {
            Some(m) => o.with_mac(m),
            None => o,
        }
    }
}

/// Interface names that are no LAN: loopback, docker, tailscale, tunnels,
/// WireGuard and bridges.
pub open spec fn filtered_name(n: Seq<char>) -> bool {
    ||| n == "lo"@
    ||| n == "docker0"@
    ||| n == "tailscale0"@
    ||| n == "tun0"@
    ||| n == "wg0"@
    ||| n == "virbr0"@
    ||| n == "br0"@
    ||| starts_with(n, "docker"@)
    ||| starts_with(n, "tailscale"@)
    ||| starts_with(n, "tun"@)
    ||| starts_with(n, "wg"@)
    ||| starts_with(n, "virbr"@)
    ||| starts_with(n, "br-"@)
}

/// `true` when an interface name is no LAN (see [`filtered_name`]).
pub fn is_filtered_name(name: &str) -> (r: bool)
    ensures
        r == filtered_name(name@),
{
    let n = chars_of(name);
    let exact = chars_eq(&n, &chars_of("lo")) || chars_eq(&n, &chars_of("docker0")) || chars_eq(
        &n,
        &chars_of("tailscale0"),
    ) || chars_eq(&n, &chars_of("tun0")) || chars_eq(&n, &chars_of("wg0")) || chars_eq(
        &n,
        &chars_of("virbr0"),
    ) || chars_eq(&n, &chars_of("br0"));
    exact || starts_with_chars(&n, &chars_of("docker")) || starts_with_chars(
        &n,
        &chars_of("tailscale"),
    ) || starts_with_chars(&n, &chars_of("tun")) || starts_with_chars(&n, &chars_of("wg"))
        || starts_with_chars(&n, &chars_of("virbr")) || starts_with_chars(&n, &chars_of("br-"))
}

/// The gateway address an interface reports: its first IPv4 address.
pub open spec fn gateway_ip_of(g: Option<NetGateway>) -> Option<IpAddr> {
    match g {
        Some(gw) => if gw.ipv4@.len() > 0 {
            Some(IpAddr::V4(gw.ipv4@[0]))
        } else {
            None
        },
        None => None,
    }
}

/// The gateway hardware address an interface reports, unless all zeros.
pub open spec fn gateway_mac_of(g: Option<NetGateway>) -> Option<MacAddr> {
    match g {
        Some(gw) => if gw.mac.spec_is_zero() {
            None
        } else {
            Some(gw.mac)
        },
        None => None,
    }
}

/// An interface can be swept: its name is not filtered and it has an IPv4
/// network.
pub open spec fn usable(i: NetInterface) -> bool {
    !filtered_name(i.name@) && i.ipv4@.len() > 0
}

/// `r` is what [`lan_interface_from`] makes of `iface`: the interface with
/// its first IPv4 network, hardware address, gateway and DNS servers (SSID
/// unknown) when usable with a prefix of at most 32; `NoDefaultInterface` for
/// a filtered name; `NoIpv4` naming it otherwise.
pub open spec fn lan_from(iface: NetInterface, r: Result<LanInterface, DiscoveryError>) -> bool {
    match r {
        Ok(l) => {
            &&& usable(iface)
            &&& iface.ipv4@[0].1 <= 32
            &&& l.name@ == iface.name@
            &&& l.ip == iface.ipv4@[0].0
            &&& l.prefix_len == iface.ipv4@[0].1
            &&& l.mac == iface.mac
            &&& l.gateway_ip == gateway_ip_of(iface.gateway)
            &&& l.gateway_mac == gateway_mac_of(iface.gateway)
            &&& l.dns_servers@ == iface.dns_servers@
            &&& l.ssid is None
        },
        Err(DiscoveryError::NoDefaultInterface) => filtered_name(iface.name@),
        Err(DiscoveryError::NoIpv4 { name }) => {
            &&& !filtered_name(iface.name@)
            &&& (iface.ipv4@.len() == 0 || iface.ipv4@[0].1 > 32)
            &&& name@ == iface.name@
        },
        Err(_) => false,
    }
}

/// Turns a reported interface into a [`LanInterface`]: a filtered name gives
/// `NoDefaultInterface`; no IPv4 network, or a first one with a prefix longer
/// than 32, gives `NoIpv4`. The SSID is left unknown.
pub fn lan_interface_from(iface: NetInterface) -> (r: Result<LanInterface, DiscoveryError>)
    ensures
        lan_from(iface, r),
{
    if is_filtered_name(iface.name.as_str()) {
        return Err(DiscoveryError::NoDefaultInterface);
    }
    if iface.ipv4.len() == 0 {
        return Err(DiscoveryError::NoIpv4 { name: iface.name });
    }
    let (ip, prefix_len) = iface.ipv4[0];
    if prefix_len > 32 {
        return Err(DiscoveryError::NoIpv4 { name: iface.name });
    }
    let (gateway_ip, gateway_mac) = match &iface.gateway {
        Some(gw) => {
            let gip = if gw.ipv4.len() > 0 {
                Some(IpAddr::V4(gw.ipv4[0]))
            } else {
                None
            };
            let gmac = if gw.mac.is_zero() {
                None
            } else {
                Some(gw.mac)
            };
            (gip, gmac)
        },
        None => (None, None),
    };
    Ok(
        LanInterface {
            name: iface.name,
            ip,
            prefix_len,
            mac: iface.mac,
            gateway_ip,
            gateway_mac,
            dns_servers: iface.dns_servers,
            ssid: None,
        },
    )
}

/// Index of the last usable interface among the first `n` of `v` that has a
/// gateway (when `gw`) or any usable one (when not `gw`).
pub open spec fn last_usable(v: Seq<NetInterface>, n: int, gw: bool) -> Option<int>
    decreases n,
{
    if n <= 0 {
        None
    } else if usable(v[n - 1]) && (!gw || v[n - 1].gateway is Some) {
        Some(n - 1)
    } else {
        last_usable(v, n - 1, gw)
    }
}

/// The interface the fallback picks among `v`: the last usable one with a
/// gateway, or else the last usable one.
pub open spec fn alternative_of(v: Seq<NetInterface>) -> Option<int> {
    match last_usable(v, v.len() as int, true) {
        Some(i) => Some(i),
        None => last_usable(v, v.len() as int, false),
    }
}

/// What `last_usable` returns.
proof fn lemma_last_usable(v: Seq<NetInterface>, n: int, gw: bool)
    requires
        0 <= n <= v.len(),
    ensures
        last_usable(v, n, gw) matches Some(i) ==> 0 <= i < n && usable(v[i]) && (!gw
            || v[i].gateway is Some),
    decreases n,
{
    if n > 0 {
        lemma_last_usable(v, n - 1, gw);
    }
}

/// Executable [`last_usable`] over the whole of `v`.
fn find_last_usable(v: &[NetInterface], gw: bool) -> (r: Option<usize>)
    ensures
        match r {
            Some(i) => last_usable(v@, v@.len() as int, gw) == Some(i as int),
            None => last_usable(v@, v@.len() as int, gw) is None,
        },
{
    let mut n = v.len();
    while n > 0
        invariant
            n <= v@.len(),
            last_usable(v@, v@.len() as int, gw) == last_usable(v@, n as int, gw),
        decreases n,
    {
        let it = &v[n - 1];
        if !is_filtered_name(it.name.as_str()) && it.ipv4.len() > 0 && (!gw
            || it.gateway.is_some()) {
            return Some(n - 1);
        }
        n = n - 1;
    }
    None
}

/// Index of the interface the fallback picks (see [`alternative_of`]).
pub fn pick_alternative_index(v: &[NetInterface]) -> (r: Option<usize>)
    ensures
        match r {
            Some(i) => alternative_of(v@) == Some(i as int) && i < v@.len() && usable(v@[i as int]),
            None => alternative_of(v@) is None,
        },
{
    proof {
        lemma_last_usable(v@, v@.len() as int, true);
        lemma_last_usable(v@, v@.len() as int, false);
    }
    match find_last_usable(v, true) {
        Some(i) => Some(i),
        None => find_last_usable(v, false),
    }
}

/// The fallback when the default interface is filtered: among the usable
/// interfaces of `all`, the last one with a gateway, or else the last one;
/// `NoDefaultInterface` when none is usable.
pub fn pick_alternative(all: Vec<NetInterface>) -> (r: Result<LanInterface, DiscoveryError>)
    ensures
        match alternative_of(all@) {
            Some(i) => lan_from(all@[i], r),
            None => r matches Err(DiscoveryError::NoDefaultInterface),
        },
{
    match pick_alternative_index(&all) {
        Some(i) => {
            let ghost v = all@;
            let mut all = all;
            let it = all.swap_remove(i);
            assert(it == v[i as int]);
            lan_interface_from(it)
        },
        None => Err(DiscoveryError::NoDefaultInterface),
    }
}

/// Index of the first interface at or after `n` named `name`.
pub open spec fn first_named(v: Seq<NetInterface>, name: Seq<char>, n: int) -> Option<int>
    decreases v.len() - n,
{
    if n < 0 || n >= v.len() {
        None
    } else if v[n].name@ == name {
        Some(n)
    } else {
        first_named(v, name, n + 1)
    }
}

/// The interface named `name` among `all` (the first with that name), or
/// `InterfaceNotFound(name)` when there is none.
pub fn interface_by_name(name: &str, all: Vec<NetInterface>) -> (r: Result<
    LanInterface,
    DiscoveryError,
>)
    ensures
        match first_named(all@, name@, 0) {
            Some(i) => lan_from(all@[i], r),
            None => r matches Err(DiscoveryError::InterfaceNotFound(n)) && n@ == name@,
        },
{
    let want = chars_of(name);
    let mut i: usize = 0;
    while i < all.len()
        invariant
            want@ == name@,
            i <= all@.len(),
            first_named(all@, name@, 0) == first_named(all@, name@, i as int),
        decreases all@.len() - i,
    {
        let n = chars_of(all[i].name.as_str());
        if chars_eq(&n, &want) {
            let ghost v = all@;
            let mut all = all;
            let it = all.swap_remove(i);
            assert(it == v[i as int]);
            return lan_interface_from(it);
        }
        i = i + 1;
    }
    Err(DiscoveryError::InterfaceNotFound(name.to_string()))
}

/// The default interface (`default`, as the system reported it or its error
/// message), falling back to [`pick_alternative`] over `all` when its name is
/// filtered.
pub fn default_or_alternative(default: Result<NetInterface, String>, all: Vec<NetInterface>) -> (r:
    Result<LanInterface, DiscoveryError>)
    ensures
        match default {
            Err(m) => r matches Err(DiscoveryError::Netdev(n)) && n@ == m@,
            Ok(d) => if filtered_name(d.name@) {
                match alternative_of(all@) {
                    Some(i) => lan_from(all@[i], r),
                    None => r matches Err(DiscoveryError::NoDefaultInterface),
                }
            } else {
                lan_from(d, r)
            },
        },
{
    match default {
        Err(m) => Err(DiscoveryError::Netdev(m)),
        Ok(d) => match lan_interface_from(d) {
            Err(DiscoveryError::NoDefaultInterface) => pick_alternative(all),
            other => other,
        },
    }
}

/// Index of the first entry for `ip`.
pub open spec fn first_entry_for(v: Seq<ArpEntry>, ip: IpAddr, n: int) -> Option<int>
    decreases v.len() - n,
{
    if n < 0 || n >= v.len() {
        None
    } else if v[n].ip == ip {
        Some(n)
    } else {
        first_entry_for(v, ip, n + 1)
    }
}

/// The gateway's hardware address as the ARP table gives it: that of the first
/// entry for the gateway's address; `None` without an address, without such an
/// entry, or when that entry is incomplete.
pub open spec fn gateway_mac_in(gateway_ip: Option<IpAddr>, arp: Seq<ArpEntry>) -> Option<MacAddr> {
    match gateway_ip {
        None => None,
        Some(ip) => match first_entry_for(arp, ip, 0) {
            Some(i) => arp[i].mac,
            None => None,
        },
    }
}

/// Looks the gateway's hardware address up in the ARP table (see
/// [`gateway_mac_in`]).
pub fn resolve_gateway_mac(gateway_ip: Option<IpAddr>, arp: &[ArpEntry]) -> (r: Option<MacAddr>)
    ensures
        r == gateway_mac_in(gateway_ip, arp@),
{
    let ip = match gateway_ip {
        Some(ip) => ip,
        None => return None,
    };
    let mut i: usize = 0;
    while i < arp.len()
        invariant
            gateway_ip == Some(ip),
            i <= arp@.len(),
            first_entry_for(arp@, ip, 0) == first_entry_for(arp@, ip, i as int),
        decreases arp@.len() - i,
    {
        if arp[i].ip == ip {
            return arp[i].mac;
        }
        i = i + 1;
    }
    None
}

/// The observations of the gateway: none without its address; else one
/// sighting of its address, with its hardware address unless that is unknown
/// or all zeros.
pub fn gateway_observations(gateway_ip: Option<IpAddr>, gateway_mac: Option<MacAddr>) -> (r: Vec<
    Observation,
>)
    ensures
        gateway_ip is None ==> r@.len() == 0,
        gateway_ip is Some ==> r@.len() == 1 && sighting(
            r@[0],
            Source::ArpCache,
            gateway_ip,
            match gateway_mac {
                Some(m) => if m.spec_is_zero() {
                    None
                } else {
                    Some(m)
                },
                None => None,
            },
        ),
{
    let ip = match gateway_ip {
        Some(ip) => ip,
        None => return Vec::new(),
    };
    let mut obs = Observation::new(Source::ArpCache).with_ip(ip);
    match gateway_mac {
        Some(m) => {
            if !m.is_zero() {
                obs = obs.with_mac(m);
            }
        },
        None => {},
    }
    let mut r: Vec<Observation> = Vec::new();
    r.push(obs);
    r
}

} // verus!
