//! Device enrichment: vendor by OUI, host name from observations, the router
//! heuristic for the gateway address, and the fingerprint rules.

use vstd::prelude::*;

use crate::model::{
    classify, Confidence, Device, DeviceType, IpAddr, MacAddr, Observation,
};
use crate::oui::OuiDatabase;
use crate::rules::{evaluation, RuleSet};
use crate::text::clone_opt;

verus! {

/// Fingerprint configuration: the OUI database, the rules and the gateway
/// address of the scanned network.
pub struct Fingerprint {
    oui: OuiDatabase,
    rules: RuleSet,
    gateway_ip: Option<IpAddr>,
}

/// The text of an optional string.
pub open spec fn opt_view(o: Option<String>) -> Option<Seq<char>> {
    match o {
        Some(s) => Some(s@),
        None => None,
    }
}

/// The first non-zero MAC among the observations from index `i` on.
pub open spec fn first_mac_from(obs: Seq<Observation>, i: int) -> Option<MacAddr>
    decreases obs.len() - i,
{
    if i < 0 || i >= obs.len() {
        None
    } else {
        match obs[i].mac {
            Some(m) => if !m.spec_is_zero() {
                Some(m)
            } else {
                first_mac_from(obs, i + 1)
            },
            None => first_mac_from(obs, i + 1),
        }
    }
}

/// The first host name among the observations from index `i` on.
pub open spec fn first_hostname_from(obs: Seq<Observation>, i: int) -> Option<Seq<char>>
    decreases obs.len() - i,
{
    if i < 0 || i >= obs.len() {
        None
    } else if obs[i].hostname is Some {
        opt_view(obs[i].hostname)
    } else {
        first_hostname_from(obs, i + 1)
    }
}

/// The MAC whose OUI names the vendor: the device's own non-zero MAC, or else
/// the first non-zero MAC of the observations.
pub open spec fn vendor_mac(d: Device, obs: Seq<Observation>) -> Option<MacAddr> {
    match d.primary_mac {
        Some(m) => if !m.spec_is_zero() {
            Some(m)
        } else {
            first_mac_from(obs, 0)
        },
        None => first_mac_from(obs, 0),
    }
}

/// The vendor that enrichment fills in, if any: only when the device has none
/// and the chosen MAC's prefix is known.
pub open spec fn vendor_found(d: Device, obs: Seq<Observation>, oui: Map<u32, Seq<char>>) -> Option<
    Seq<char>,
> {
    if d.vendor is None {
        match vendor_mac(d, obs) {
            Some(m) => if oui.contains_key(m.spec_oui()) {
                Some(oui[m.spec_oui()])
            } else {
                None
            },
            None => None,
        }
    } else {
        None
    }
}

/// The classification after the gateway heuristic and the rules.
pub open spec fn enriched_class(
    d: Device,
    obs: Seq<Observation>,
    rules: Seq<crate::rules::Rule>,
    gateway: Option<IpAddr>,
) -> (DeviceType, Confidence) {
    let c1 = match gateway {
        Some(gw) => if d.primary_ip == Some(gw) {
            classify(d.device_type, d.confidence, DeviceType::Router, Confidence { value: 70 })
        } else {
            (d.device_type, d.confidence)
        },
        None => (d.device_type, d.confidence),
    };
    match evaluation(rules, obs) {
        Some((t, c)) => classify(c1.0, c1.1, t, c),
        None => c1,
    }
}

/// `new` is `old` enriched with `obs`, the OUI map, the rules and the gateway.
pub open spec fn enriched_from(
    new: Device,
    old: Device,
    obs: Seq<Observation>,
    oui: Map<u32, Seq<char>>,
    rules: Seq<crate::rules::Rule>,
    gateway: Option<IpAddr>,
) -> bool {
    let v = vendor_found(old, obs, oui);
    &&& opt_view(new.vendor) == (if v is Some { v } else { opt_view(old.vendor) })
    &&& opt_view(new.manufacturer) == (if v is Some && old.manufacturer is None {
        v
    } else {
        opt_view(old.manufacturer)
    })
    &&& opt_view(new.hostname) == (if old.hostname is None {
        first_hostname_from(obs, 0)
    } else {
        opt_view(old.hostname)
    })
    &&& (new.device_type, new.confidence) == enriched_class(old, obs, rules, gateway)
    &&& new.id == old.id
    &&& new.network_id == old.network_id
    &&& new.primary_mac == old.primary_mac
    &&& new.primary_ip == old.primary_ip
    &&& new.display_name == old.display_name
    &&& new.model == old.model
    &&& new.os_family == old.os_family
    &&& new.first_seen_at == old.first_seen_at
    &&& new.last_seen_at == old.last_seen_at
    &&& new.is_trusted == old.is_trusted
    &&& new.is_hidden == old.is_hidden
    &&& new.notes == old.notes
    &&& new.is_online == old.is_online
}

/// Index of the first observation with a non-zero MAC, from `i` on.
fn first_mac_exec(obs: &[Observation]) -> (r: Option<MacAddr>)
    ensures
        r == first_mac_from(obs@, 0),
{
    let mut i: usize = 0;
    while i < obs.len()
        invariant
            i <= obs@.len(),
            first_mac_from(obs@, 0) == first_mac_from(obs@, i as int),
        decreases obs@.len() - i,
    {
        if let Some(m) = obs[i].mac {
            if !m.is_zero() {
                return Some(m);
            }
        }
        i = i + 1;
    }
    None
}

/// The first host name among the observations.
fn first_hostname_exec(obs: &[Observation]) -> (r: Option<String>)
    ensures
        opt_view(r) == first_hostname_from(obs@, 0),
{
    let mut i: usize = 0;
    while i < obs.len()
        invariant
            i <= obs@.len(),
            first_hostname_from(obs@, 0) == first_hostname_from(obs@, i as int),
        decreases obs@.len() - i,
    {
        if obs[i].hostname.is_some() {
            return clone_opt(&obs[i].hostname);
        }
        i = i + 1;
    }
    None
}

impl Fingerprint {
    /// Fingerprint configuration from its parts.
    pub fn from_parts(oui: OuiDatabase, rules: RuleSet, gateway_ip: Option<IpAddr>) -> (f:
        Fingerprint)
        ensures
            f.spec_oui() == oui.spec_map(),
            f.spec_rules() == rules.spec_rules(),
            f.spec_gateway() == gateway_ip,
    {
        Fingerprint { oui, rules, gateway_ip }
    }

    /// The vendor map in use.
    pub closed spec fn spec_oui(&self) -> Map<u32, Seq<char>> {
        self.oui.spec_map()
    }

    /// The rules in use.
    pub closed spec fn spec_rules(&self) -> Seq<crate::rules::Rule> {
        self.rules.spec_rules()
    }

    /// The gateway address in use.
    pub closed spec fn spec_gateway(&self) -> Option<IpAddr> {
        self.gateway_ip
    }

    /// Enriches `device` with what `observations`, the OUI map, the gateway
    /// heuristic (router at confidence 70) and the rules tell about it. Known
    /// values are kept; a classification is replaced only by one of at least
    /// the same confidence.
    pub fn enrich(&self, device: &mut Device, observations: &[Observation])
        ensures
            enriched_from(
                *final(device),
                *old(device),
                observations@,
                self.spec_oui(),
                self.spec_rules(),
                self.spec_gateway(),
            ),
            final(device).confidence.value >= old(device).confidence.value,
    {
        enrich_device(device, observations, &self.oui, &self.rules, self.gateway_ip);
    }
}

/// Enrichment with explicit configuration.
fn enrich_device(
    device: &mut Device,
    observations: &[Observation],
    oui: &OuiDatabase,
    rules: &RuleSet,
    gateway_ip: Option<IpAddr>,
)
    ensures
        enriched_from(
            *final(device),
            *old(device),
            observations@,
            oui.spec_map(),
            rules.spec_rules(),
            gateway_ip,
        ),
        final(device).confidence.value >= old(device).confidence.value,
{
    let ghost d0 = *device;
    // 1. Vendor by OUI.
    if device.vendor.is_none() {
        let mac = match device.primary_mac {
            Some(m) => if !m.is_zero() {
                Some(m)
            } else {
                first_mac_exec(observations)
            },
            None => first_mac_exec(observations),
        };
        if let Some(m) = mac {
            if let Some(vendor) = oui.vendor_for(&m) {
                let v = vendor.to_string();
                if device.manufacturer.is_none() {
                    device.manufacturer = Some(v.clone());
                }
                device.vendor = Some(v);
            }
        }
    }
    // 2. Host name from the observations.
    if device.hostname.is_none() {
        let h = first_hostname_exec(observations);
        if h.is_some() {
            device.hostname = h;
        }
    }
    // 3. Router heuristic for the gateway address.
    if let Some(gw) = gateway_ip {
        if device.primary_ip == Some(gw) {
            device.apply_classification(DeviceType::Router, Confidence::new(70));
        }
    }
    // 4. Rules: the best classification competes with the current one.
    if let Some((dtype, conf)) = rules.evaluate(observations) {
        device.apply_classification(dtype, conf);
    }
}

/// Enriching twice with the same observations and configuration gives the
/// same vendor, manufacturer, host name and classification as enriching once.
pub proof fn lemma_enrich_idempotent(
    d0: Device,
    d1: Device,
    d2: Device,
    obs: Seq<Observation>,
    oui: Map<u32, Seq<char>>,
    rules: Seq<crate::rules::Rule>,
    gateway: Option<IpAddr>,
)
    requires
        enriched_from(d1, d0, obs, oui, rules, gateway),
        enriched_from(d2, d1, obs, oui, rules, gateway),
    ensures
        opt_view(d2.vendor) == opt_view(d1.vendor),
        opt_view(d2.manufacturer) == opt_view(d1.manufacturer),
        opt_view(d2.hostname) == opt_view(d1.hostname),
        d2.device_type == d1.device_type,
        d2.confidence == d1.confidence,
{
}

} // verus!
