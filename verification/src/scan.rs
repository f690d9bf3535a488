//! Scan profiles and the bookkeeping of a port scan: which ports a profile
//! probes, its timing, discovery timing, and the progress reports of a scan.
//!
//! Durations are whole milliseconds (nanoseconds for [`split_budget`]).

use vstd::prelude::*;

use crate::model::ScanProfile;
use crate::ports::{select_ports, selected_ports};

verus! {

/// Fixed ports of the `iot` profile (RTSP/ONVIF, HTTP/S, MQTT, CoAP, UPnP, TR-069).
pub const IOT_PORTS: [u16; 8] = [554, 80, 443, 1883, 5683, 1900, 5000, 7547];

/// Fixed ports of the `router` profile (admin, SSH, Telnet, DNS, DHCP, UPnP, TR-069).
pub const ROUTER_PORTS: [u16; 8] = [22, 23, 80, 443, 1900, 53, 67, 7547];

/// Well-known UDP ports of the limited UDP scan (DNS, DHCP, NTP, SNMP, SSDP, mDNS).
pub const UDP_PORTS: [u16; 7] = [53, 67, 68, 123, 161, 1900, 5353];

/// Probe ports of the TCP liveness sweep (common LAN services).
pub const PROBE_PORTS: [u16; 6] = [80, 443, 22, 445, 53, 8080];

/// Timing and limits of a port scan.
#[derive(Clone, Copy, Debug, PartialEq, Eq)]
pub struct ScanOptions {
    /// Time allowed for each TCP connection attempt, in milliseconds.
    pub connect_timeout_ms: u64,
    /// Deadline of the whole scan, in milliseconds.
    pub scan_timeout_ms: u64,
    /// Time allowed to read a greeting after connecting, in milliseconds.
    pub banner_timeout_ms: u64,
    /// Most ports probed at once.
    pub concurrency: usize,
    /// Also run the limited UDP scan.
    pub enable_udp: bool,
}

impl Default for ScanOptions {
    /// Conservative values for a home /24: 600 ms per connection, 20 s in
    /// all, 400 ms for a greeting, 128 at once, no UDP.
    fn default() -> (o: Self)
        ensures
            o == (ScanOptions {
                connect_timeout_ms: 600,
                scan_timeout_ms: 20000,
                banner_timeout_ms: 400,
                concurrency: 128,
                enable_udp: false,
            }),
    {
        ScanOptions {
            connect_timeout_ms: 600,
            scan_timeout_ms: 20000,
            banner_timeout_ms: 400,
            concurrency: 128,
            enable_udp: false,
        }
    }
}

/// The TCP ports a profile probes.
pub open spec fn profile_ports(profile: ScanProfile) -> Seq<u16> {
    match profile {
        ScanProfile::Quick => selected_ports(32),
        ScanProfile::Normal => selected_ports(100),
        ScanProfile::Deep => selected_ports(1000),
        ScanProfile::Iot => IOT_PORTS@,
        ScanProfile::Router => ROUTER_PORTS@,
    }
}

/// Copies a fixed array of ports into a vector.
fn ports_vec(ports: &[u16]) -> (r: Vec<u16>)
    ensures
        r@ == ports@,
{
    let mut r: Vec<u16> = Vec::new();
    let mut i: usize = 0;
    while i < ports.len()
        invariant
            i <= ports@.len(),
            r@ == ports@.subrange(0, i as int),
        decreases ports@.len() - i,
    {
        r.push(ports[i]);
        i = i + 1;
        assert(r@ =~= ports@.subrange(0, i as int));
    }
    assert(ports@.subrange(0, ports@.len() as int) =~= ports@);
    r
}

/// The TCP ports of a profile: the top 32/100/1000 of the catalogue for
/// quick/normal/deep (bounded by its size), fixed lists for iot/router.
pub fn ports_for_profile(profile: ScanProfile) -> (r: Vec<u16>)
    ensures
        r@ == profile_ports(profile),
{
    match profile {
        ScanProfile::Quick => select_ports(32),
        ScanProfile::Normal => select_ports(100),
        ScanProfile::Deep => select_ports(1000),
        ScanProfile::Iot => ports_vec(&IOT_PORTS),
        ScanProfile::Router => ports_vec(&ROUTER_PORTS),
    }
}

/// The scan options of a profile.
pub open spec fn profile_options_of(profile: ScanProfile) -> ScanOptions {
    match profile {
        ScanProfile::Quick => ScanOptions {
            connect_timeout_ms: 1000,
            banner_timeout_ms: 500,
            concurrency: 100,
            scan_timeout_ms: 15000,
            enable_udp: false,
        },
        ScanProfile::Normal => ScanOptions {
            connect_timeout_ms: 2000,
            banner_timeout_ms: 1000,
            concurrency: 100,
            scan_timeout_ms: 30000,
            enable_udp: false,
        },
        ScanProfile::Deep => ScanOptions {
            connect_timeout_ms: 3000,
            banner_timeout_ms: 2000,
            concurrency: 50,
            scan_timeout_ms: 90000,
            enable_udp: true,
        },
        ScanProfile::Iot | ScanProfile::Router => ScanOptions {
            connect_timeout_ms: 2000,
            banner_timeout_ms: 1000,
            concurrency: 80,
            scan_timeout_ms: 15000,
            enable_udp: false,
        },
    }
}

/// Timing, concurrency and UDP switch of a profile.
pub fn profile_options(profile: ScanProfile) -> (o: ScanOptions)
    ensures
        o == profile_options_of(profile),
{
    match profile {
        ScanProfile::Quick => ScanOptions {
            connect_timeout_ms: 1000,
            banner_timeout_ms: 500,
            concurrency: 100,
            scan_timeout_ms: 15000,
            enable_udp: false,
        },
        ScanProfile::Normal => ScanOptions {
            connect_timeout_ms: 2000,
            banner_timeout_ms: 1000,
            concurrency: 100,
            scan_timeout_ms: 30000,
            enable_udp: false,
        },
        ScanProfile::Deep => ScanOptions {
            connect_timeout_ms: 3000,
            banner_timeout_ms: 2000,
            concurrency: 50,
            scan_timeout_ms: 90000,
            enable_udp: true,
        },
        ScanProfile::Iot | ScanProfile::Router => ScanOptions {
            connect_timeout_ms: 2000,
            banner_timeout_ms: 1000,
            concurrency: 80,
            scan_timeout_ms: 15000,
            enable_udp: false,
        },
    }
}

/// Every profile probes at least one port, deep probes at least what normal
/// probes (the normal ports first), and only deep scans UDP.
pub proof fn lemma_profiles()
    ensures
        forall|p: ScanProfile| profile_ports(p).len() > 0,
        profile_ports(ScanProfile::Deep).len() >= profile_ports(ScanProfile::Normal).len(),
        profile_ports(ScanProfile::Deep).take(profile_ports(ScanProfile::Normal).len() as int)
            == profile_ports(ScanProfile::Normal),
        forall|p: ScanProfile| #[trigger] profile_options_of(p).enable_udp <==> p == ScanProfile::Deep,
        profile_options_of(ScanProfile::Deep).connect_timeout_ms > profile_options_of(
            ScanProfile::Quick,
        ).connect_timeout_ms,
{
    assert(selected_ports(1000).take(100) =~= selected_ports(100));
}

// ---------------------------------------------------------------------------
// Progress of a port scan.
// ---------------------------------------------------------------------------

/// Progress of a scan, reported to the caller.
#[derive(Clone, Copy, Debug, Default, PartialEq, Eq)]
pub struct ScanProgress {
    /// Percentage done, `0..=100`.
    pub percent_done: u8,
    /// Ports probed so far.
    pub ports_tested: usize,
    /// Ports in the profile's catalogue.
    pub ports_total: usize,
    /// Last open port found, if any.
    pub latest_open_port: Option<u16>,
}

/// A report is due after `done` of `total` items: every 8 items and at the last.
pub open spec fn progress_due_spec(done: nat, total: nat) -> bool {
    done % 8 == 0 || done == total
}

/// Whether a progress report is due after `done` of `total` items.
pub fn progress_due(done: u64, total: u64) -> (r: bool)
    ensures
        r == progress_due_spec(done as nat, total as nat),
{
    done % 8 == 0 || done == total
}

/// Percentage for `done` of `total`: `done * 100 / max(total, 1)`, read as
/// 100 when it does not fit a byte.
pub open spec fn percent_of(done: nat, total: nat) -> u8 {
    let v = done * 100 / (if total == 0 { 1 } else { total });
    if v <= 255 {
        v as u8
    } else {
        100
    }
}

/// Executable [`percent_of`].
pub fn percent(done: usize, total: usize) -> (r: u8)
    ensures
        r == percent_of(done as nat, total as nat),
{
    let d = if total == 0 {
        1u128
    } else {
        total as u128
    };
    let v = (done as u128) * 100 / d;
    if v <= 255 {
        v as u8
    } else {
        100
    }
}

/// Bookkeeping of a running port scan: ports probed so far and the last open
/// one. Each probed port is recorded once.
#[derive(Clone, Copy, Debug, PartialEq, Eq)]
pub struct ScanTracker {
    pub total: usize,
    pub probed: usize,
    pub latest_open_port: Option<u16>,
}

impl ScanTracker {
    /// A scan of `total` ports, nothing probed yet.
    pub fn new(total: usize) -> (t: ScanTracker)
        ensures
            t == (ScanTracker { total, probed: 0, latest_open_port: None }),
    {
        ScanTracker { total, probed: 0, latest_open_port: None }
    }

    /// The report for the current state.
    pub open spec fn report(&self) -> ScanProgress {
        ScanProgress {
            percent_done: percent_of(self.probed as nat, self.total as nat),
            ports_tested: self.probed,
            ports_total: self.total,
            latest_open_port: self.latest_open_port,
        }
    }

    fn current(&self) -> (p: ScanProgress)
        ensures
            p == self.report(),
    {
        ScanProgress {
            percent_done: percent(self.probed, self.total),
            ports_tested: self.probed,
            ports_total: self.total,
            latest_open_port: self.latest_open_port,
        }
    }

    /// Records one probed port, open or not, and returns the report that is
    /// due, if any (every 8 ports and at the last one).
    pub fn record(&mut self, open_port: Option<u16>) -> (r: Option<ScanProgress>)
        requires
            old(self).probed < old(self).total,
        ensures
            final(self).total == old(self).total,
            final(self).probed == old(self).probed + 1,
            final(self).latest_open_port == (if open_port is Some {
                open_port
            } else {
                old(self).latest_open_port
            }),
            r == (if progress_due_spec(final(self).probed as nat, final(self).total as nat) {
                Some(final(self).report())
            } else {
                None
            }),
    {
        self.probed = self.probed + 1;
        if open_port.is_some() {
            self.latest_open_port = open_port;
        }
        if progress_due(self.probed as u64, self.total as u64) {
            Some(self.current())
        } else {
            None
        }
    }

    /// The closing report: the current state when the scan ran to its end,
    /// none when it was cancelled (the last report stands).
    pub fn finish(&self, cancelled: bool) -> (r: Option<ScanProgress>)
        ensures
            r == (if cancelled {
                None
            } else {
                Some(self.report())
            }),
    {
        if cancelled {
            None
        } else {
            Some(self.current())
        }
    }
}

/// Reports never exceed 100 % while at most all ports are probed, and a scan
/// that probed every port reports 100 %.
pub proof fn lemma_percent_bounds(done: nat, total: nat)
    requires
        done <= total,
    ensures
        percent_of(done, total) <= 100,
        total > 0 && done == total ==> percent_of(done, total) == 100,
{
    if total > 0 {
        assert(done * 100 / total <= 100) by (nonlinear_arith)
            requires
                done <= total,
                total > 0,
        ;
        if done == total {
            assert(done * 100 / total == 100) by (nonlinear_arith)
                requires
                    done == total,
                    total > 0,
            ;
        }
    }
}

// ---------------------------------------------------------------------------
// Discovery timing.
// ---------------------------------------------------------------------------

/// Timing of host discovery, per technique, in milliseconds.
#[derive(Clone, Debug, PartialEq, Eq)]
pub struct DiscoverOptions {
    /// Depth profile.
    pub profile: ScanProfile,
    /// Interface to use; `None` picks the default route.
    pub interface: Option<String>,
    /// Per-port TCP connection timeout.
    pub tcp_timeout_ms: u64,
    /// ICMP listening time.
    pub icmp_timeout_ms: u64,
    /// mDNS listening time.
    pub mdns_timeout_ms: u64,
    /// SSDP listening time.
    pub ssdp_timeout_ms: u64,
    /// ARP sweep time (with raw-socket capability only).
    pub arp_sweep_timeout_ms: u64,
    /// Most hosts swept at once.
    pub concurrency: usize,
}

/// `(tcp, icmp, mdns, ssdp, arp sweep, concurrency)` of a profile: quick is
/// the fastest, deep the slowest; iot and router use the normal timing.
pub open spec fn discover_timing(profile: ScanProfile) -> (u64, u64, u64, u64, u64, usize) {
    match profile {
        ScanProfile::Quick => (400, 2000, 3000, 3000, 2000, 256),
        ScanProfile::Normal | ScanProfile::Iot | ScanProfile::Router => (
            800,
            4000,
            5000,
            5000,
            4000,
            256,
        ),
        ScanProfile::Deep => (1000, 6000, 8000, 8000, 6000, 512),
    }
}

impl DiscoverOptions {
    /// The discovery options of a profile, on the default interface.
    pub fn for_profile(profile: ScanProfile) -> (o: DiscoverOptions)
        ensures
            o.profile == profile,
            o.interface is None,
            (o.tcp_timeout_ms, o.icmp_timeout_ms, o.mdns_timeout_ms, o.ssdp_timeout_ms,
            o.arp_sweep_timeout_ms, o.concurrency) == discover_timing(profile),
    {
        let (tcp, icmp, mdns, ssdp, arp, conc): (u64, u64, u64, u64, u64, usize) = match profile {
            ScanProfile::Quick => (400, 2000, 3000, 3000, 2000, 256),
            ScanProfile::Normal | ScanProfile::Iot | ScanProfile::Router => (
                800,
                4000,
                5000,
                5000,
                4000,
                256,
            ),
            ScanProfile::Deep => (1000, 6000, 8000, 8000, 6000, 512),
        };
        DiscoverOptions {
            profile,
            interface: None,
            tcp_timeout_ms: tcp,
            icmp_timeout_ms: icmp,
            mdns_timeout_ms: mdns,
            ssdp_timeout_ms: ssdp,
            arp_sweep_timeout_ms: arp,
            concurrency: conc,
        }
    }
}

impl Default for DiscoverOptions {
    /// The quick profile.
    fn default() -> (o: Self)
        ensures
            o.profile == ScanProfile::Quick,
            o.interface is None,
            (o.tcp_timeout_ms, o.icmp_timeout_ms, o.mdns_timeout_ms, o.ssdp_timeout_ms,
            o.arp_sweep_timeout_ms, o.concurrency) == discover_timing(ScanProfile::Quick),
    {
        DiscoverOptions::for_profile(ScanProfile::Quick)
    }
}

/// Splits a listening budget (nanoseconds) into service-type enumeration and
/// instance resolution: half (rounded down) and the rest.
pub fn split_budget(timeout_ns: u128) -> (r: (u128, u128))
    ensures
        r.0 == timeout_ns / 2,
        r.0 + r.1 == timeout_ns,
        r.1 >= r.0,
{
    let meta = timeout_ns / 2;
    (meta, timeout_ns - meta)
}

} // verus!
