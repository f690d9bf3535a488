//! The bookkeeping of a discovery scan: the device built from each host
//! record, the counts of hosts alive and new, and the outcome reported.

use vstd::prelude::*;

use crate::model::{Device, DeviceType, Observation};

verus! {

/// Whether storing a device inserted a new row or updated a known one.
#[derive(Clone, Copy, Debug, PartialEq, Eq, Structural)]
pub enum UpsertOutcome {
    Inserted,
    Updated,
}

/// What a discovery scan reports.
#[derive(Clone, Debug, PartialEq, Eq)]
pub struct ScanOutcome {
    pub scan_id: String,
    pub network_id: String,
    pub hosts_alive: u32,
    pub hosts_new: u32,
    pub duration_ms: u64,
}

/// The summary stored with a finished scan.
#[derive(Clone, Copy, Debug, Default, PartialEq, Eq)]
pub struct ScanSummary {
    pub hosts_alive: u32,
    pub hosts_new: u32,
    pub duration_ms: u64,
    pub open_ports: u32,
}

/// A scan as listed in the history: its columns and the counts of its
/// summary (zero without one).
#[derive(Clone, Debug, PartialEq, Eq)]
pub struct ScanRow {
    pub id: String,
    pub scan_type: String,
    pub target_ip: Option<String>,
    pub profile: String,
    pub status: String,
    pub started_at: String,
    pub finished_at: Option<String>,
    pub hosts_alive: u32,
    pub hosts_new: u32,
    pub open_ports: u32,
}

/// The counts a history row shows: those of the scan's summary, or zeros
/// when it has none.
pub fn row_counts(summary: Option<ScanSummary>) -> (r: (u32, u32, u32))
    ensures
        r == match summary {
            Some(s) => (s.hosts_alive, s.hosts_new, s.open_ports),
            None => (0u32, 0u32, 0u32),
        },
{
    match summary {
        Some(s) => (s.hosts_alive, s.hosts_new, s.open_ports),
        None => (0, 0, 0),
    }
}

/// The summary of a finished discovery scan: its counts and duration; a
/// discovery scan opens no port.
pub fn scan_summary(tally: ScanTally, duration_ms: u64) -> (s: ScanSummary)
    ensures
        s == (ScanSummary {
            hosts_alive: tally.hosts_alive,
            hosts_new: tally.hosts_new,
            duration_ms,
            open_ports: 0,
        }),
{
    ScanSummary { hosts_alive: tally.hosts_alive, hosts_new: tally.hosts_new, duration_ms, open_ports: 0 }
}

/// The device of one host record of a scan at `now`: a fresh device `id` of
/// network `network_id`, with the record's addresses and host name, not yet
/// classified (unknown type, confidence 0) and with no other facts.
pub fn device_for_host(id: &str, network_id: &str, now: &str, host: &Observation) -> (d: Device)
    ensures
        d.id@ == id@,
        d.network_id@ == network_id@,
        d.first_seen_at@ == now@,
        d.last_seen_at@ == now@,
        d.primary_mac == host.mac,
        d.primary_ip == host.ip,
        d.hostname == host.hostname,
        d.is_online,
        d.display_name is None && d.vendor is None && d.notes is None,
        d.manufacturer is None && d.model is None && d.os_family is None,
        d.device_type == DeviceType::Unknown,
        d.confidence.value == 0,
        !d.is_trusted && !d.is_hidden,
{
    let mut d = Device::new(id, network_id, now);
    d.merge_observation(host, now);
    d
}

/// The running counts of a scan: hosts alive (records found, at most
/// `u32::MAX`) and hosts new (records that were inserted).
#[derive(Clone, Copy, Debug, PartialEq, Eq)]
pub struct ScanTally {
    pub hosts_alive: u32,
    pub hosts_new: u32,
}

impl ScanTally {
    /// The counts before storing any of `records` host records.
    pub fn new(records: usize) -> (t: ScanTally)
        ensures
            t.hosts_alive == (if records <= u32::MAX {
                records as u32
            } else {
                u32::MAX
            }),
            t.hosts_new == 0,
    {
        let alive: u32 = if records <= 4294967295 {
            records as u32
        } else {
            4294967295
        };
        ScanTally { hosts_alive: alive, hosts_new: 0 }
    }

    /// Counts one stored record: an insertion is a new host.
    pub fn record(&mut self, outcome: UpsertOutcome)
        requires
            old(self).hosts_new < u32::MAX,
        ensures
            final(self).hosts_alive == old(self).hosts_alive,
            final(self).hosts_new == old(self).hosts_new + (if outcome == UpsertOutcome::Inserted {
                1int
            } else {
                0int
            }),
    {
        if outcome == UpsertOutcome::Inserted {
            self.hosts_new = self.hosts_new + 1;
        }
    }
}

/// A duration in milliseconds as a `u64`, saturating.
pub fn duration_ms_of(elapsed_ms: u128) -> (r: u64)
    ensures
        r == (if elapsed_ms <= u64::MAX {
            elapsed_ms as u64
        } else {
            u64::MAX
        }),
{
    if elapsed_ms <= 18446744073709551615 {
        elapsed_ms as u64
    } else {
        18446744073709551615
    }
}

} // verus!
