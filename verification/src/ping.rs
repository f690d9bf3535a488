//! Summarising the probes of a `ping`: reachability, mean latency and counts.

use vstd::prelude::*;

use crate::model::IpAddr;

verus! {

/// How a host was pinged.
#[derive(Clone, Copy, Debug, PartialEq, Eq, Structural)]
pub enum PingMethod {
    /// ICMP echo over a datagram socket.
    Icmp,
    /// TCP connect to ports 80/443, when no ICMP socket can be opened.
    TcpConnect,
}

/// Ports tried by the TCP-connect fallback, in order.
pub const PING_TCP_PORTS: [u16; 2] = [80, 443];

/// Outcome of pinging one host. The packet loss, a fraction, is
/// `(packets_sent - packets_received) / packets_sent`.
#[derive(Clone, Copy, Debug, PartialEq, Eq, Structural)]
pub struct PingStats {
    pub target: IpAddr,
    /// At least one probe was answered.
    pub reachable: bool,
    /// Mean latency of the answered probes, in milliseconds.
    pub latency_ms: Option<u64>,
    pub packets_sent: u32,
    pub packets_received: u32,
    pub method: PingMethod,
}

/// Sum of a list of latencies.
pub open spec fn total_ms(l: Seq<u64>) -> nat
    decreases l.len(),
{
    if l.len() == 0 {
        0
    } else {
        total_ms(l.drop_last()) + l.last() as nat
    }
}

/// How many probes a `ping` of `count` sends: at least one.
pub fn probe_count(count: u32) -> (r: u32)
    ensures
        r == if count == 0 {
            1
        } else {
            count
        },
{
    if count == 0 {
        1
    } else {
        count
    }
}

/// Summarises `sent` probes of which `received` were answered, with the
/// latencies of the answered ones: reachable when one was answered, and the
/// mean latency (rounded down) when there is one.
pub fn ping_stats(
    target: IpAddr,
    sent: u32,
    received: u32,
    latencies: &[u64],
    method: PingMethod,
) -> (r: PingStats)
    requires
        total_ms(latencies@) <= u64::MAX,
    ensures
        r.target == target,
        r.reachable == (received > 0),
        r.latency_ms == if latencies@.len() == 0 {
            None::<u64>
        } else {
            Some((total_ms(latencies@) / latencies@.len() as nat) as u64)
        },
        r.packets_sent == sent,
        r.packets_received == received,
        r.method == method,
{
    let latency_ms = if latencies.len() == 0 {
        None
    } else {
        let mut sum: u64 = 0;
        let mut i: usize = 0;
        while i < latencies.len()
            invariant
                i <= latencies@.len(),
                total_ms(latencies@) <= u64::MAX,
                sum == total_ms(latencies@.subrange(0, i as int)),
            decreases latencies@.len() - i,
        {
            assert(latencies@.subrange(0, i + 1).drop_last() =~= latencies@.subrange(0, i as int));
            proof {
                lemma_total_prefix(latencies@, i as int + 1);
            }
            sum = sum + latencies[i];
            i = i + 1;
        }
        assert(latencies@.subrange(0, latencies@.len() as int) =~= latencies@);
        Some(sum / (latencies.len() as u64))
    };
    PingStats {
        target,
        reachable: received > 0,
        latency_ms,
        packets_sent: sent,
        packets_received: received,
        method,
    }
}

/// The total of a prefix is at most the total.
proof fn lemma_total_prefix(l: Seq<u64>, n: int)
    requires
        0 <= n <= l.len(),
    ensures
        total_ms(l.subrange(0, n)) <= total_ms(l),
    decreases l.len() - n,
{
    if n < l.len() {
        lemma_total_prefix(l, n + 1);
        assert(l.subrange(0, n + 1).drop_last() =~= l.subrange(0, n));
    } else {
        assert(l.subrange(0, n) =~= l);
    }
}

} // verus!
