//! `traceroute` decisions: the probe of each hop, reading the ICMP error a
//! hop answers with, and when the trace stops.

use vstd::prelude::*;

use crate::errors::DiscoveryError;
use crate::model::IpAddr;
use crate::text::{chars_of, decimal, extend_chars, push_decimal, string_of};

verus! {

/// Base UDP port of the probes (the traceroute convention).
pub const TRACE_PORT_BASE: u16 = 33434;
/// Type Time Exceeded of an ICMP error (an intermediate router).
pub const TIME_EXCEEDED_TYPE: u8 = 11;
/// Type Destination Unreachable of an ICMP error.
pub const DEST_UNREACH_TYPE: u8 = 3;
/// Code Port Unreachable of an ICMP error (the target reached a closed port).
pub const PORT_UNREACH_CODE: u8 = 3;

/// One hop of a trace.
#[derive(Clone, Debug, PartialEq, Eq)]
pub struct TraceHop {
    pub hop_number: u8,
    pub ip: Option<IpAddr>,
    pub hostname: Option<String>,
    pub latency_ms: Option<u64>,
    pub state: String,
}

/// What waiting on a hop's error queue gave.
#[derive(Clone, Copy, Debug, PartialEq, Eq, Structural)]
pub enum HopReply {
    /// An ICMP error from `ip`, of the given type and code.
    Got(IpAddr, u8, u8),
    /// Nothing within the timeout.
    Timeout,
    /// A system error.
    Error,
}

/// The IPv4 target of a trace; IPv6 is not supported and gives an error
/// saying so.
pub fn trace_target(target: IpAddr) -> (r: Result<u32, DiscoveryError>)
    ensures
        match target {
            IpAddr::V4(a) => r == Ok::<u32, DiscoveryError>(a),
            IpAddr::V6(_) => r matches Err(DiscoveryError::Dns(m)) && m@
                == "IPv6 traceroute aún no soportado en este push (usar IPv4)"@,
        },
{
    match target {
        IpAddr::V4(a) => Ok(a),
        IpAddr::V6(_) => Err(
            DiscoveryError::Dns("IPv6 traceroute aún no soportado en este push (usar IPv4)".to_string()),
        ),
    }
}

/// The hops a trace may probe: at least one.
pub fn hop_limit(max_hops: u8) -> (r: u8)
    ensures
        r == (if max_hops == 0 {
            1u8
        } else {
            max_hops
        }),
{
    if max_hops == 0 {
        1
    } else {
        max_hops
    }
}

/// The UDP port of the probe with time-to-live `ttl`.
pub fn probe_port(ttl: u8) -> (p: u16)
    ensures
        p == TRACE_PORT_BASE + ttl,
{
    TRACE_PORT_BASE + ttl as u16
}

/// The state text of an ICMP error of type `t` and code `c`: `reached` for
/// port unreachable, `time-exceeded` for time exceeded, else `icmp t/c`.
pub open spec fn error_state(t: u8, c: u8) -> Seq<char> {
    if t == DEST_UNREACH_TYPE && c == PORT_UNREACH_CODE {
        "reached"@
    } else if t == TIME_EXCEEDED_TYPE {
        "time-exceeded"@
    } else {
        "icmp "@ + decimal(t as nat) + seq!['/'] + decimal(c as nat)
    }
}

/// Reads what a hop answered after `elapsed_ms`: (address, latency, state,
/// target reached). An ICMP error gives its sender and the latency; a
/// timeout is `*`, a system error `error`, both without address or latency.
pub fn hop_outcome(reply: HopReply, elapsed_ms: u64) -> (r: (Option<IpAddr>, Option<u64>, String, bool))
    ensures
        match reply {
            HopReply::Got(ip, t, c) => r.0 == Some(ip) && r.1 == Some(elapsed_ms) && r.2@
                == error_state(t, c) && r.3 == (t == DEST_UNREACH_TYPE && c == PORT_UNREACH_CODE),
            HopReply::Timeout => r.0 is None && r.1 is None && r.2@ == "*"@ && !r.3,
            HopReply::Error => r.0 is None && r.1 is None && r.2@ == "error"@ && !r.3,
        },
{
    match reply {
        HopReply::Got(ip, t, c) => {
            let reached = t == DEST_UNREACH_TYPE && c == PORT_UNREACH_CODE;
            let state = if reached {
                "reached".to_string()
            } else if t == TIME_EXCEEDED_TYPE {
                "time-exceeded".to_string()
            } else {
                let mut s: Vec<char> = Vec::new();
                extend_chars(&mut s, &chars_of("icmp "));
                push_decimal(&mut s, t as u64);
                s.push('/');
                push_decimal(&mut s, c as u64);
                assert(s@ =~= error_state(t, c));
                string_of(&s)
            };
            (Some(ip), Some(elapsed_ms), state, reached)
        },
        HopReply::Timeout => (None, None, "*".to_string(), false),
        HopReply::Error => (None, None, "error".to_string(), false),
    }
}

/// Whether the trace goes on after the hop with time-to-live `ttl`: the
/// target was not reached and the limit not hit.
pub fn trace_continues(ttl: u8, limit: u8, reached: bool) -> (r: bool)
    ensures
        r == (!reached && ttl < limit),
{
    !reached && ttl < limit
}

} // verus!
