//! Raw Ethernet + ARP frames for the privileged ARP sweep: the broadcast
//! request for one address, and reading the sender back from a reply.

use vstd::prelude::*;

use crate::arp::all_zero;
use crate::model::{sighting, IpAddr, MacAddr, Observation, Source};

verus! {

/// Length of the Ethernet header.
pub const ETH_HEADER_LEN: usize = 14;
/// Length of an IPv4-over-Ethernet ARP packet.
pub const ARP_PACKET_LEN: usize = 28;

/// The four octets of an IPv4 address, most significant first.
pub open spec fn ipv4_octets(a: u32) -> Seq<u8> {
    seq![(a / 16777216) as u8, ((a / 65536) % 256) as u8, ((a / 256) % 256) as u8, (a % 256) as u8]
}

/// The IPv4 address of four octets, most significant first.
pub open spec fn ipv4_of_octets(b: Seq<u8>) -> u32 {
    (b[0] * 16777216 + b[1] * 65536 + b[2] * 256 + b[3]) as u32
}

/// The 42-byte broadcast ARP request asking who has `target`, sent by
/// `src_mac`/`src_ip`.
pub open spec fn arp_request_frame(src_mac: Seq<u8>, src_ip: u32, target: u32) -> Seq<u8> {
    seq![0xffu8, 0xffu8, 0xffu8, 0xffu8, 0xffu8, 0xffu8] + src_mac + seq![
        0x08u8,
        0x06u8,
        0x00u8,
        0x01u8,
        0x08u8,
        0x00u8,
        6u8,
        4u8,
        0x00u8,
        0x01u8,
    ] + src_mac + ipv4_octets(src_ip) + seq![0u8, 0u8, 0u8, 0u8, 0u8, 0u8] + ipv4_octets(target)
}

/// The sender of an ARP reply frame: its hardware address (bytes 22–27) and
/// IPv4 address (bytes 28–31); `None` for a frame shorter than 42 bytes, not
/// of EtherType ARP (`08 06`), or whose operation is not reply (`00 02`).
pub open spec fn arp_reply_of(frame: Seq<u8>) -> Option<(Seq<u8>, u32)> {
    if frame.len() < 42 || frame[12] != 0x08 || frame[13] != 0x06 || frame[20] != 0x00 || frame[21]
        != 0x02 {
        None
    } else {
        Some((frame.subrange(22, 28), ipv4_of_octets(frame.subrange(28, 32))))
    }
}

/// Appends the four octets of an IPv4 address.
fn push_ipv4(buf: &mut Vec<u8>, a: u32)
    ensures
        final(buf)@ == old(buf)@ + ipv4_octets(a),
{
    buf.push((a / 16777216) as u8);
    buf.push(((a / 65536) % 256) as u8);
    buf.push(((a / 256) % 256) as u8);
    buf.push((a % 256) as u8);
    assert(buf@ =~= old(buf)@ + ipv4_octets(a));
}

/// Appends six bytes.
fn push_six(buf: &mut Vec<u8>, b: &[u8; 6])
    ensures
        final(buf)@ == old(buf)@ + b@,
{
    let mut i: usize = 0;
    while i < 6
        invariant
            i <= 6,
            b@.len() == 6,
            buf@ == old(buf)@ + b@.subrange(0, i as int),
        decreases 6 - i,
    {
        buf.push(b[i]);
        i = i + 1;
        assert(buf@ =~= old(buf)@ + b@.subrange(0, i as int));
    }
    assert(b@.subrange(0, 6) =~= b@);
}

/// Builds the Ethernet + ARP request frame asking who has `target_ip`.
pub fn build_arp_request(src_mac: &[u8; 6], src_ip: u32, target_ip: u32) -> (frame: Vec<u8>)
    ensures
        frame@ == arp_request_frame(src_mac@, src_ip, target_ip),
        frame@.len() == ETH_HEADER_LEN + ARP_PACKET_LEN,
{
    let mut buf: Vec<u8> = Vec::new();
    push_six(&mut buf, &[0xffu8, 0xffu8, 0xffu8, 0xffu8, 0xffu8, 0xffu8]);
    push_six(&mut buf, src_mac);
    buf.push(0x08);
    buf.push(0x06);
    buf.push(0x00);
    buf.push(0x01);
    buf.push(0x08);
    buf.push(0x00);
    buf.push(6);
    buf.push(4);
    buf.push(0x00);
    buf.push(0x01);
    push_six(&mut buf, src_mac);
    push_ipv4(&mut buf, src_ip);
    push_six(&mut buf, &[0u8, 0u8, 0u8, 0u8, 0u8, 0u8]);
    push_ipv4(&mut buf, target_ip);
    assert(buf@ =~= arp_request_frame(src_mac@, src_ip, target_ip));
    buf
}

/// Reads the sender hardware and IPv4 address of an ARP reply frame (see
/// [`arp_reply_of`]).
pub fn parse_arp_reply(frame: &[u8]) -> (r: Option<(MacAddr, u32)>)
    ensures
        match r {
            Some((m, ip)) => arp_reply_of(frame@) == Some((m.bytes(), ip)),
            None => arp_reply_of(frame@) is None,
        },
{
    if frame.len() < ETH_HEADER_LEN + ARP_PACKET_LEN {
        return None;
    }
    if frame[12] != 0x08 || frame[13] != 0x06 {
        return None;
    }
    if frame[20] != 0x00 || frame[21] != 0x02 {
        return None;
    }
    let mac = MacAddr::from_octets([frame[22], frame[23], frame[24], frame[25], frame[26], frame[27]]);
    let ip = (frame[28] as u32) * 16777216 + (frame[29] as u32) * 65536 + (frame[30] as u32) * 256
        + (frame[31] as u32);
    assert(mac.bytes() =~= frame@.subrange(22, 28));
    assert(ipv4_of_octets(frame@.subrange(28, 32)) == ip);
    Some((mac, ip))
}

/// The (address, hardware address) an ARP reply reports, unless the frame is
/// no reply or the hardware address is all zeros.
pub open spec fn arp_reply_sighting_of(frame: Seq<u8>) -> Option<(IpAddr, Seq<u8>)> {
    match arp_reply_of(frame) {
        Some((b, ip)) => if all_zero(b) {
            None
        } else {
            Some((IpAddr::V4(ip), b))
        },
        None => None,
    }
}

/// The [`Source::ArpSweep`] observation an ARP reply gives (see
/// [`arp_reply_sighting_of`]).
pub fn arp_reply_sighting(frame: &[u8]) -> (r: Option<Observation>)
    ensures
        match r {
            Some(o) => match arp_reply_sighting_of(frame@) {
                Some((ip, b)) => {
                    &&& o.mac matches Some(m)
                    &&& m.bytes() == b
                    &&& sighting(o, Source::ArpSweep, Some(ip), o.mac)
                },
                None => false,
            },
            None => arp_reply_sighting_of(frame@) is None,
        },
{
    match parse_arp_reply(frame) {
        None => None,
        Some((mac, ip)) => {
            if mac.is_zero() {
                None
            } else {
                Some(Observation::new(Source::ArpSweep).with_ip(IpAddr::V4(ip)).with_mac(mac))
            }
        },
    }
}

/// A request frame is never read as a reply: the sweep does not mistake its
/// own broadcasts for answers.
pub proof fn lemma_request_is_not_reply(src_mac: Seq<u8>, src_ip: u32, target: u32)
    requires
        src_mac.len() == 6,
    ensures
        arp_reply_of(arp_request_frame(src_mac, src_ip, target)) is None,
{
    let f = arp_request_frame(src_mac, src_ip, target);
    assert(f[21] == 0x01u8);
}

/// The sender fields of a request frame carry the sender's own addresses.
pub proof fn lemma_request_sender_fields(src_mac: Seq<u8>, src_ip: u32, target: u32)
    requires
        src_mac.len() == 6,
    ensures
        arp_request_frame(src_mac, src_ip, target).len() == 42,
        arp_request_frame(src_mac, src_ip, target).subrange(22, 28) == src_mac,
        ipv4_of_octets(arp_request_frame(src_mac, src_ip, target).subrange(28, 32)) == src_ip,
        ipv4_of_octets(arp_request_frame(src_mac, src_ip, target).subrange(38, 42)) == target,
{
    let f = arp_request_frame(src_mac, src_ip, target);
    assert(f.subrange(22, 28) =~= src_mac);
    assert(f.subrange(28, 32) =~= ipv4_octets(src_ip));
    assert(f.subrange(38, 42) =~= ipv4_octets(target));
    lemma_octets_round_trip(src_ip);
    lemma_octets_round_trip(target);
}

/// The four octets of an address give the address back.
pub proof fn lemma_octets_round_trip(a: u32)
    ensures
        ipv4_of_octets(ipv4_octets(a)) == a,
{
    let b = ipv4_octets(a);
    assert(b[0] == a / 16777216);
    assert(b[1] == (a / 65536) % 256);
    assert(b[2] == (a / 256) % 256);
    assert(b[3] == a % 256);
    assert((a / 16777216) * 16777216 + ((a / 65536) % 256) * 65536 + ((a / 256) % 256) * 256 + a
        % 256 == a) by (nonlinear_arith);
}

} // verus!
