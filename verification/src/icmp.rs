//! ICMP echo packets: the 8-byte header, its RFC 1071 checksum, and the
//! identifier/sequence fields read back from replies.

use vstd::prelude::*;

verus! {

/// ICMP "Echo Request" type (RFC 792).
pub const ECHO_REQUEST_V4: u8 = 8;
/// ICMP "Echo Reply" type (RFC 792).
pub const ECHO_REPLY_V4: u8 = 0;
/// ICMPv6 "Echo Request" type (RFC 4443).
pub const ECHO_REQUEST_V6: u8 = 128;
/// ICMPv6 "Echo Reply" type (RFC 4443).
pub const ECHO_REPLY_V6: u8 = 129;

/// Sum of the big-endian 16-bit words of `d`; an odd last byte counts as the
/// high byte of a word.
pub open spec fn word_sum(d: Seq<u8>) -> nat
    decreases d.len(),
{
    if d.len() == 0 {
        0
    } else if d.len() == 1 {
        d[0] as nat * 256
    } else {
        (d[0] as nat * 256 + d[1] as nat) + word_sum(d.subrange(2, d.len() as int))
    }
}

/// End-around-carry folding of a sum into 16 bits.
pub open spec fn fold16(s: nat) -> nat
    decreases s,
{
    if s < 65536 {
        s
    } else {
        fold16(s % 65536 + s / 65536)
    }
}

/// RFC 1071 checksum: one's complement of the folded word sum.
pub open spec fn checksum_of(d: Seq<u8>) -> u16 {
    (65535 - fold16(word_sum(d))) as u16
}

/// Big-endian value of two bytes.
pub open spec fn be16(hi: u8, lo: u8) -> u16 {
    (hi as nat * 256 + lo as nat) as u16
}

/// The header of an echo request of type `t` with checksum field `ck`.
pub open spec fn echo_header(t: u8, id: u16, seq: u16, ck: u16) -> Seq<u8> {
    seq![t, 0u8, (ck / 256) as u8, (ck % 256) as u8, (id / 256) as u8, (id % 256) as u8, (seq / 256) as u8, (seq % 256) as u8]
}

/// The echo request of type `t`: its checksum is that of the header with a
/// zero checksum field.
pub open spec fn echo_packet(t: u8, id: u16, seq: u16) -> Seq<u8> {
    echo_header(t, id, seq, checksum_of(echo_header(t, id, seq, 0)))
}

/// Folding keeps the value modulo 65535 and ends at most 65535; it is zero
/// only for zero.
proof fn lemma_fold16(s: nat)
    ensures
        fold16(s) <= 65535,
        fold16(s) % 65535 == s % 65535,
        fold16(s) == 0 <==> s == 0,
    decreases s,
{
    if s >= 65536 {
        let t = s % 65536 + s / 65536;
        assert(t < s && t > 0 && t % 65535 == s % 65535) by (nonlinear_arith)
            requires
                s >= 65536,
                t == s % 65536 + s / 65536,
        {
            let q = s / 65536;
            let r = s % 65536;
            assert(s == q * 65536 + r);
            assert(s - t == q * 65535);
        }
        lemma_fold16(t);
    }
}

/// A positive multiple of 65535 folds to 65535.
proof fn lemma_fold16_multiple(x: nat)
    requires
        x > 0,
        x % 65535 == 0,
    ensures
        fold16(x) == 65535,
{
    lemma_fold16(x);
    let f = fold16(x);
    assert(f > 0);
    assert(f % 65535 == 0);
    assert(f == 65535) by (nonlinear_arith)
        requires
            0 < f <= 65535,
            f % 65535 == 0,
    ;
}

/// Word sum of a header.
proof fn lemma_header_sum(t: u8, id: u16, seq: u16, ck: u16)
    ensures
        word_sum(echo_header(t, id, seq, ck)) == t as nat * 256 + ck as nat + id as nat
            + seq as nat,
{
    let h = echo_header(t, id, seq, ck);
    let h2 = h.subrange(2, 8);
    let h4 = h2.subrange(2, 6);
    let h6 = h4.subrange(2, 4);
    assert(h6.len() == 2);
    assert(h6.subrange(2, h6.len() as int) =~= Seq::<u8>::empty());
    assert(word_sum(Seq::<u8>::empty()) == 0);
    assert(word_sum(h6) == h6[0] as nat * 256 + h6[1] as nat);
    assert(word_sum(h4) == h4[0] as nat * 256 + h4[1] as nat + word_sum(h6));
    assert(word_sum(h2) == h2[0] as nat * 256 + h2[1] as nat + word_sum(h4));
    assert((ck / 256) as nat * 256 + (ck % 256) as nat == ck as nat);
    assert((id / 256) as nat * 256 + (id % 256) as nat == id as nat);
    assert((seq / 256) as nat * 256 + (seq % 256) as nat == seq as nat);
}

/// An echo packet checks out: the checksum over the whole packet, checksum
/// field included, is zero.
pub proof fn lemma_echo_packet_verifies(t: u8, id: u16, seq: u16)
    ensures
        checksum_of(echo_packet(t, id, seq)) == 0,
{
    let s = t as nat * 256 + id as nat + seq as nat;
    lemma_header_sum(t, id, seq, 0);
    lemma_fold16(s);
    let f = fold16(s);
    let ck = checksum_of(echo_header(t, id, seq, 0));
    assert(ck as nat == 65535 - f);
    lemma_header_sum(t, id, seq, ck);
    let x: nat = (s + 65535 - f) as nat;
    assert(x > 0);
    assert(x % 65535 == 0) by (nonlinear_arith)
        requires
            f % 65535 == s % 65535,
            f <= s,
            x == s + 65535 - f,
    ;
    lemma_fold16_multiple(x);
}

/// RFC 1071 checksum of `data`.
pub fn checksum(data: &[u8]) -> (r: u16)
    requires
        data@.len() <= 65536,
    ensures
        r == checksum_of(data@),
{
    let n = data.len();
    let mut sum: u32 = 0;
    let mut i: usize = 0;
    assert(data@.subrange(0, n as int) =~= data@);
    while i + 1 < n
        invariant
            n == data@.len() <= 65536,
            i <= n,
            i % 2 == 0,
            sum <= 65535 * (i / 2),
            sum + word_sum(data@.subrange(i as int, n as int)) == word_sum(data@),
        decreases n - i,
    {
        let ghost rest = data@.subrange(i as int, n as int);
        assert(rest.subrange(2, rest.len() as int) =~= data@.subrange(i + 2, n as int));
        sum = sum + (data[i] as u32) * 256 + (data[i + 1] as u32);
        i = i + 2;
    }
    if i < n {
        let ghost rest = data@.subrange(i as int, n as int);
        assert(rest.len() == 1);
        sum = sum + (data[i] as u32) * 256;
    } else {
        assert(data@.subrange(i as int, n as int).len() == 0);
    }
    assert(sum == word_sum(data@));
    while (sum >> 16) != 0
        invariant
            fold16(sum as nat) == fold16(word_sum(data@)),
        decreases sum,
    {
        let lo = sum & 0xffff;
        let hi = sum >> 16;
        assert(lo == sum % 65536 && hi == sum / 65536 && (hi != 0 ==> sum >= 65536))
            by (bit_vector)
            requires
                lo == sum & 0xffff,
                hi == sum >> 16,
        ;
        sum = lo + hi;
    }
    assert((sum >> 16) == 0 ==> sum < 65536) by (bit_vector);
    assert(fold16(sum as nat) == sum);
    let folded = sum as u16;
    let r = !folded;
    assert(r == 65535 - folded) by (bit_vector)
        requires
            r == !folded,
    ;
    r
}

/// Builds an 8-byte ICMP echo header of type `req_type` with identifier `id`
/// and sequence number `seq`, checksum filled in.
pub fn build_echo(req_type: u8, id: u16, seq: u16) -> (pkt: Vec<u8>)
    ensures
        pkt@ == echo_packet(req_type, id, seq),
{
    let mut pkt: Vec<u8> = Vec::new();
    pkt.push(req_type);
    pkt.push(0);
    pkt.push(0);
    pkt.push(0);
    pkt.push((id / 256) as u8);
    pkt.push((id % 256) as u8);
    pkt.push((seq / 256) as u8);
    pkt.push((seq % 256) as u8);
    assert(pkt@ =~= echo_header(req_type, id, seq, 0));
    let ck = checksum(&pkt);
    pkt.set(2, (ck / 256) as u8);
    pkt.set(3, (ck % 256) as u8);
    assert(pkt@ =~= echo_packet(req_type, id, seq));
    pkt
}

/// Builds an 8-byte IPv4 ICMP echo request (type 8).
pub fn build_echo_request(id: u16, seq: u16) -> (pkt: Vec<u8>)
    ensures
        pkt@ == echo_packet(ECHO_REQUEST_V4, id, seq),
{
    build_echo(ECHO_REQUEST_V4, id, seq)
}

/// The identifier field (bytes 4–5) of an echo header, if present.
pub fn id_for(buf: &[u8]) -> (r: Option<u16>)
    ensures
        match r {
            Some(v) => buf@.len() >= 6 && v == be16(buf@[4], buf@[5]),
            None => buf@.len() < 6,
        },
{
    if buf.len() < 6 {
        None
    } else {
        Some((buf[4] as u16) * 256 + (buf[5] as u16))
    }
}

/// The sequence field (bytes 6–7) of an echo header, if present.
pub fn seq_for(buf: &[u8]) -> (r: Option<u16>)
    ensures
        match r {
            Some(v) => buf@.len() >= 8 && v == be16(buf@[6], buf@[7]),
            None => buf@.len() < 8,
        },
{
    if buf.len() < 8 {
        None
    } else {
        Some((buf[6] as u16) * 256 + (buf[7] as u16))
    }
}

/// The identifier and sequence number written into an echo packet read back
/// unchanged.
pub proof fn lemma_echo_fields(t: u8, id: u16, seq: u16)
    ensures
        echo_packet(t, id, seq).len() == 8,
        echo_packet(t, id, seq)[0] == t,
        be16(echo_packet(t, id, seq)[4], echo_packet(t, id, seq)[5]) == id,
        be16(echo_packet(t, id, seq)[6], echo_packet(t, id, seq)[7]) == seq,
{
}

/// An echo reply answering the sweep with identifier `id`: at least 8 bytes,
/// type 0 (echo reply), and that identifier.
pub open spec fn is_sweep_reply(buf: Seq<u8>, id: u16) -> bool {
    buf.len() >= 8 && buf[0] == ECHO_REPLY_V4 && be16(buf[4], buf[5]) == id
}

/// Whether a datagram answers the sweep with identifier `id`.
pub fn sweep_reply_matches(buf: &[u8], id: u16) -> (r: bool)
    ensures
        r == is_sweep_reply(buf@, id),
{
    if buf.len() < 8 || buf[0] != ECHO_REPLY_V4 {
        return false;
    }
    match id_for(buf) {
        Some(v) => v == id,
        None => false,
    }
}

/// An echo reply of type `reply_type` to the probe `(id, seq)`.
pub open spec fn is_reply_to(buf: Seq<u8>, reply_type: u8, id: u16, seq: u16) -> bool {
    buf.len() >= 8 && buf[0] == reply_type && be16(buf[4], buf[5]) == id && be16(buf[6], buf[7])
        == seq
}

/// Whether a datagram answers the probe `(id, seq)`; late answers to other
/// probes do not.
pub fn reply_matches(buf: &[u8], reply_type: u8, id: u16, seq: u16) -> (r: bool)
    ensures
        r == is_reply_to(buf@, reply_type, id, seq),
{
    if buf.len() < 8 || buf[0] != reply_type {
        return false;
    }
    match (id_for(buf), seq_for(buf)) {
        (Some(i), Some(s)) => i == id && s == seq,
        _ => false,
    }
}

/// The echo identifier of a process: its id truncated to 16 bits, plus one,
/// wrapping.
pub fn echo_id(pid: u32) -> (r: u16)
    ensures
        r == ((pid % 65536) + 1) % 65536,
{
    let low = (pid % 65536) as u16;
    low.wrapping_add(1)
}

} // verus!
