//! Subnet arithmetic: the host addresses of an IPv4 network.

use vstd::prelude::*;

verus! {

/// Most hosts that one enumeration hands out.
pub const MAX_HOSTS: usize = 4096;

/// The network mask of a prefix length `p` (`0..=32`), as a number.
pub open spec fn prefix_mask(p: u8) -> u32 {
    if p == 0 {
        0
    } else {
        0xffff_ffffu32 << ((32 - p) as u32)
    }
}

/// The network address of `ip/p`.
pub open spec fn network_of(ip: u32, p: u8) -> u32 {
    ip & prefix_mask(p)
}

/// The broadcast address of `ip/p`.
pub open spec fn broadcast_of(ip: u32, p: u8) -> u32 {
    network_of(ip, p) | !prefix_mask(p)
}

/// How many hosts are enumerated for `ip/p`: those strictly between the
/// network and the broadcast address, at most [`MAX_HOSTS`]; none for a
/// prefix longer than 30 bits (including invalid ones).
pub open spec fn host_count(ip: u32, p: u8) -> nat {
    if p > 30 {
        0
    } else {
        let span = broadcast_of(ip, p) - network_of(ip, p) - 1;
        if span > MAX_HOSTS {
            MAX_HOSTS as nat
        } else {
            span as nat
        }
    }
}

/// The hosts of `ip/p` in ascending order: `network + 1`, `network + 2`, ...
pub open spec fn hosts_of(ip: u32, p: u8) -> Seq<u32> {
    Seq::new(host_count(ip, p), |i: int| (network_of(ip, p) + 1 + i) as u32)
}

/// For a prefix of 1 to 30 bits the broadcast address is the network address
/// plus the host part of the mask, which has room for at least two hosts.
proof fn lemma_mask_span(ip: u32, p: u8)
    requires
        1 <= p <= 30,
    ensures
        broadcast_of(ip, p) == network_of(ip, p) + !prefix_mask(p),
        !prefix_mask(p) >= 3,
{
    let s: u32 = (32 - p) as u32;
    assert(2 <= s <= 31);
    assert(((ip & (0xffff_ffffu32 << s)) | !(0xffff_ffffu32 << s)) == (ip & (0xffff_ffffu32 << s))
        + !(0xffff_ffffu32 << s)) by (bit_vector)
        requires
            2 <= s <= 31,
    ;
    assert(!(0xffff_ffffu32 << s) >= 3) by (bit_vector)
        requires
            2 <= s <= 31,
    ;
}

/// A zero-length prefix covers the whole address space.
proof fn lemma_mask_zero(ip: u32)
    ensures
        network_of(ip, 0) == 0,
        broadcast_of(ip, 0) == 0xffff_ffffu32,
{
    assert(ip & 0u32 == 0u32) by (bit_vector);
    assert(0u32 | !0u32 == 0xffff_ffffu32) by (bit_vector);
}

/// At most [`MAX_HOSTS`] hosts are enumerated.
pub proof fn lemma_host_count_bound(ip: u32, p: u8)
    ensures
        host_count(ip, p) <= MAX_HOSTS,
        hosts_of(ip, p).len() == host_count(ip, p),
{
    if 1 <= p <= 30 {
        lemma_mask_span(ip, p);
    } else if p == 0 {
        lemma_mask_zero(ip);
    }
}

/// Every enumerated host lies strictly between the network and the broadcast
/// address: neither of those two is ever handed out.
pub proof fn lemma_hosts_inside(ip: u32, p: u8)
    ensures
        forall|i: int|
            0 <= i < hosts_of(ip, p).len() ==> network_of(ip, p) < #[trigger] hosts_of(ip, p)[i]
                < broadcast_of(ip, p),
{
    lemma_host_count_bound(ip, p);
    if 1 <= p <= 30 {
        lemma_mask_span(ip, p);
    } else if p == 0 {
        lemma_mask_zero(ip);
    }
}

/// The host addresses of the IPv4 network `ip/prefix_len`, network and
/// broadcast addresses excluded, at most [`MAX_HOSTS`] of them. A prefix of 31
/// or 32 bits, or an invalid one, gives none.
pub fn enumerate_hosts(ip: u32, prefix_len: u8) -> (r: Vec<u32>)
    ensures
        r@ == hosts_of(ip, prefix_len),
{
    if prefix_len > 32 {
        assert(hosts_of(ip, prefix_len) =~= Seq::<u32>::empty());
        return Vec::new();
    }
    let mask: u32 = if prefix_len == 0 {
        0
    } else {
        0xffff_ffffu32 << (32 - prefix_len as u32)
    };
    let network = ip & mask;
    let broadcast = network | !mask;
    if prefix_len >= 31 {
        assert(hosts_of(ip, prefix_len) =~= Seq::<u32>::empty());
        return Vec::new();
    }
    proof {
        if prefix_len == 0 {
            lemma_mask_zero(ip);
        } else {
            lemma_mask_span(ip, prefix_len);
        }
    }
    assert(network == network_of(ip, prefix_len));
    assert(broadcast == broadcast_of(ip, prefix_len));
    assert(broadcast >= network + 3);
    let mut hosts: Vec<u32> = Vec::new();
    let mut cur: u32 = network + 1;
    while cur < broadcast
        invariant
            network == network_of(ip, prefix_len),
            broadcast == broadcast_of(ip, prefix_len),
            broadcast >= network + 3,
            prefix_len <= 30,
            network + 1 <= cur <= broadcast,
            hosts@.len() == cur - network - 1,
            hosts@.len() < MAX_HOSTS,
            forall|i: int| 0 <= i < hosts@.len() ==> hosts@[i] == network + 1 + i,
        decreases broadcast - cur,
    {
        hosts.push(cur);
        if hosts.len() >= MAX_HOSTS {
            assert(hosts@ =~= hosts_of(ip, prefix_len));
            return hosts;
        }
        cur = cur + 1;
    }
    assert(hosts@ =~= hosts_of(ip, prefix_len));
    hosts
}

} // verus!
