//! SSDP/UPnP answers to an `M-SEARCH`: the device address taken from the
//! `LOCATION` header, and the observation an answer gives.

use vstd::prelude::*;

pub use crate::probes::parse_header;

use crate::model::{hint_index, hint_pairs, hint_value, ip_from_text, parse_ip, IpAddr, Observation, Source};
use crate::probes::header_of;
use crate::text::{
    chars_of, field_len, find, find_chars, last_index, last_index_of, next_index_of, slice_chars,
};

verus! {

/// The host part of a URL: the text after the first `://` up to the next
/// `://`, then up to the first `/`, then before the last `:` (the port).
pub open spec fn url_host(url: Seq<char>) -> Option<Seq<char>> {
    match find(url, "://"@) {
        None => None,
        Some(k) => {
            let after = url.subrange(k + 3, url.len() as int);
            let piece = match find(after, "://"@) {
                Some(j) => after.subrange(0, j),
                None => after,
            };
            let host_port = piece.subrange(0, field_len(piece, '/') as int);
            match last_index(host_port, ':') {
                Some(c) => Some(host_port.subrange(0, c)),
                None => Some(host_port),
            }
        },
    }
}

/// The device address an SSDP answer announces: the host of its `LOCATION`
/// URL, when that is an address.
pub open spec fn location_ip_of(text: Seq<char>) -> Option<IpAddr> {
    match header_of(text, "LOCATION"@) {
        None => None,
        Some(loc) => match url_host(loc) {
            None => None,
            Some(h) => ip_from_text(h),
        },
    }
}

/// Executable [`url_host`].
fn url_host_chars(url: &[char]) -> (r: Option<Vec<char>>)
    ensures
        match r {
            Some(h) => url_host(url@) == Some(h@),
            None => url_host(url@) is None,
        },
{
    let sep = chars_of("://");
    let k = match find_chars(url, &sep) {
        Some(k) => k,
        None => return None,
    };
    proof {
        reveal_strlit("://");
        crate::text::lemma_find_from(url@, sep@, 0);
    }
    assert(sep@.len() == 3);
    let n = url.len();
    assert(k + 3 <= n);
    let after = slice_chars(url, k + 3, n);
    let piece = match find_chars(&after, &sep) {
        Some(j) => {
            proof {
                crate::text::lemma_find_from(after@, sep@, 0);
            }
            slice_chars(&after, 0, j)
        },
        None => after,
    };
    let slash = next_index_of(&piece, '/', 0);
    assert(piece@.subrange(0, piece@.len() as int) =~= piece@);
    let host_port = slice_chars(&piece, 0, slash);
    proof {
        crate::text::lemma_last_index(host_port@, ':');
    }
    match last_index_of(&host_port, ':') {
        Some(c) => Some(slice_chars(&host_port, 0, c)),
        None => Some(host_port),
    }
}

/// Extracts the device address from the `LOCATION` header of an SSDP answer.
pub fn parse_location_ip(text: &str) -> (r: Option<IpAddr>)
    ensures
        r == location_ip_of(text@),
{
    let loc = match parse_header(text, "LOCATION") {
        Some(l) => l,
        None => return None,
    };
    let lc = chars_of(loc.as_str());
    match url_host_chars(&lc) {
        Some(h) => parse_ip(&h),
        None => None,
    }
}

/// The observation an SSDP answer gives: its `LOCATION` address, with hints
/// `ssdp.st` and `ssdp.server` from the `ST` and `SERVER` headers when
/// present; `None` without a usable `LOCATION`.
pub fn ssdp_observation(text: &str) -> (r: Option<Observation>)
    ensures
        match r {
            None => location_ip_of(text@) is None,
            Some(o) => {
                &&& location_ip_of(text@) matches Some(ip) && o.ip == Some(ip)
                &&& o.source == Source::Ssdp
                &&& o.mac is None
                &&& o.hostname is None
                &&& hint_value(o, "ssdp.st"@) == header_of(text@, "ST"@)
                &&& hint_value(o, "ssdp.server"@) == header_of(text@, "SERVER"@)
                &&& forall|k: Seq<char>|
                    k != "ssdp.st"@ && k != "ssdp.server"@ ==> hint_value(o, k) is None
            },
        },
{
    let ip = match parse_location_ip(text) {
        Some(ip) => ip,
        None => return None,
    };
    let mut obs = Observation::new(Source::Ssdp).with_ip(ip);
    assert forall|k: Seq<char>| hint_value(obs, k) is None by {
        assert(hint_pairs(obs).len() == 0);
        assert(hint_index(hint_pairs(obs), k) is None);
    }
    proof {
        reveal_strlit("ssdp.st");
        reveal_strlit("ssdp.server");
        assert("ssdp.st"@ != "ssdp.server"@) by {
            assert("ssdp.st"@.len() != "ssdp.server"@.len());
        }
    }
    match parse_header(text, "ST") {
        Some(st) => {
            obs = obs.with_hint("ssdp.st".to_string(), st);
        },
        None => {},
    }
    match parse_header(text, "SERVER") {
        Some(server) => {
            obs = obs.with_hint("ssdp.server".to_string(), server);
        },
        None => {},
    }
    Some(obs)
}

} // verus!
